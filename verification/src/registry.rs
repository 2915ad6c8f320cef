//! The registry builder: aggregates the ordered list of exposed command
//! names into a closed key union, a keyed lookup type for argument and
//! return shapes, and a typed invocation wrapper bound to that lookup.

use vstd::prelude::*;

verus! {

/// A key of the closed key union: the name quoted as a string-literal
/// type.
pub open spec fn quoted(name: Seq<char>) -> Seq<char> {
    "'"@ + name + "'"@
}

/// The key union body: the quoted names in input order, joined with
/// ` | `.  Duplicates are kept, not deduplicated.
pub open spec fn keys_list(names: Seq<Seq<char>>) -> Seq<char>
    decreases names.len(),
{
    if names.len() == 0 {
        Seq::empty()
    } else if names.len() == 1 {
        quoted(names[0])
    } else {
        keys_list(names.drop_last()) + " | "@ + quoted(names.last())
    }
}

/// One conditional branch of a lookup chain: it tests one key and yields
/// that name with the given suffix.
pub open spec fn branch_one(name: Seq<char>, suffix: Seq<char>) -> Seq<char> {
    "K extends '"@ + name + "'\n  ? "@ + name + suffix + "\n  : "@
}

/// A lookup chain over the names in input order, ending in the bottom
/// type: the generated conditional type tries each name left to right.
pub open spec fn branch_chain(names: Seq<Seq<char>>, suffix: Seq<char>) -> Seq<char>
    decreases names.len(),
{
    if names.len() == 0 {
        "never;\n"@
    } else {
        branch_one(names[0], suffix) + branch_chain(names.drop_first(), suffix)
    }
}

/// The fixed invocation wrapper appended after the lookup types: it
/// forwards to the externally supplied raw invocation primitive and
/// presents a normalized view of the argument and return shapes.
pub open spec fn invoke_block() -> Seq<char> {
    "import { invoke as tauriInvoke } from '@tauri-apps/api/core';\n\ntype Prettify<T> = {\n  [K in keyof T]: T[K];\n} & {};\n\nexport async function invoke<K extends Keys>(\n  cmd: K,\n  args: Prettify<FunctionArgs<K>>\n): Promise<Prettify<FunctionRet<K>>> {\n  return tauriInvoke(cmd, args);\n}"@
}

/// The full registry text: empty for an empty name list; else the key
/// union, the argument lookup, the return lookup, and the invocation
/// wrapper.
pub open spec fn registry_text(names: Seq<Seq<char>>) -> Seq<char> {
    if names.len() == 0 {
        Seq::empty()
    } else {
        "type Keys = "@ + keys_list(names) + ";\n"@ + "type FunctionArgs<K extends Keys> = "@
            + branch_chain(names, "_args"@) + "type FunctionRet<K extends Keys> = "@
            + branch_chain(names, "_return"@) + "\n"@ + invoke_block()
    }
}

/// What a generated lookup chain resolves a key to: the first branch
/// whose name equals the key wins, in input order; with no match the
/// chain falls through to the bottom type (`None`).
pub open spec fn chain_value(names: Seq<Seq<char>>, suffix: Seq<char>, key: Seq<char>) -> Option<
    Seq<char>,
>
    decreases names.len(),
{
    if names.len() == 0 {
        None
    } else if names[0] == key {
        Some(names[0] + suffix)
    } else {
        chain_value(names.drop_first(), suffix, key)
    }
}

/// Registry first-match rule: when a key occurs in the name list, the
/// lookup resolves to the suffixed name of its earliest occurrence; later
/// duplicates are unreachable dead branches.
pub proof fn lemma_registry_first_match(
    names: Seq<Seq<char>>,
    suffix: Seq<char>,
    key: Seq<char>,
    i: int,
)
    requires
        0 <= i < names.len(),
        names[i] == key,
        forall|j: int| 0 <= j < i ==> names[j] != key,
    ensures
        chain_value(names, suffix, key) == Some(key + suffix),
    decreases i,
{
    if i > 0 {
        assert(names.drop_first()[i - 1] == names[i]);
        assert(forall|j: int| 0 <= j < i - 1 ==> names.drop_first()[j] == names[j + 1]);
        lemma_registry_first_match(names.drop_first(), suffix, key, i - 1);
    }
}

/// Appends one lookup chain over the names, each branch carrying the
/// given suffix, ending in the bottom type.
fn append_chain(out: &mut String, names: &Vec<String>, suffix: &str)
    ensures
        final(out)@ == old(out)@ + branch_chain(names.deep_view(), suffix@),
{
    let ghost dv = names.deep_view();
    let ghost sfx = suffix@;
    let mut i: usize = 0;
    proof {
        assert(dv.skip(0) =~= dv);
    }
    while i < names.len()
        invariant
            dv == names.deep_view(),
            sfx == suffix@,
            0 <= i <= names@.len(),
            names@.len() == dv.len(),
            old(out)@ + branch_chain(dv, sfx) == out@ + branch_chain(dv.skip(i as int), sfx),
        decreases names@.len() - i,
    {
        let ghost out0 = out@;
        let ghost tail = dv.skip(i as int);
        out.append("K extends '");
        out.append(names[i].as_str());
        out.append("'\n  ? ");
        out.append(names[i].as_str());
        out.append(suffix);
        out.append("\n  : ");
        proof {
            assert(tail[0] == dv[i as int]);
            assert(dv[i as int] == names@[i as int]@);
            assert(tail.drop_first() =~= dv.skip(i as int + 1));
            let b = branch_one(dv[i as int], sfx);
            assert(out@ =~= out0 + b);
            let rest = branch_chain(dv.skip(i as int + 1), sfx);
            assert(branch_chain(tail, sfx) == b + rest);
            assert(out0 + (b + rest) =~= (out0 + b) + rest);
        }
        i = i + 1;
    }
    proof {
        assert(dv.skip(dv.len() as int).len() == 0);
    }
    out.append("never;\n");
}

/// Emits the registry for the ordered list of exposed command names: the
/// closed key union, the `FunctionArgs` and `FunctionRet` lookup chains
/// (first match in input order wins), and the typed invocation wrapper.
/// An empty list emits nothing.
pub fn generate_invoke(names: &Vec<String>) -> (r: String)
    ensures
        r@ == registry_text(names.deep_view()),
{
    let ghost dv = names.deep_view();
    if names.len() == 0 {
        return String::new();
    }
    let mut out = "type Keys = ".to_owned();
    let mut i: usize = 0;
    while i < names.len()
        invariant
            dv == names.deep_view(),
            0 <= i <= names@.len(),
            names@.len() == dv.len(),
            out@ == "type Keys = "@ + keys_list(dv.take(i as int)),
        decreases names@.len() - i,
    {
        let ghost out0 = out@;
        if i > 0 {
            out.append(" | ");
        }
        out.append("'");
        out.append(names[i].as_str());
        out.append("'");
        proof {
            let prefix = dv.take(i as int + 1);
            assert(prefix.drop_last() =~= dv.take(i as int));
            assert(prefix.last() == dv[i as int]);
            assert(dv[i as int] == names@[i as int]@);
            if i == 0 {
                assert(out@ =~= "type Keys = "@ + keys_list(prefix));
            } else {
                assert(keys_list(prefix) == keys_list(dv.take(i as int)) + " | "@ + quoted(
                    dv[i as int],
                ));
                assert(out@ =~= "type Keys = "@ + keys_list(prefix));
            }
        }
        i = i + 1;
    }
    proof {
        assert(dv.take(dv.len() as int) =~= dv);
    }
    out.append(";\n");
    out.append("type FunctionArgs<K extends Keys> = ");
    append_chain(&mut out, names, "_args");
    out.append("type FunctionRet<K extends Keys> = ");
    append_chain(&mut out, names, "_return");
    out.append("\n");
    out.append(
        "import { invoke as tauriInvoke } from '@tauri-apps/api/core';\n\ntype Prettify<T> = {\n  [K in keyof T]: T[K];\n} & {};\n\nexport async function invoke<K extends Keys>(\n  cmd: K,\n  args: Prettify<FunctionArgs<K>>\n): Promise<Prettify<FunctionRet<K>>> {\n  return tauriInvoke(cmd, args);\n}",
    );
    proof {
        assert(out@ =~= registry_text(dv));
    }
    out
}

} // verus!
