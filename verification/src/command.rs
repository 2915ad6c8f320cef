//! The command signature translator: emits the paired `_args` and
//! `_return` declarations of one exposed command, applying per-parameter
//! and per-return overrides and skipping framework-injected (contextual)
//! parameters.

use vstd::prelude::*;
use crate::attr::{attrs_without, find_attr, get_string_attribute_value, Attribute};
use crate::error::{prepend_text, TranslateError};
use crate::strutil::{char_to_string, lower_first_char, lowercase_first, str_eq};
use crate::type_expr::{type_text, type_to_string, TypeExpr};

verus! {

/// The binding-pattern class of a command parameter, which determines the
/// synthesized argument key name.
#[derive(Debug, PartialEq, Eq)]
pub enum PatternClass {
    /// A plain identifier binding: the key is the identifier itself.
    Ident { name: String },
    /// A struct or tuple-struct destructuring: the key is the destructured
    /// type's name with its first letter lowercased.
    Destructure { struct_name: String },
    /// A tuple destructuring: the key is an opaque placeholder.
    Tuple,
    /// Any other binding-pattern shape; fatal for the signature.
    Unsupported,
}

/// One parameter of an exposed command.
#[derive(Debug, PartialEq, Eq)]
pub struct Param {
    /// The parameter's binding pattern.
    pub pattern: PatternClass,
    /// The parameter's attributes; a `path` attribute overrides the
    /// computed type text.
    pub attrs: Vec<Attribute>,
    /// The parameter's declared type.
    pub ty: TypeExpr,
}

/// The signature of one exposed command.
#[derive(Debug, PartialEq, Eq)]
pub struct CommandSignature {
    /// The command's name.
    pub name: String,
    /// The parameters, in declaration order.
    pub params: Vec<Param>,
    /// The declared return type; absent for a function that declares none.
    pub ret: Option<TypeExpr>,
    /// The function's attributes; a `return_path` attribute overrides the
    /// computed return type text.
    pub attrs: Vec<Attribute>,
}

/// Lowercases the first character of a string, by the host language's own
/// lowercase mapping, leaving the rest unchanged.
pub fn lowercase(value: String) -> (r: String)
    ensures
        r@ == lowercase_first(value@),
{
    let n = value.as_str().unicode_len();
    if n == 0 {
        String::new()
    } else {
        let c = value.as_str().get_char(0);
        let lc = lower_first_char(c);
        let mut r = char_to_string(lc);
        let rest = value.as_str().substring_char(1, n);
        r.append(rest);
        proof {
            assert(r@ =~= lowercase_first(value@));
        }
        r
    }
}

/// The reserved contextual marker: a parameter whose computed type text is
/// this marker is framework-injected, not caller-supplied.
pub open spec fn contextual_marker() -> Seq<char> {
    "tauri.State"@
}

/// The argument key synthesized from a parameter's binding pattern.
pub open spec fn param_key(p: PatternClass) -> Result<Seq<char>, TranslateError> {
    match p {
        PatternClass::Ident { name } => Ok(name@),
        PatternClass::Destructure { struct_name } => Ok(lowercase_first(struct_name@)),
        PatternClass::Tuple => Ok("unknown"@),
        PatternClass::Unsupported => Err(TranslateError::UnsupportedDeclarationShape),
    }
}

/// The type text of one parameter: its `path` attribute override when
/// present, else the translation of its declared type.
pub open spec fn param_type_text(p: Param) -> Result<Seq<char>, TranslateError> {
    match find_attr(p.attrs@, "path"@) {
        Err(e) => Err(e),
        Ok(Some((text, i))) => Ok(text),
        Ok(None) => type_text(p.ty),
    }
}

/// Whether a parameter is contextual: its computed type text is the
/// reserved marker, and it is skipped entirely.
pub open spec fn contextual_param(p: Param) -> bool {
    param_type_text(p) == Ok::<Seq<char>, TranslateError>(contextual_marker())
}

/// The line one parameter contributes to the argument shape: nothing for a
/// contextual parameter, else `  key: type;`.
pub open spec fn param_entry(p: Param) -> Result<Seq<char>, TranslateError> {
    match param_type_text(p) {
        Err(e) => Err(e),
        Ok(t) => if t == contextual_marker() {
            Ok(Seq::empty())
        } else {
            match param_key(p.pattern) {
                Err(e) => Err(e),
                Ok(k) => Ok("  "@ + k + ": "@ + t + ";\n"@),
            }
        },
    }
}

/// The lines of the argument shape, over all parameters in order; the
/// first failing parameter aborts.
pub open spec fn params_entries(params: Seq<Param>) -> Result<Seq<char>, TranslateError>
    decreases params.len(),
{
    if params.len() == 0 {
        Ok(Seq::empty())
    } else {
        match param_entry(params[0]) {
            Err(e) => Err(e),
            Ok(t) => match params_entries(params.drop_first()) {
                Err(e) => Err(e),
                Ok(rest) => Ok(t + rest),
            },
        }
    }
}

/// The `_args` declaration of a command: an object shape over the
/// surviving parameters, or `undefined` when none survive — callers must
/// then pass no argument.
pub open spec fn args_decl_text(name: Seq<char>, params: Seq<Param>) -> Result<
    Seq<char>,
    TranslateError,
> {
    if params.len() == 0 {
        Ok("export type "@ + name + "_args = undefined;\n"@)
    } else {
        match params_entries(params) {
            Err(e) => Err(e),
            Ok(entries) => if entries.len() == 0 {
                Ok("export type "@ + name + "_args = undefined;\n"@)
            } else {
                Ok("export type "@ + name + "_args = {\n"@ + entries + "};\n"@)
            },
        }
    }
}

/// The right-hand side of the `_return` declaration: the `return_path`
/// override when present; else the void marker for a function that
/// declares no return type; else the translated return type, preceded by a
/// space.
pub open spec fn return_text(sig: CommandSignature) -> Result<Seq<char>, TranslateError> {
    match find_attr(sig.attrs@, "return_path"@) {
        Err(e) => Err(e),
        Ok(Some((text, i))) => Ok(text),
        Ok(None) => match sig.ret {
            None => Ok(" void"@),
            Some(t) => match type_text(t) {
                Err(e) => Err(e),
                Ok(s) => Ok(" "@ + s),
            },
        },
    }
}

/// The full text a command signature appends: its `_args` declaration
/// followed by its `_return` declaration.
pub open spec fn command_text(sig: CommandSignature) -> Result<Seq<char>, TranslateError> {
    match args_decl_text(sig.name@, sig.params@) {
        Err(e) => Err(e),
        Ok(a) => match return_text(sig) {
            Err(e) => Err(e),
            Ok(r) => Ok(a + "export type "@ + sig.name@ + "_return = "@ + r + ";\n\n"@),
        },
    }
}

/// How one parameter stands after translation: unchanged but for its
/// consumed `path` attribute, removed exactly once.
pub open spec fn param_after(old_p: Param, new_p: Param) -> bool {
    &&& new_p.pattern == old_p.pattern
    &&& new_p.ty == old_p.ty
    &&& new_p.attrs@ == attrs_without(old_p.attrs@, "path"@)
}

/// How a whole signature stands after translation: every consumed
/// attribute removed exactly once, everything else unchanged.
pub open spec fn signature_after(old_s: CommandSignature, new_s: CommandSignature) -> bool {
    &&& new_s.name == old_s.name
    &&& new_s.ret == old_s.ret
    &&& new_s.params@.len() == old_s.params@.len()
    &&& forall|i: int|
        0 <= i < old_s.params@.len() ==> param_after(#[trigger] old_s.params@[i], new_s.params@[i])
    &&& new_s.attrs@ == attrs_without(old_s.attrs@, "return_path"@)
}

/// Resolves one parameter: the entry line it contributes (empty for a
/// contextual parameter), with the consumed `path` attribute removed from
/// the parameter exactly once.
fn resolve_param(p: &mut Param) -> (r: Result<String, TranslateError>)
    ensures
        match r {
            Ok(t) => param_entry(*old(p)) == Ok::<Seq<char>, TranslateError>(t@) && param_after(
                *old(p),
                *final(p),
            ),
            Err(e) => param_entry(*old(p)) == Err::<Seq<char>, TranslateError>(e),
        },
{
    let text = match get_string_attribute_value(&p.attrs, "path") {
        Err(e) => {
            return Err(e);
        },
        Ok(Some((t, idx))) => {
            proof {
                crate::attr::lemma_find_attr_in_bounds(p.attrs@, "path"@, 0);
            }
            p.attrs.remove(idx);
            t
        },
        Ok(None) => match type_to_string(&p.ty) {
            Ok(t) => t,
            Err(e) => {
                return Err(e);
            },
        },
    };
    if str_eq(text.as_str(), "tauri.State") {
        return Ok(String::new());
    }
    let key = match &p.pattern {
        PatternClass::Ident { name } => name.clone(),
        PatternClass::Destructure { struct_name } => lowercase(struct_name.clone()),
        PatternClass::Tuple => "unknown".to_owned(),
        PatternClass::Unsupported => {
            return Err(TranslateError::UnsupportedDeclarationShape);
        },
    };
    let mut entry = "  ".to_owned();
    entry.append(key.as_str());
    entry.append(": ");
    entry.append(text.as_str());
    entry.append(";\n");
    proof {
        assert(entry@ =~= "  "@ + key@ + ": "@ + text@ + ";\n"@);
    }
    Ok(entry)
}

/// Translates one command signature: emits its `_args` and `_return`
/// declarations, and returns beside the text the signature as it stands
/// after translation, with every consumed attribute removed exactly once.
pub fn translate_command(sig: CommandSignature) -> (r: Result<
    (String, CommandSignature),
    TranslateError,
>)
    ensures
        match r {
            Ok(p) => command_text(sig) == Ok::<Seq<char>, TranslateError>(p.0@) && signature_after(
                sig,
                p.1,
            ),
            Err(e) => command_text(sig) == Err::<Seq<char>, TranslateError>(e),
        },
{
    let CommandSignature { name, params, ret, mut attrs } = sig;
    let ghost params0 = params@;
    let mut args = "export type ".to_owned();
    args.append(name.as_str());
    let mut out_params: Vec<Param> = Vec::new();
    if params.len() == 0 {
        args.append("_args = undefined;\n");
        proof {
            assert(args@ =~= "export type "@ + name@ + "_args = undefined;\n"@);
        }
    } else {
        let mut entries = String::new();
        let mut rest = params;
        proof {
            assert(rest@ =~= params0.skip(0));
            if params_entries(params0) is Ok {
                assert(Seq::<char>::empty() + params_entries(params0)->Ok_0 =~= params_entries(
                    params0,
                )->Ok_0);
            }
        }
        while rest.len() > 0
            invariant
                params0 == sig.params@,
                out_params@.len() + rest@.len() == params0.len(),
                rest@ == params0.skip(out_params@.len() as int),
                forall|i: int|
                    0 <= i < out_params@.len() ==> param_after(
                        #[trigger] params0[i],
                        out_params@[i],
                    ),
                params_entries(params0) == prepend_text(entries@, params_entries(rest@)),
            decreases rest@.len(),
        {
            let ghost rest0 = rest@;
            let ghost entries0 = entries@;
            let ghost k = out_params@.len() as int;
            let mut p = rest.remove(0);
            match resolve_param(&mut p) {
                Err(e) => {
                    proof {
                        assert(params_entries(rest0) == Err::<Seq<char>, TranslateError>(e));
                    }
                    return Err(e);
                },
                Ok(t) => {
                    entries.append(t.as_str());
                    out_params.push(p);
                    proof {
                        assert(rest@ =~= rest0.drop_first());
                        assert(rest@ =~= params0.skip(k + 1));
                        assert(param_after(params0[k], out_params@[k]));
                        if params_entries(rest@) is Ok {
                            let r = params_entries(rest@)->Ok_0;
                            assert(params_entries(rest0) == Ok::<Seq<char>, TranslateError>(
                                t@ + r,
                            ));
                            assert(entries0 + (t@ + r) =~= (entries0 + t@) + r);
                        }
                    }
                },
            }
        }
        proof {
            assert(params_entries(rest@) == Ok::<Seq<char>, TranslateError>(Seq::empty()));
            assert(entries@ + Seq::<char>::empty() =~= entries@);
        }
        if entries.as_str().is_empty() {
            args.append("_args = undefined;\n");
            proof {
                assert(args@ =~= "export type "@ + name@ + "_args = undefined;\n"@);
            }
        } else {
            args.append("_args = {\n");
            args.append(entries.as_str());
            args.append("};\n");
            proof {
                assert(args@ =~= "export type "@ + name@ + "_args = {\n"@ + entries@ + "};\n"@);
            }
        }
    }
    let ret_text: String = match get_string_attribute_value(&attrs, "return_path") {
        Err(e) => {
            return Err(e);
        },
        Ok(Some((t, idx))) => {
            proof {
                crate::attr::lemma_find_attr_in_bounds(attrs@, "return_path"@, 0);
            }
            attrs.remove(idx);
            t
        },
        Ok(None) => match &ret {
            None => " void".to_owned(),
            Some(t) => match type_to_string(t) {
                Err(e) => {
                    return Err(e);
                },
                Ok(s) => {
                    let mut w = " ".to_owned();
                    w.append(s.as_str());
                    proof {
                        assert(w@ =~= " "@ + s@);
                    }
                    w
                },
            },
        },
    };
    let ghost args0 = args@;
    let mut out = args;
    out.append("export type ");
    out.append(name.as_str());
    out.append("_return = ");
    out.append(ret_text.as_str());
    out.append(";\n\n");
    proof {
        assert(out@ =~= args0 + "export type "@ + name@ + "_return = "@ + ret_text@ + ";\n\n"@);
    }
    Ok((out, CommandSignature { name, params: out_params, ret, attrs }))
}

/// Entries are unchanged by inserting a contextual parameter: it is
/// skipped even when it is the only parameter.
proof fn lemma_contextual_entries(params: Seq<Param>, p: Param, i: int)
    requires
        0 <= i <= params.len(),
        contextual_param(p),
    ensures
        params_entries(params.insert(i, p)) == params_entries(params),
    decreases i,
{
    let ins = params.insert(i, p);
    if i == 0 {
        assert(ins[0] == p);
        assert(ins.drop_first() =~= params);
        assert(param_entry(p) == Ok::<Seq<char>, TranslateError>(Seq::empty()));
        if params_entries(params) is Ok {
            assert(Seq::<char>::empty() + params_entries(params)->Ok_0 =~= params_entries(
                params,
            )->Ok_0);
        }
    } else {
        lemma_contextual_entries(params.drop_first(), p, i - 1);
        assert(ins[0] == params[0]);
        assert(ins.drop_first() =~= params.drop_first().insert(i - 1, p));
    }
}

/// Command skip rule: a contextual (framework-injected) parameter is
/// absent from the `_args` declaration, wherever it stands in the
/// parameter list and even when it is the only parameter — inserting it
/// anywhere leaves the generated `_args` text unchanged.
pub proof fn lemma_contextual_param_skipped(name: Seq<char>, params: Seq<Param>, p: Param, i: int)
    requires
        0 <= i <= params.len(),
        contextual_param(p),
    ensures
        args_decl_text(name, params.insert(i, p)) == args_decl_text(name, params),
{
    lemma_contextual_entries(params, p, i);
    if params.len() == 0 {
        assert(params_entries(params.insert(i, p)) == Ok::<Seq<char>, TranslateError>(
            Seq::empty(),
        ));
    }
}

} // verus!
