//! Small string helpers: trusted bridges to `std` string operations that
//! `vstd` does not specify, the dot-joining of path segments, and the
//! lowercase-first-letter rule used for argument key names.

use vstd::prelude::*;

verus! {

/// Relies on str's `PartialEq`: two string slices compare equal exactly when
/// their character sequences are equal.
#[verifier::external_body]
pub(crate) fn str_eq(a: &str, b: &str) -> (r: bool)
    ensures
        r == (a@ == b@),
{
    a == b
}

/// The first character that `char::to_lowercase` yields for `c`; it depends
/// on the character alone.
pub uninterp spec fn lower_char_of(c: char) -> char;

/// Relies on char::to_lowercase: yields at least one character, the first of
/// which is a function of the input character alone.
#[verifier::external_body]
pub(crate) fn lower_first_char(c: char) -> (r: char)
    ensures
        r == lower_char_of(c),
{
    c.to_lowercase().next().unwrap()
}

/// Relies on char::to_string: a one-character string holding exactly the
/// character.
#[verifier::external_body]
pub(crate) fn char_to_string(c: char) -> (r: String)
    ensures
        r@ == seq![c],
{
    c.to_string()
}

/// The segments of a dotted path joined with `.`: `["a", "b"]` becomes
/// `"a.b"`; a single segment stands alone; no segments give the empty string.
pub open spec fn join_dot(segments: Seq<Seq<char>>) -> Seq<char>
    decreases segments.len(),
{
    if segments.len() == 0 {
        Seq::empty()
    } else if segments.len() == 1 {
        segments[0]
    } else {
        join_dot(segments.drop_last()) + "."@ + segments.last()
    }
}

/// Joins path segments with `.`.
pub fn join_segments(segments: &Vec<String>) -> (r: String)
    ensures
        r@ == join_dot(segments.deep_view()),
{
    let ghost dv: Seq<Seq<char>> = segments.deep_view();
    let mut r = String::new();
    let mut i: usize = 0;
    while i < segments.len()
        invariant
            0 <= i <= segments.len(),
            dv == segments.deep_view(),
            dv.len() == segments.len(),
            r@ == join_dot(dv.take(i as int)),
        decreases segments.len() - i,
    {
        if i > 0 {
            r.append(".");
        }
        r.append(segments[i].as_str());
        proof {
            let prefix = dv.take(i + 1);
            assert(prefix.drop_last() =~= dv.take(i as int));
            assert(prefix.last() == dv[i as int]);
            assert(r@ =~= join_dot(prefix));
        }
        i = i + 1;
    }
    proof {
        assert(dv.take(dv.len() as int) =~= dv);
    }
    r
}

/// Whether `needle` occurs contiguously inside `hay`.
pub open spec fn contains_text(hay: Seq<char>, needle: Seq<char>) -> bool {
    exists|k: int|
        0 <= k && k + needle.len() <= hay.len() && #[trigger] hay.subrange(k, k + needle.len())
            == needle
}

/// Text contains itself.
pub proof fn lemma_contains_self(x: Seq<char>)
    ensures
        contains_text(x, x),
{
    assert(x.subrange(0, 0 + x.len() as int) =~= x);
}

/// Containment survives extension on the right.
pub proof fn lemma_contains_extend_right(a: Seq<char>, b: Seq<char>, x: Seq<char>)
    requires
        contains_text(a, x),
    ensures
        contains_text(a + b, x),
{
    let k = choose|k: int|
        0 <= k && k + x.len() <= a.len() && #[trigger] a.subrange(k, k + x.len()) == x;
    assert((a + b).subrange(k, k + x.len()) =~= a.subrange(k, k + x.len()));
}

/// Containment survives extension on the left.
pub proof fn lemma_contains_extend_left(a: Seq<char>, b: Seq<char>, x: Seq<char>)
    requires
        contains_text(b, x),
    ensures
        contains_text(a + b, x),
{
    let k = choose|k: int|
        0 <= k && k + x.len() <= b.len() && #[trigger] b.subrange(k, k + x.len()) == x;
    assert((a + b).subrange(a.len() + k, a.len() + k + x.len()) =~= b.subrange(k, k + x.len()));
}

/// The string with its first character lowercased (by the host language's
/// own lowercase mapping) and the rest unchanged.
pub open spec fn lowercase_first(s: Seq<char>) -> Seq<char> {
    if s.len() == 0 {
        s
    } else {
        seq![lower_char_of(s[0])] + s.skip(1)
    }
}

} // verus!
