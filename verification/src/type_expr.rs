//! The type expression translator: recursively converts a host-language
//! type expression into interchange-language type text.

use vstd::prelude::*;
use crate::error::TranslateError;
use crate::primitive::{js_primitive, rust_type_to_js};
use crate::strutil::{join_dot, join_segments, str_eq};

verus! {

/// A host-language type expression, as handed over by the parser front end.
/// Shapes the parser met but the translator does not support are carried as
/// `Unsupported` and fail translation with `UnsupportedType`.
#[derive(Debug, PartialEq, Eq)]
pub enum TypeExpr {
    /// A bare type name: a primitive or a user-defined type.
    Primitive { name: String },
    /// A (possibly dotted) path, with at most one generic type argument.
    Path { segments: Vec<String>, generic: Option<Box<TypeExpr>> },
    /// A fixed-size array; the length plays no part in the translation.
    FixedArray { elem: Box<TypeExpr>, len: u64 },
    /// A dynamically sized slice.
    Slice { elem: Box<TypeExpr> },
    /// The host language's bottom ("never") type.
    Never,
    /// Any type expression shape outside the supported closed set.
    Unsupported,
}

/// Whether a segment list names the growable-sequence container, either by
/// its canonical three-segment path or by its one-segment short name.
pub open spec fn vec_path_form(segments: Seq<Seq<char>>) -> bool {
    segments == seq!["std"@, "vec"@, "Vec"@] || segments == seq!["Vec"@]
}

/// The interchange-language text of a type expression, or the error on
/// which its translation fails.
pub open spec fn type_text(t: TypeExpr) -> Result<Seq<char>, TranslateError>
    decreases t,
{
    match t {
        TypeExpr::Primitive { name } => Ok(js_primitive(name@)),
        TypeExpr::Path { segments, generic } => match generic {
            Some(g) => if vec_path_form(segments.deep_view()) {
                match type_text(*g) {
                    Ok(s) => Ok(s + "[]"@),
                    Err(e) => Err(e),
                }
            } else {
                Ok(join_dot(segments.deep_view()))
            },
            None => Ok(join_dot(segments.deep_view())),
        },
        TypeExpr::FixedArray { elem, .. } => match type_text(*elem) {
            Ok(s) => Ok(s + "[]"@),
            Err(e) => Err(e),
        },
        TypeExpr::Slice { elem } => match type_text(*elem) {
            Ok(s) => Ok(s + "[]"@),
            Err(e) => Err(e),
        },
        TypeExpr::Never => Ok("never"@),
        TypeExpr::Unsupported => Err(TranslateError::UnsupportedType),
    }
}

/// Whether an exec translation outcome agrees with the spec-level outcome.
pub open spec fn text_outcome(r: Result<String, TranslateError>, m: Result<Seq<char>, TranslateError>) -> bool {
    match r {
        Ok(s) => m is Ok && s@ == m->Ok_0,
        Err(e) => m is Err && e == m->Err_0,
    }
}

/// Whether a segment list is the growable-sequence container path.
fn is_vec_path(segments: &Vec<String>) -> (r: bool)
    ensures
        r == vec_path_form(segments.deep_view()),
{
    let ghost dv: Seq<Seq<char>> = segments.deep_view();
    if segments.len() == 3 {
        let r = str_eq(segments[0].as_str(), "std") && str_eq(segments[1].as_str(), "vec")
            && str_eq(segments[2].as_str(), "Vec");
        proof {
            if r {
                assert(dv =~~= seq!["std"@, "vec"@, "Vec"@]);
            } else {
                assert(dv != seq!["std"@, "vec"@, "Vec"@]) by {
                    if dv == seq!["std"@, "vec"@, "Vec"@] {
                        assert(dv[0] == "std"@ && dv[1] == "vec"@ && dv[2] == "Vec"@);
                    }
                }
                assert(dv.len() != 1);
            }
        }
        r
    } else if segments.len() == 1 {
        let r = str_eq(segments[0].as_str(), "Vec");
        proof {
            if r {
                assert(dv =~~= seq!["Vec"@]);
            } else {
                assert(dv != seq!["Vec"@]) by {
                    if dv == seq!["Vec"@] {
                        assert(dv[0] == "Vec"@);
                    }
                }
                assert(dv.len() != 3);
            }
        }
        r
    } else {
        proof {
            assert(dv.len() != 3 && dv.len() != 1);
        }
        false
    }
}

/// Translates a type expression to interchange-language text.
///
/// Primitive names go through the primitive mapper; fixed-size arrays and
/// slices append `[]` to their element's text; the growable-sequence
/// container with one generic argument likewise; any other path becomes its
/// segments joined with `.`; the bottom type becomes `never`.  Unsupported
/// shapes fail with `UnsupportedType`.
pub fn type_to_string(ty: &TypeExpr) -> (r: Result<String, TranslateError>)
    ensures
        text_outcome(r, type_text(*ty)),
    decreases *ty,
{
    match ty {
        TypeExpr::Primitive { name } => Ok(rust_type_to_js(name.as_str())),
        TypeExpr::Path { segments, generic } => match generic {
            Some(g) => {
                if is_vec_path(segments) {
                    match type_to_string(&**g) {
                        Ok(s) => Ok(s.concat("[]")),
                        Err(e) => Err(e),
                    }
                } else {
                    Ok(join_segments(segments))
                }
            },
            None => Ok(join_segments(segments)),
        },
        TypeExpr::FixedArray { elem, .. } => match type_to_string(&**elem) {
            Ok(s) => Ok(s.concat("[]")),
            Err(e) => Err(e),
        },
        TypeExpr::Slice { elem } => match type_to_string(&**elem) {
            Ok(s) => Ok(s.concat("[]")),
            Err(e) => Err(e),
        },
        TypeExpr::Never => Ok("never".to_owned()),
        TypeExpr::Unsupported => Err(TranslateError::UnsupportedType),
    }
}

/// Whether a type expression is built only from supported variants and
/// carries no degenerate (empty) names: such expressions always translate
/// successfully.
pub open spec fn supported_type(t: TypeExpr) -> bool
    decreases t,
{
    match t {
        TypeExpr::Primitive { name } => name@.len() > 0,
        TypeExpr::Path { segments, generic } => {
            &&& segments.len() > 0
            &&& forall|i: int| 0 <= i < segments@.len() ==> segments@[i]@.len() > 0
            &&& match generic {
                Some(g) => supported_type(*g),
                None => true,
            }
        },
        TypeExpr::FixedArray { elem, .. } => supported_type(*elem),
        TypeExpr::Slice { elem } => supported_type(*elem),
        TypeExpr::Never => true,
        TypeExpr::Unsupported => false,
    }
}

/// Joining non-empty segments gives non-empty text.
proof fn lemma_join_dot_nonempty(segments: Seq<Seq<char>>)
    requires
        segments.len() > 0,
        forall|i: int| 0 <= i < segments.len() ==> segments[i].len() > 0,
    ensures
        join_dot(segments).len() > 0,
    decreases segments.len(),
{
    if segments.len() > 1 {
        lemma_join_dot_nonempty(segments.drop_last());
    }
}

/// On every type expression built only from supported variants, with no
/// degenerate empty names, translation succeeds — the spec function
/// `type_text` being total and decreasing, it also terminates — and the
/// resulting text is non-empty.
pub proof fn lemma_translate_total_nonempty(t: TypeExpr)
    requires
        supported_type(t),
    ensures
        type_text(t) is Ok,
        type_text(t)->Ok_0.len() > 0,
    decreases t,
{
    reveal_strlit("never");
    reveal_strlit("number");
    reveal_strlit("boolean");
    reveal_strlit("string");
    reveal_strlit("[]");
    match t {
        TypeExpr::Primitive { name } => {
        },
        TypeExpr::Path { segments, generic } => {
            match generic {
                Some(g) => {
                    lemma_translate_total_nonempty(*g);
                    if !vec_path_form(segments.deep_view()) {
                        lemma_join_dot_nonempty(segments.deep_view());
                    }
                },
                None => {
                    lemma_join_dot_nonempty(segments.deep_view());
                },
            }
        },
        TypeExpr::FixedArray { elem, .. } => {
            lemma_translate_total_nonempty(*elem);
        },
        TypeExpr::Slice { elem } => {
            lemma_translate_total_nonempty(*elem);
        },
        TypeExpr::Never => {
        },
        TypeExpr::Unsupported => {
        },
    }
}

/// Array and slice translation appends `[]` to the element's text: whenever
/// the element translates, the array of it translates to exactly the
/// element's text followed by `[]`, and an element that fails carries its
/// error through.
pub proof fn lemma_array_translation(t: TypeExpr)
    ensures
        t matches TypeExpr::FixedArray { elem, .. } ==> type_text(t) == (match type_text(*elem) {
            Ok(s) => Ok::<Seq<char>, TranslateError>(s + "[]"@),
            Err(e) => Err(e),
        }),
        t matches TypeExpr::Slice { elem } ==> type_text(t) == (match type_text(*elem) {
            Ok(s) => Ok::<Seq<char>, TranslateError>(s + "[]"@),
            Err(e) => Err(e),
        }),
{
}

} // verus!
