//! The attribute override resolver: scans a declaration's attribute list for
//! a recognized key carrying a string-literal value, and reports the literal
//! together with its position, so the caller can remove the consumed
//! attribute exactly once.

use vstd::prelude::*;
use crate::error::TranslateError;
use crate::strutil::{join_dot, join_segments, str_eq};

verus! {

/// The value form of an attribute.  Only the `key = "literal"` name/value
/// form is interpreted; every other form of a recognized key is an error,
/// and every form of an unrecognized key is ignored.
#[derive(Debug, PartialEq, Eq)]
pub enum AttrValue {
    /// A `key = "literal"` pair carrying the literal's text.
    StrValue { text: String },
    /// Any other attribute form.
    OtherForm,
}

/// One attribute on a declaration, a field or a parameter: a dotted key
/// path and a value form.
#[derive(Debug, PartialEq, Eq)]
pub struct Attribute {
    /// The attribute's own dotted path, as segments.
    pub path: Vec<String>,
    /// The attribute's value form.
    pub value: AttrValue,
}

/// The dotted key an attribute is addressed by.
pub open spec fn attr_key(a: Attribute) -> Seq<char> {
    join_dot(a.path.deep_view())
}

/// The outcome of scanning `attrs` for `key` from position `i` on: the
/// first match with a string-literal value gives the literal and its
/// position, a first match of any other form is an error, and no match is
/// an absent (not erroneous) result.
pub open spec fn find_attr_from(attrs: Seq<Attribute>, key: Seq<char>, i: int) -> Result<
    Option<(Seq<char>, int)>,
    TranslateError,
>
    decreases attrs.len() - i,
{
    if i < 0 || i >= attrs.len() {
        Ok(None)
    } else if attr_key(attrs[i]) == key {
        match attrs[i].value {
            AttrValue::StrValue { text } => Ok(Some((text@, i))),
            AttrValue::OtherForm => Err(TranslateError::InvalidAttributeForm),
        }
    } else {
        find_attr_from(attrs, key, i + 1)
    }
}

/// The outcome of scanning the whole attribute list for `key`.
pub open spec fn find_attr(attrs: Seq<Attribute>, key: Seq<char>) -> Result<
    Option<(Seq<char>, int)>,
    TranslateError,
> {
    find_attr_from(attrs, key, 0)
}

/// The attribute list after the consuming pass for `key`: the first
/// matching attribute is removed, exactly once; a list without a match, or
/// one whose scan fails, stands unchanged.
pub open spec fn attrs_without(attrs: Seq<Attribute>, key: Seq<char>) -> Seq<Attribute> {
    match find_attr(attrs, key) {
        Ok(Some((text, i))) => attrs.remove(i),
        _ => attrs,
    }
}

/// Whether an exec resolver outcome agrees with the spec-level outcome.
pub open spec fn find_outcome(
    r: Result<Option<(String, usize)>, TranslateError>,
    m: Result<Option<(Seq<char>, int)>, TranslateError>,
) -> bool {
    match r {
        Ok(Some((text, i))) => m == Ok::<_, TranslateError>(Some((text@, i as int))),
        Ok(None) => m == Ok::<Option<(Seq<char>, int)>, TranslateError>(None),
        Err(e) => m == Err::<Option<(Seq<char>, int)>, TranslateError>(e),
    }
}

/// Scans the attributes in order for the first whose dotted path equals
/// `path`.  A match in `key = "literal"` form returns the literal text and
/// the match's position; a match in any other form fails with
/// `InvalidAttributeForm`; no match returns `None`.
pub fn get_string_attribute_value(attrs: &Vec<Attribute>, path: &str) -> (r: Result<
    Option<(String, usize)>,
    TranslateError,
>)
    ensures
        find_outcome(r, find_attr(attrs@, path@)),
{
    let mut i: usize = 0;
    while i < attrs.len()
        invariant
            0 <= i <= attrs.len(),
            find_attr(attrs@, path@) == find_attr_from(attrs@, path@, i as int),
        decreases attrs.len() - i,
    {
        let key = join_segments(&attrs[i].path);
        if str_eq(key.as_str(), path) {
            match &attrs[i].value {
                AttrValue::StrValue { text } => {
                    return Ok(Some((text.clone(), i)));
                },
                AttrValue::OtherForm => {
                    return Err(TranslateError::InvalidAttributeForm);
                },
            }
        }
        proof {
            assert(find_attr_from(attrs@, path@, i as int) == find_attr_from(
                attrs@,
                path@,
                i as int + 1,
            ));
        }
        i = i + 1;
    }
    Ok(None)
}

/// A found attribute's position lies inside the attribute list.
pub proof fn lemma_find_attr_in_bounds(attrs: Seq<Attribute>, key: Seq<char>, i: int)
    ensures
        find_attr_from(attrs, key, i) matches Ok(Some((t, j))) ==> 0 <= i <= j < attrs.len(),
    decreases attrs.len() - i,
{
    if 0 <= i < attrs.len() {
        lemma_find_attr_in_bounds(attrs, key, i + 1);
    }
}

/// The namespace-qualifier override of a declaration: the value of its
/// `namespace` attribute, if one is present.
pub open spec fn namespace_of(attrs: Seq<Attribute>) -> Result<Option<Seq<char>>, TranslateError> {
    match find_attr(attrs, "namespace"@) {
        Ok(Some((text, i))) => Ok(Some(text)),
        Ok(None) => Ok(None),
        Err(e) => Err(e),
    }
}

/// Looks up a declaration's namespace override: the string value of its
/// `namespace` attribute, absent when no such attribute is present.
pub fn get_namespace(attrs: &Vec<Attribute>) -> (r: Result<Option<String>, TranslateError>)
    ensures
        (r matches Ok(Some(ns)) ==> namespace_of(attrs@) == Ok::<_, TranslateError>(
            Some(ns@),
        )),
        (r matches Ok(None) ==> namespace_of(attrs@) == Ok::<Option<Seq<char>>, TranslateError>(
            None,
        )),
        (r matches Err(e) ==> namespace_of(attrs@) == Err::<Option<Seq<char>>, TranslateError>(e)),
{
    match get_string_attribute_value(attrs, "namespace") {
        Ok(Some((text, _))) => Ok(Some(text)),
        Ok(None) => Ok(None),
        Err(e) => Err(e),
    }
}

} // verus!
