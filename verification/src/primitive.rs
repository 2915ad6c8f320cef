//! The primitive mapper: host-language primitive type names mapped to
//! interchange-language primitive names (`number`, `boolean`, `string`).
//! Unrecognized names pass through unchanged, which is how user-defined type
//! names propagate untranslated.

use vstd::prelude::*;
use crate::strutil::str_eq;

verus! {

/// Whether `name` is one of the host language's integer or floating-point
/// type names, all of which map to `number`.
pub open spec fn numeric_primitive(name: Seq<char>) -> bool {
    ||| name == "u8"@
    ||| name == "u16"@
    ||| name == "u32"@
    ||| name == "u64"@
    ||| name == "u128"@
    ||| name == "usize"@
    ||| name == "i8"@
    ||| name == "i16"@
    ||| name == "i32"@
    ||| name == "i64"@
    ||| name == "i128"@
    ||| name == "isize"@
    ||| name == "f32"@
    ||| name == "f64"@
}

/// Whether `name` is one of the host language's character or string type
/// names, all of which map to `string`.
pub open spec fn textual_primitive(name: Seq<char>) -> bool {
    ||| name == "char"@
    ||| name == "str"@
    ||| name == "String"@
}

/// The interchange-language name for a host-language primitive name:
/// numeric names map to `number`, the boolean name to `boolean`, character
/// and string names to `string`, and every other name to itself.
pub open spec fn js_primitive(name: Seq<char>) -> Seq<char> {
    if numeric_primitive(name) {
        "number"@
    } else if name == "bool"@ {
        "boolean"@
    } else if textual_primitive(name) {
        "string"@
    } else {
        name
    }
}

/// Maps a bare host-language type name to its interchange-language name.
/// Total: every input is mapped, unrecognized names pass through unchanged.
pub fn rust_type_to_js(ty: &str) -> (r: String)
    ensures
        r@ == js_primitive(ty@),
{
    if str_eq(ty, "u8") || str_eq(ty, "u16") || str_eq(ty, "u32") || str_eq(ty, "u64")
        || str_eq(ty, "u128") || str_eq(ty, "usize") || str_eq(ty, "i8") || str_eq(ty, "i16")
        || str_eq(ty, "i32") || str_eq(ty, "i64") || str_eq(ty, "i128") || str_eq(ty, "isize")
        || str_eq(ty, "f32") || str_eq(ty, "f64") {
        "number".to_owned()
    } else if str_eq(ty, "bool") {
        "boolean".to_owned()
    } else if str_eq(ty, "char") || str_eq(ty, "str") || str_eq(ty, "String") {
        "string".to_owned()
    } else {
        ty.to_owned()
    }
}

/// The primitive mapper is idempotent on every input: mapping its own output
/// again changes nothing, because no output name is itself a recognized
/// input, except the string-like names, which collapse to the one canonical
/// string name already on the first pass.
pub proof fn lemma_js_primitive_idempotent(name: Seq<char>)
    ensures
        js_primitive(js_primitive(name)) == js_primitive(name),
{
    reveal_strlit("u8");
    reveal_strlit("u16");
    reveal_strlit("u32");
    reveal_strlit("u64");
    reveal_strlit("u128");
    reveal_strlit("usize");
    reveal_strlit("i8");
    reveal_strlit("i16");
    reveal_strlit("i32");
    reveal_strlit("i64");
    reveal_strlit("i128");
    reveal_strlit("isize");
    reveal_strlit("f32");
    reveal_strlit("f64");
    reveal_strlit("bool");
    reveal_strlit("char");
    reveal_strlit("str");
    reveal_strlit("String");
    reveal_strlit("number");
    reveal_strlit("boolean");
    reveal_strlit("string");
}

} // verus!
