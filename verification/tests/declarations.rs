//! Tests for the primitive mapper, the type expression translator, the
//! attribute resolver, and the declaration translator.

use tauri_types::attr::{get_namespace, get_string_attribute_value, AttrValue, Attribute};
use tauri_types::decl::{translate_declaration, Declaration, EnumVariant, Fields, NamedField};
use tauri_types::error::TranslateError;
use tauri_types::primitive::rust_type_to_js;
use tauri_types::type_expr::{type_to_string, TypeExpr};

fn prim(name: &str) -> TypeExpr {
    TypeExpr::Primitive { name: name.to_string() }
}

fn path(segments: &[&str], generic: Option<TypeExpr>) -> TypeExpr {
    TypeExpr::Path {
        segments: segments.iter().map(|s| s.to_string()).collect(),
        generic: generic.map(Box::new),
    }
}

fn str_attr(path: &[&str], text: &str) -> Attribute {
    Attribute {
        path: path.iter().map(|s| s.to_string()).collect(),
        value: AttrValue::StrValue { text: text.to_string() },
    }
}

fn bad_attr(path: &[&str]) -> Attribute {
    Attribute {
        path: path.iter().map(|s| s.to_string()).collect(),
        value: AttrValue::OtherForm,
    }
}

fn named_field(name: &str, ty: TypeExpr) -> NamedField {
    NamedField { name: name.to_string(), attrs: Vec::new(), ty }
}

#[test]
fn primitive_mapper_numeric_names() {
    for name in [
        "u8", "u16", "u32", "u64", "u128", "usize", "i8", "i16", "i32", "i64", "i128", "isize",
        "f32", "f64",
    ] {
        assert_eq!(rust_type_to_js(name), "number");
    }
}

#[test]
fn primitive_mapper_bool_and_textual_names() {
    assert_eq!(rust_type_to_js("bool"), "boolean");
    assert_eq!(rust_type_to_js("char"), "string");
    assert_eq!(rust_type_to_js("str"), "string");
    assert_eq!(rust_type_to_js("String"), "string");
}

#[test]
fn primitive_mapper_passes_unrecognized_names_through() {
    assert_eq!(rust_type_to_js("MyType"), "MyType");
    assert_eq!(rust_type_to_js(""), "");
    assert_eq!(rust_type_to_js("U8"), "U8");
}

#[test]
fn primitive_mapper_idempotent_on_outputs() {
    for name in ["u8", "i64", "f32", "bool", "char", "String", "MyType"] {
        let once = rust_type_to_js(name);
        let twice = rust_type_to_js(&once);
        assert_eq!(once, twice);
    }
}

#[test]
fn type_primitive_translation() {
    assert_eq!(type_to_string(&prim("i32")), Ok("number".to_string()));
    assert_eq!(type_to_string(&TypeExpr::Never), Ok("never".to_string()));
}

#[test]
fn type_array_and_slice_append_brackets() {
    let arr = TypeExpr::FixedArray { elem: Box::new(prim("u8")), len: 4 };
    assert_eq!(type_to_string(&arr), Ok("number[]".to_string()));
    let slice = TypeExpr::Slice { elem: Box::new(prim("String")) };
    assert_eq!(type_to_string(&slice), Ok("string[]".to_string()));
    let nested = TypeExpr::Slice { elem: Box::new(slice) };
    assert_eq!(type_to_string(&nested), Ok("string[][]".to_string()));
}

#[test]
fn type_vec_paths_become_arrays() {
    let full = path(&["std", "vec", "Vec"], Some(prim("i32")));
    assert_eq!(type_to_string(&full), Ok("number[]".to_string()));
    let short = path(&["Vec"], Some(prim("String")));
    assert_eq!(type_to_string(&short), Ok("string[]".to_string()));
}

#[test]
fn type_other_paths_join_with_dots() {
    let state = path(&["tauri", "State"], None);
    assert_eq!(type_to_string(&state), Ok("tauri.State".to_string()));
    let vec_no_generic = path(&["Vec"], None);
    assert_eq!(type_to_string(&vec_no_generic), Ok("Vec".to_string()));
    let other_generic = path(&["api", "Wrapper"], Some(prim("i32")));
    assert_eq!(type_to_string(&other_generic), Ok("api.Wrapper".to_string()));
}

#[test]
fn type_unsupported_shape_fails() {
    assert_eq!(
        type_to_string(&TypeExpr::Unsupported),
        Err(TranslateError::UnsupportedType)
    );
}

#[test]
fn attribute_resolver_finds_first_match_with_position() {
    let attrs = vec![
        str_attr(&["serde"], "x"),
        str_attr(&["namespace"], "api"),
        str_attr(&["namespace"], "later"),
    ];
    assert_eq!(
        get_string_attribute_value(&attrs, "namespace"),
        Ok(Some(("api".to_string(), 1)))
    );
    assert_eq!(get_namespace(&attrs), Ok(Some("api".to_string())));
}

#[test]
fn attribute_resolver_absent_key_is_not_an_error() {
    let attrs = vec![str_attr(&["serde"], "x")];
    assert_eq!(get_string_attribute_value(&attrs, "namespace"), Ok(None));
    assert_eq!(get_namespace(&attrs), Ok(None));
}

#[test]
fn attribute_resolver_rejects_other_forms() {
    let attrs = vec![bad_attr(&["namespace"])];
    assert_eq!(
        get_string_attribute_value(&attrs, "namespace"),
        Err(TranslateError::InvalidAttributeForm)
    );
}

#[test]
fn struct_named_fields_scenario() {
    let decl = Declaration::Struct {
        name: "Point".to_string(),
        attrs: Vec::new(),
        fields: Fields::Named {
            fields: vec![named_field("x", prim("i32")), named_field("y", prim("i32"))],
        },
    };
    let (text, _) = translate_declaration(decl).unwrap();
    assert_eq!(text, "export type Point = {\n  x: number;\n  y: number;\n};\n\n");
}

#[test]
fn struct_single_positional_field_is_transparent() {
    let decl = Declaration::Struct {
        name: "Wrapper".to_string(),
        attrs: Vec::new(),
        fields: Fields::Positional { fields: vec![prim("String")] },
    };
    let (text, _) = translate_declaration(decl).unwrap();
    assert_eq!(text, "export type Wrapper = string;\n\n");
}

#[test]
fn struct_many_positional_fields_become_a_tuple() {
    let decl = Declaration::Struct {
        name: "Pair".to_string(),
        attrs: Vec::new(),
        fields: Fields::Positional { fields: vec![prim("i32"), prim("bool")] },
    };
    let (text, _) = translate_declaration(decl).unwrap();
    assert_eq!(text, "export type Pair = [ number, boolean ];\n\n");
}

#[test]
fn struct_unit_is_null() {
    let decl = Declaration::Struct {
        name: "Marker".to_string(),
        attrs: Vec::new(),
        fields: Fields::Unit,
    };
    let (text, _) = translate_declaration(decl).unwrap();
    assert_eq!(text, "export type Marker = null;\n\n");
}

#[test]
fn struct_namespace_wraps_and_consumes_the_attribute() {
    let decl = Declaration::Struct {
        name: "Point".to_string(),
        attrs: vec![str_attr(&["namespace"], "api")],
        fields: Fields::Named { fields: vec![named_field("x", prim("i32"))] },
    };
    let (text, out) = translate_declaration(decl).unwrap();
    assert_eq!(
        text,
        "export namespace api {\nexport type Point = {\n  x: number;\n};\n}\n\n"
    );
    match out {
        Declaration::Struct { attrs, .. } => assert_eq!(attrs.len(), 0),
        _ => panic!("declaration kind changed"),
    }
}

#[test]
fn struct_field_override_wins_and_is_consumed() {
    let field = NamedField {
        name: "when".to_string(),
        attrs: vec![str_attr(&["path"], "api.Timestamp")],
        ty: prim("u64"),
    };
    let decl = Declaration::Struct {
        name: "Event".to_string(),
        attrs: Vec::new(),
        fields: Fields::Named { fields: vec![field] },
    };
    let (text, out) = translate_declaration(decl).unwrap();
    assert_eq!(text, "export type Event = {\n  when: api.Timestamp;\n};\n\n");
    match out {
        Declaration::Struct { fields: Fields::Named { fields }, .. } => {
            assert_eq!(fields[0].attrs.len(), 0);
        }
        _ => panic!("declaration kind changed"),
    }
}

#[test]
fn struct_unsupported_field_type_fails() {
    let decl = Declaration::Struct {
        name: "Bad".to_string(),
        attrs: Vec::new(),
        fields: Fields::Named { fields: vec![named_field("x", TypeExpr::Unsupported)] },
    };
    assert_eq!(translate_declaration(decl), Err(TranslateError::UnsupportedType));
}

#[test]
fn struct_invalid_namespace_attribute_fails_before_the_body() {
    let decl = Declaration::Struct {
        name: "Bad".to_string(),
        attrs: vec![bad_attr(&["namespace"])],
        fields: Fields::Named { fields: vec![named_field("x", TypeExpr::Unsupported)] },
    };
    assert_eq!(translate_declaration(decl), Err(TranslateError::InvalidAttributeForm));
}

#[test]
fn enum_unit_and_named_variants_scenario() {
    let decl = Declaration::Enum {
        name: "E".to_string(),
        attrs: Vec::new(),
        variants: vec![
            EnumVariant { name: "A".to_string(), fields: Fields::Unit },
            EnumVariant {
                name: "B".to_string(),
                fields: Fields::Named { fields: vec![named_field("x", prim("i32"))] },
            },
        ],
    };
    let (text, _) = translate_declaration(decl).unwrap();
    assert_eq!(
        text,
        "export type E = 'A' | { B: { x: number;  }; A: undefined; };\n\n"
    );
    assert!(text.contains("A: undefined; "));
    assert!(text.contains("'A'"));
}

#[test]
fn enum_positional_variant_padding() {
    let decl = Declaration::Enum {
        name: "F".to_string(),
        attrs: Vec::new(),
        variants: vec![
            EnumVariant {
                name: "C".to_string(),
                fields: Fields::Positional { fields: vec![prim("i32")] },
            },
            EnumVariant { name: "D".to_string(), fields: Fields::Unit },
        ],
    };
    let (text, _) = translate_declaration(decl).unwrap();
    assert_eq!(
        text,
        "export type F = { C: number; D: undefined;  } | 'D';\n\n"
    );
}

#[test]
fn enum_tuple_variant_becomes_a_tuple_literal() {
    let decl = Declaration::Enum {
        name: "G".to_string(),
        attrs: Vec::new(),
        variants: vec![
            EnumVariant {
                name: "C".to_string(),
                fields: Fields::Positional { fields: vec![prim("i32"), prim("str")] },
            },
            EnumVariant { name: "D".to_string(), fields: Fields::Unit },
        ],
    };
    let (text, _) = translate_declaration(decl).unwrap();
    assert_eq!(
        text,
        "export type G = { C: [ number, string ]; D: undefined;  } | 'D';\n\n"
    );
}

#[test]
fn enum_with_no_variants_has_an_empty_union() {
    let decl = Declaration::Enum {
        name: "Void".to_string(),
        attrs: Vec::new(),
        variants: Vec::new(),
    };
    let (text, _) = translate_declaration(decl).unwrap();
    assert_eq!(text, "export type Void = ;\n\n");
}

#[test]
fn struct_zero_positional_fields_become_an_empty_tuple() {
    let decl = Declaration::Struct {
        name: "Empty".to_string(),
        attrs: Vec::new(),
        fields: Fields::Positional { fields: Vec::new() },
    };
    let (text, _) = translate_declaration(decl).unwrap();
    assert_eq!(text, "export type Empty = [  ];\n\n");
}

#[test]
fn only_the_first_matching_attribute_is_consumed() {
    let decl = Declaration::Struct {
        name: "Twice".to_string(),
        attrs: vec![str_attr(&["namespace"], "a"), str_attr(&["namespace"], "b")],
        fields: Fields::Unit,
    };
    let (text, out) = translate_declaration(decl).unwrap();
    assert_eq!(text, "export namespace a {\nexport type Twice = null;\n}\n\n");
    match out {
        Declaration::Struct { attrs, .. } => {
            assert_eq!(attrs, vec![str_attr(&["namespace"], "b")]);
        }
        _ => panic!("declaration kind changed"),
    }
}

#[test]
fn type_alias_translates_its_underlying_type() {
    let decl = Declaration::TypeAlias {
        name: "Bytes".to_string(),
        attrs: Vec::new(),
        underlying: TypeExpr::Slice { elem: Box::new(prim("u8")) },
    };
    let (text, _) = translate_declaration(decl).unwrap();
    assert_eq!(text, "export type Bytes = number[];\n\n");
}

#[test]
fn type_alias_with_namespace() {
    let decl = Declaration::TypeAlias {
        name: "Id".to_string(),
        attrs: vec![str_attr(&["namespace"], "core")],
        underlying: prim("u64"),
    };
    let (text, _) = translate_declaration(decl).unwrap();
    assert_eq!(text, "export namespace core {\nexport type Id = number;\n}\n\n");
}
