//! Tests for the command signature translator and the registry builder.

use tauri_types::attr::{AttrValue, Attribute};
use tauri_types::command::{
    lowercase, translate_command, CommandSignature, Param, PatternClass,
};
use tauri_types::error::TranslateError;
use tauri_types::registry::generate_invoke;
use tauri_types::type_expr::TypeExpr;

fn prim(name: &str) -> TypeExpr {
    TypeExpr::Primitive { name: name.to_string() }
}

fn state_ty() -> TypeExpr {
    TypeExpr::Path {
        segments: vec!["tauri".to_string(), "State".to_string()],
        generic: None,
    }
}

fn str_attr(path: &[&str], text: &str) -> Attribute {
    Attribute {
        path: path.iter().map(|s| s.to_string()).collect(),
        value: AttrValue::StrValue { text: text.to_string() },
    }
}

fn ident_param(name: &str, ty: TypeExpr) -> Param {
    Param {
        pattern: PatternClass::Ident { name: name.to_string() },
        attrs: Vec::new(),
        ty,
    }
}

fn sig(name: &str, params: Vec<Param>, ret: Option<TypeExpr>) -> CommandSignature {
    CommandSignature { name: name.to_string(), params, ret, attrs: Vec::new() }
}

#[test]
fn lowercase_changes_only_the_first_letter() {
    assert_eq!(lowercase("MyStruct".to_string()), "myStruct");
    assert_eq!(lowercase("already".to_string()), "already");
    assert_eq!(lowercase("".to_string()), "");
    assert_eq!(lowercase("A".to_string()), "a");
    assert_eq!(lowercase("\u{dc}ber".to_string()), "\u{fc}ber");
}

#[test]
fn command_with_typed_params_and_return() {
    let s = sig(
        "add",
        vec![ident_param("a", prim("u32")), ident_param("b", prim("u32"))],
        Some(prim("u32")),
    );
    let (text, _) = translate_command(s).unwrap();
    assert_eq!(
        text,
        "export type add_args = {\n  a: number;\n  b: number;\n};\nexport type add_return =  number;\n\n"
    );
}

#[test]
fn command_with_no_params_and_no_return() {
    let s = sig("ping", Vec::new(), None);
    let (text, _) = translate_command(s).unwrap();
    assert_eq!(
        text,
        "export type ping_args = undefined;\nexport type ping_return =  void;\n\n"
    );
}

#[test]
fn command_skips_contextual_param_even_when_it_is_the_only_one() {
    let s = sig("lock", vec![ident_param("state", state_ty())], None);
    let (text, _) = translate_command(s).unwrap();
    assert_eq!(
        text,
        "export type lock_args = undefined;\nexport type lock_return =  void;\n\n"
    );
}

#[test]
fn command_skips_contextual_param_among_others() {
    let s = sig(
        "save",
        vec![ident_param("state", state_ty()), ident_param("name", prim("String"))],
        Some(prim("bool")),
    );
    let (text, _) = translate_command(s).unwrap();
    assert_eq!(
        text,
        "export type save_args = {\n  name: string;\n};\nexport type save_return =  boolean;\n\n"
    );
}

#[test]
fn command_destructured_param_key_is_lowercased_type_name() {
    let p = Param {
        pattern: PatternClass::Destructure { struct_name: "MyStruct".to_string() },
        attrs: Vec::new(),
        ty: prim("MyStruct"),
    };
    let s = sig("take", vec![p], None);
    let (text, _) = translate_command(s).unwrap();
    assert_eq!(
        text,
        "export type take_args = {\n  myStruct: MyStruct;\n};\nexport type take_return =  void;\n\n"
    );
}

#[test]
fn command_tuple_param_key_is_placeholder() {
    let p = Param {
        pattern: PatternClass::Tuple,
        attrs: Vec::new(),
        ty: prim("Pair"),
    };
    let s = sig("swap", vec![p], None);
    let (text, _) = translate_command(s).unwrap();
    assert_eq!(
        text,
        "export type swap_args = {\n  unknown: Pair;\n};\nexport type swap_return =  void;\n\n"
    );
}

#[test]
fn command_param_override_wins_and_is_consumed() {
    let p = Param {
        pattern: PatternClass::Ident { name: "when".to_string() },
        attrs: vec![str_attr(&["path"], "api.Timestamp")],
        ty: prim("u64"),
    };
    let s = sig("at", vec![p], None);
    let (text, out) = translate_command(s).unwrap();
    assert_eq!(
        text,
        "export type at_args = {\n  when: api.Timestamp;\n};\nexport type at_return =  void;\n\n"
    );
    assert_eq!(out.params[0].attrs.len(), 0);
}

#[test]
fn command_return_override_wins_and_is_consumed() {
    let mut s = sig("fetch", Vec::new(), Some(prim("u64")));
    s.attrs = vec![str_attr(&["return_path"], "api.Payload")];
    let (text, out) = translate_command(s).unwrap();
    assert_eq!(
        text,
        "export type fetch_args = undefined;\nexport type fetch_return = api.Payload;\n\n"
    );
    assert_eq!(out.attrs.len(), 0);
}

#[test]
fn command_override_can_mark_a_param_contextual() {
    let p = Param {
        pattern: PatternClass::Ident { name: "db".to_string() },
        attrs: vec![str_attr(&["path"], "tauri.State")],
        ty: prim("Database"),
    };
    let s = sig("query", vec![p], None);
    let (text, _) = translate_command(s).unwrap();
    assert_eq!(
        text,
        "export type query_args = undefined;\nexport type query_return =  void;\n\n"
    );
}

#[test]
fn command_unsupported_pattern_fails() {
    let p = Param {
        pattern: PatternClass::Unsupported,
        attrs: Vec::new(),
        ty: prim("i32"),
    };
    let s = sig("odd", vec![p], None);
    assert_eq!(
        translate_command(s),
        Err(TranslateError::UnsupportedDeclarationShape)
    );
}

#[test]
fn command_contextual_param_with_unsupported_pattern_is_still_skipped() {
    let p = Param {
        pattern: PatternClass::Unsupported,
        attrs: Vec::new(),
        ty: state_ty(),
    };
    let s = sig("odd", vec![p], None);
    let (text, _) = translate_command(s).unwrap();
    assert_eq!(
        text,
        "export type odd_args = undefined;\nexport type odd_return =  void;\n\n"
    );
}

#[test]
fn command_invalid_param_attribute_fails() {
    let p = Param {
        pattern: PatternClass::Ident { name: "x".to_string() },
        attrs: vec![Attribute {
            path: vec!["path".to_string()],
            value: AttrValue::OtherForm,
        }],
        ty: prim("i32"),
    };
    let s = sig("bad", vec![p], None);
    assert_eq!(translate_command(s), Err(TranslateError::InvalidAttributeForm));
}

#[test]
fn command_unsupported_return_type_fails() {
    let s = sig("bad", Vec::new(), Some(TypeExpr::Unsupported));
    assert_eq!(translate_command(s), Err(TranslateError::UnsupportedType));
}

#[test]
fn registry_empty_list_emits_nothing() {
    assert_eq!(generate_invoke(&Vec::new()), "");
}

#[test]
fn registry_two_names_full_text() {
    let names = vec!["greet".to_string(), "add".to_string()];
    let text = generate_invoke(&names);
    let mut expected = String::new();
    expected.push_str("type Keys = 'greet' | 'add';\n");
    expected.push_str("type FunctionArgs<K extends Keys> = K extends 'greet'\n  ? greet_args\n  : K extends 'add'\n  ? add_args\n  : never;\n");
    expected.push_str("type FunctionRet<K extends Keys> = K extends 'greet'\n  ? greet_return\n  : K extends 'add'\n  ? add_return\n  : never;\n");
    expected.push_str("\n");
    expected.push_str("import { invoke as tauriInvoke } from '@tauri-apps/api/core';\n\n");
    expected.push_str("type Prettify<T> = {\n  [K in keyof T]: T[K];\n} & {};\n\n");
    expected.push_str("export async function invoke<K extends Keys>(\n  cmd: K,\n  args: Prettify<FunctionArgs<K>>\n): Promise<Prettify<FunctionRet<K>>> {\n  return tauriInvoke(cmd, args);\n}");
    assert_eq!(text, expected);
}

#[test]
fn registry_duplicate_names_keep_the_first_branch_first() {
    let names = vec!["x".to_string(), "x".to_string()];
    let text = generate_invoke(&names);
    assert!(text.starts_with("type Keys = 'x' | 'x';\n"));
    assert!(text.contains(
        "type FunctionArgs<K extends Keys> = K extends 'x'\n  ? x_args\n  : K extends 'x'\n  ? x_args\n  : never;\n"
    ));
}
