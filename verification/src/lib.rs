//! Translator from host-language type declarations to interchange-language
//! (TypeScript) type declarations.
//!
//! The crate models parsed declarations — type expressions, struct/enum/alias
//! declarations, command signatures — as its own tagged sum types and emits
//! the corresponding TypeScript type text.  Every emitted string is pinned
//! down by a spec function, and the translation rules (primitive mapping,
//! array mapping, externally-tagged enum padding, contextual-parameter
//! skipping, first-match command lookup) are stated and proved as lemmas.

pub mod attr;
pub mod command;
pub mod decl;
pub mod error;
pub mod primitive;
pub mod registry;
pub mod strutil;
pub mod type_expr;
