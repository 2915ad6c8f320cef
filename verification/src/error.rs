use vstd::prelude::*;

verus! {

/// Failure conditions of the translator.  Every failure is fatal for the
/// declaration being translated: no partial output text is produced for it.
#[derive(Debug, Clone, Copy, PartialEq, Eq, Structural)]
pub enum TranslateError {
    /// A type-expression shape outside the supported closed set.
    UnsupportedType,
    /// A declaration or binding-pattern shape outside the supported closed set.
    UnsupportedDeclarationShape,
    /// A recognized attribute key used with a form other than
    /// `key = "string literal"`.
    InvalidAttributeForm,
}

/// Text prepended to a translation outcome: a successful continuation is
/// extended in front, a failed one carries its error through.
pub open spec fn prepend_text(s: Seq<char>, m: Result<Seq<char>, TranslateError>) -> Result<
    Seq<char>,
    TranslateError,
> {
    match m {
        Ok(t) => Ok(s + t),
        Err(e) => Err(e),
    }
}

} // verus!
