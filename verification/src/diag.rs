//! Diagnostics: what an engine hands back when the input breaks its contract.

use vstd::prelude::*;

use crate::token::Span;

verus! {

/// Why an engine gave up.
#[derive(Clone, Copy, Debug, PartialEq, Eq, Structural)]
pub enum ErrorKind {
    /// The input is not the kind of item that the engine works on.
    StructuralMismatch,
    /// A pattern, an attribute key or a shape that the engine does not know.
    UnsupportedConstruct,
    /// A name stands before one that sorts before it.
    OrderingViolation,
    /// A builder was finalized while a required slot was empty.
    MissingRequiredField,
}

/// One failure: its kind, where it is anchored, and what to tell the user.
#[derive(Debug)]
pub struct Diagnostic {
    pub kind: ErrorKind,
    pub span: Span,
    pub message: String,
}

/// What a diagnostic is expected to say.
pub ghost struct Report {
    pub kind: ErrorKind,
    pub span: Span,
    pub message: Seq<char>,
}

/// Whether a diagnostic says what is expected of it, or is absent where
/// nothing is expected.
pub open spec fn reported(err: Option<Diagnostic>, report: Option<Report>) -> bool {
    match report {
        Some(r) => err is Some && err.unwrap().says(r.kind, r.span, r.message),
        None => err is None,
    }
}

impl Diagnostic {
    /// Whether the diagnostic is of `kind`, anchored at `span`, and says `message`.
    pub open spec fn says(&self, kind: ErrorKind, span: Span, message: Seq<char>) -> bool {
        &&& self.kind == kind
        &&& self.span == span
        &&& self.message@ == message
    }

    pub fn new(kind: ErrorKind, span: Span, message: String) -> (d: Diagnostic)
        ensures
            d.says(kind, span, message@),
    {
        Diagnostic { kind, span, message }
    }
}

} // verus!
