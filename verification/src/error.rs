//! Declaration-time error taxonomy. Every failure names a source location
//! (a span, modelled as a byte offset supplied by the front end) so that a
//! front end can point at the offending token. Runtime dispatch has no error
//! path at all: the resolver always yields at least the baseline.

use vstd::prelude::*;

verus! {

/// What went wrong while processing a dispatch-point declaration.
#[derive(Clone, Copy, Debug, PartialEq, Eq, Structural)]
pub enum ErrorKind {
    /// Malformed configuration syntax: a literal where an identifier was
    /// expected, or a value of the wrong shape.
    Declaration,
    /// The same configuration key was supplied twice.
    DuplicateKey,
    /// The same target was registered twice for one dispatch point.
    DuplicateTarget,
    /// A configuration key remained after every recognized key was consumed.
    UnknownKey,
    /// The declared signature cannot be abstracted across implementations.
    UnsupportedSignature,
    /// Invalid target grammar: bad architecture, bad feature token, or a
    /// trailing separator.
    Parse,
}

/// A declaration-time error: a kind plus the source location it points at.
#[derive(Clone, Copy, Debug, PartialEq, Eq, Structural)]
pub struct Error {
    pub kind: ErrorKind,
    pub span: u64,
}

impl Error {
    /// Builds an error of the given kind pointing at `span`.
    pub fn new(kind: ErrorKind, span: u64) -> (r: Error)
        ensures
            r.kind == kind,
            r.span == span,
    {
        Error { kind, span }
    }

    /// A short description of the error kind, for reporting.
    pub fn text(&self) -> (r: String)
        ensures
            r@ == spec_error_text(self.kind),
    {
        match self.kind {
            ErrorKind::Declaration => String::from_str("malformed declaration"),
            ErrorKind::DuplicateKey => String::from_str("key already provided"),
            ErrorKind::DuplicateTarget => String::from_str("target already registered"),
            ErrorKind::UnknownKey => String::from_str("unexpected key"),
            ErrorKind::UnsupportedSignature => String::from_str("unsupported signature"),
            ErrorKind::Parse => String::from_str("invalid target string"),
        }
    }
}

/// The report text that belongs to each error kind.
pub open spec fn spec_error_text(kind: ErrorKind) -> Seq<char> {
    match kind {
        ErrorKind::Declaration => "malformed declaration"@,
        ErrorKind::DuplicateKey => "key already provided"@,
        ErrorKind::DuplicateTarget => "target already registered"@,
        ErrorKind::UnknownKey => "unexpected key"@,
        ErrorKind::UnsupportedSignature => "unsupported signature"@,
        ErrorKind::Parse => "invalid target string"@,
    }
}

} // verus!
