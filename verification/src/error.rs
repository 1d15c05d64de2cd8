//! Errors of schema compilation.

use crate::context::joined;
use vstd::prelude::*;

verus! {

/// Why a schema document was refused.
#[derive(Clone, Copy, Debug, PartialEq, Eq, Structural)]
pub enum ErrorKind {
    /// The document breaks a keyword's own rules.
    Malformed,
    /// A key that no keyword claims, met in strict mode.
    UnknownKeyword,
    /// A reference to a URI under which no document is known.
    InvalidReference,
    /// A reference that leads back to a document still being compiled.
    CompileCycle,
}

/// A refusal, with the place in the document where it arose.
#[derive(Debug)]
pub struct SchemaError {
    pub kind: ErrorKind,
    /// The path of the offending keyword, its segments joined by `/`.
    pub path: String,
    pub detail: String,
}

/// What a [`SchemaError`] holds.
pub struct SchemaErrorView {
    pub kind: ErrorKind,
    pub path: Seq<char>,
    pub detail: Seq<char>,
}

impl View for SchemaError {
    type V = SchemaErrorView;

    open spec fn view(&self) -> SchemaErrorView {
        SchemaErrorView { kind: self.kind, path: self.path@, detail: self.detail@ }
    }
}

/// The refusal of a definition that breaks its keyword's rules, at `path`.
pub open spec fn malformed(path: Seq<Seq<char>>, detail: Seq<char>) -> SchemaErrorView {
    SchemaErrorView { kind: ErrorKind::Malformed, path: joined(path), detail }
}

impl SchemaError {
    pub fn new(kind: ErrorKind, path: String, detail: String) -> (error: SchemaError)
        ensures
            error@ == (SchemaErrorView { kind, path: path@, detail: detail@ }),
    {
        SchemaError { kind, path, detail }
    }
}

} // verus!
