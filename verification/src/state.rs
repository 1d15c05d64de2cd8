//! What a validation run found.

use vstd::prelude::*;

verus! {

/// One way in which a value fails a schema.
#[derive(Debug)]
pub struct Diagnostic {
    /// Where in the value, the segments joined by `/`.
    pub path: String,
    pub detail: String,
}

/// What a [`Diagnostic`] holds.
pub struct DiagnosticView {
    pub path: Seq<char>,
    pub detail: Seq<char>,
}

impl View for Diagnostic {
    type V = DiagnosticView;

    open spec fn view(&self) -> DiagnosticView {
        DiagnosticView { path: self.path@, detail: self.detail@ }
    }
}

/// The diagnostics of one validation run, in the order in which they arose.
#[derive(Debug)]
pub struct ValidationState {
    pub errors: Vec<Diagnostic>,
}

impl View for ValidationState {
    type V = Seq<DiagnosticView>;

    open spec fn view(&self) -> Seq<DiagnosticView> {
        Seq::new(self.errors@.len(), |i: int| self.errors@[i]@)
    }
}

impl ValidationState {
    pub fn new() -> (state: ValidationState)
        ensures
            state@ == Seq::<DiagnosticView>::empty(),
    {
        let state = ValidationState { errors: Vec::new() };
        state
    }

    /// Whether the value conformed: nothing has been recorded.
    pub fn is_valid(&self) -> (valid: bool)
        ensures
            valid == (self@.len() == 0),
    {
        self.errors.len() == 0
    }

    /// Adds one diagnostic behind those already held.
    pub fn record(&mut self, path: String, detail: String)
        ensures
            final(self)@ == old(self)@.push(DiagnosticView { path: path@, detail: detail@ }),
    {
        self.errors.push(Diagnostic { path, detail });
    }

    /// Moves the diagnostics of a nested run behind those already held.
    pub fn append(&mut self, other: ValidationState)
        ensures
            final(self)@ == old(self)@ + other@,
    {
        let mut other = other;
        let ghost moved = other@;
        self.errors.append(&mut other.errors);
    }
}

} // verus!
