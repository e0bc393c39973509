//! Structured diagnostics.

use vstd::prelude::*;


verus! {

/// The stable codes that the engine's own rules raise or read.
#[derive(Debug, Clone, Copy, PartialEq, Eq, Structural)]
pub enum Code {
    ExternalTaskRequestInvalid,
    ExternalTaskNotFound,
    ExternalTaskLockHeld,
    ExternalTaskLockLost,
    ExternalTaskTerminal,
    ExternalTaskCompletionRejected,
    InboundAliasConflictReject,
    InboundPersistenceRequired,
    RuntimeUnexpected,
    AuditSinkWriteFailed,
    Other,
}

/// A diagnostic: what went wrong, in a code and in words.
#[derive(Debug, PartialEq, Eq)]
pub struct Diagnostic {
    pub code: Code,
    pub message: String,
    pub attributes: Vec<(String, String)>,
}

/// The contents of a [`Diagnostic`].
pub struct DiagnosticView {
    pub code: Code,
    pub message: Seq<char>,
    pub attributes: Seq<(Seq<char>, Seq<char>)>,
}

impl View for Diagnostic {
    type V = DiagnosticView;

    open spec fn view(&self) -> DiagnosticView {
        DiagnosticView {
            code: self.code,
            message: self.message@,
            attributes: self.attributes@.map_values(|a: (String, String)| (a.0@, a.1@)),
        }
    }
}

impl DiagnosticView {
    /// An error without attributes.
    pub open spec fn error(code: Code, message: Seq<char>) -> DiagnosticView {
        DiagnosticView { code, message, attributes: Seq::empty() }
    }
}

impl Diagnostic {
    /// An error without attributes.
    pub fn error(code: Code, message: String) -> (r: Diagnostic)
        ensures
            r@ == DiagnosticView::error(code, message@),
    {
        let r = Diagnostic { code, message, attributes: Vec::new() };
        assert(r@.attributes =~= Seq::empty());
        r
    }
}

/// What the outcome of a check with a plain value holds.
pub open spec fn diagnosed<T>(r: Result<T, Diagnostic>) -> Result<T, DiagnosticView> {
    match r {
        Ok(v) => Ok(v),
        Err(e) => Err(e@),
    }
}

} // verus!
