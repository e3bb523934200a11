//! Errors that a terminal backend reports.

use vstd::prelude::*;
use crate::text::string_from;

verus! {

/// Errors from a terminal backend.
#[derive(Debug, Clone, PartialEq, Eq)]
pub enum BackendError {
    NotAvailable(String),
    SessionNotFound(String),
    PaneNotFound(String),
    TabNotFound(String),
    CommandFailed(String),
    Unsupported(String),
    Other(String),
}

/// The text a backend error reads as: a fixed prefix naming the kind of
/// failure, then the detail it carries.
pub open spec fn backend_error_text(e: BackendError) -> Seq<char> {
    match e {
        BackendError::NotAvailable(s) => "backend not available: "@ + s@,
        BackendError::SessionNotFound(s) => "session not found: "@ + s@,
        BackendError::PaneNotFound(s) => "pane not found: "@ + s@,
        BackendError::TabNotFound(s) => "tab not found: "@ + s@,
        BackendError::CommandFailed(s) => "command failed: "@ + s@,
        BackendError::Unsupported(s) => "unsupported operation: "@ + s@,
        BackendError::Other(s) => s@,
    }
}

impl BackendError {
    /// The error's message (what `to_string` gives for it).
    pub fn message(&self) -> (m: String)
        ensures
            m@ == backend_error_text(*self),
    {
        let (mut m, detail) = match self {
            BackendError::NotAvailable(s) => (string_from("backend not available: "), s),
            BackendError::SessionNotFound(s) => (string_from("session not found: "), s),
            BackendError::PaneNotFound(s) => (string_from("pane not found: "), s),
            BackendError::TabNotFound(s) => (string_from("tab not found: "), s),
            BackendError::CommandFailed(s) => (string_from("command failed: "), s),
            BackendError::Unsupported(s) => (string_from("unsupported operation: "), s),
            BackendError::Other(s) => (String::new(), s),
        };
        m.append(detail.as_str());
        m
    }
}

} // verus!
