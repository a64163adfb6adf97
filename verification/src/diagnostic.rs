//! Stable diagnostics emitted by policy evaluation.

use vstd::prelude::*;

verus! {

/// A policy violation with a stable machine-readable code.
#[derive(Debug, Clone, PartialEq, Eq)]
pub struct Violation {
    /// Stable diagnostic code.
    pub code: &'static str,
    /// Package associated with the violation.
    pub crate_name: String,
    /// Human-readable explanation.
    pub message: String,
    /// Approved exception suppressing this violation, when present.
    pub exception_id: Option<String>,
}

/// The mathematical value of a [`Violation`].
pub struct ViolationView {
    pub code: Seq<char>,
    pub crate_name: Seq<char>,
    pub message: Seq<char>,
    pub exception_id: Option<Seq<char>>,
}

/// The view of an optional text.
pub open spec fn opt_text(o: Option<String>) -> Option<Seq<char>> {
    match o {
        Some(s) => Some(s@),
        None => None,
    }
}

impl View for Violation {
    type V = ViolationView;

    open spec fn view(&self) -> ViolationView {
        ViolationView {
            code: self.code@,
            crate_name: self.crate_name@,
            message: self.message@,
            exception_id: opt_text(self.exception_id),
        }
    }
}

/// The views of a sequence of violations.
pub open spec fn violation_views(v: Seq<Violation>) -> Seq<ViolationView> {
    v.map_values(|x: Violation| x@)
}

/// A violation that no exception suppresses.
pub open spec fn plain_violation(code: Seq<char>, crate_name: Seq<char>, message: Seq<char>) -> ViolationView {
    ViolationView { code, crate_name, message, exception_id: None }
}

} // verus!
