//! The errors of policy operations, each with a stable diagnostic code.

use vstd::prelude::*;

use crate::text::join4;

verus! {

/// Errors of configuration, baseline, Cargo, report and synchronization work.
#[derive(Debug)]
pub enum PolicyError {
    /// The project configuration could not be read.
    ReadConfig { path: String, source: String },
    /// The project configuration is not valid TOML for its schema.
    ParseConfig { path: String, source: String },
    /// The project configuration is read but invalid.
    InvalidConfig { code: &'static str, message: String },
    /// The baseline source could not be used.
    Source { message: String },
    /// The baseline could not be loaded for the requested release.
    Baseline { message: String },
    /// The baseline is malformed.
    InvalidBaseline { message: String },
    /// Cargo could not describe the project.
    Cargo { code: &'static str, message: String },
    /// A report could not be rendered.
    Report { message: String },
    /// Synchronization could not be planned or applied.
    Sync { message: String },
}

/// The mathematical value of a [`PolicyError`].
pub enum PolicyErrorView {
    ReadConfig { path: Seq<char>, source: Seq<char> },
    ParseConfig { path: Seq<char>, source: Seq<char> },
    InvalidConfig { code: Seq<char>, message: Seq<char> },
    Source { message: Seq<char> },
    Baseline { message: Seq<char> },
    InvalidBaseline { message: Seq<char> },
    Cargo { code: Seq<char>, message: Seq<char> },
    Report { message: Seq<char> },
    Sync { message: Seq<char> },
}

impl View for PolicyError {
    type V = PolicyErrorView;

    open spec fn view(&self) -> PolicyErrorView {
        match self {
            PolicyError::ReadConfig { path, source } => PolicyErrorView::ReadConfig { path: path@, source: source@ },
            PolicyError::ParseConfig { path, source } => PolicyErrorView::ParseConfig { path: path@, source: source@ },
            PolicyError::InvalidConfig { code, message } => PolicyErrorView::InvalidConfig { code: code@, message: message@ },
            PolicyError::Source { message } => PolicyErrorView::Source { message: message@ },
            PolicyError::Baseline { message } => PolicyErrorView::Baseline { message: message@ },
            PolicyError::InvalidBaseline { message } => PolicyErrorView::InvalidBaseline { message: message@ },
            PolicyError::Cargo { code, message } => PolicyErrorView::Cargo { code: code@, message: message@ },
            PolicyError::Report { message } => PolicyErrorView::Report { message: message@ },
            PolicyError::Sync { message } => PolicyErrorView::Sync { message: message@ },
        }
    }
}

/// The stable diagnostic code of an error.
pub open spec fn error_code(e: PolicyErrorView) -> Seq<char> {
    match e {
        PolicyErrorView::ReadConfig { .. } => "DP001"@,
        PolicyErrorView::ParseConfig { .. } => "DP001"@,
        PolicyErrorView::InvalidConfig { code, .. } => code,
        PolicyErrorView::Source { .. } => "DP101"@,
        PolicyErrorView::Baseline { .. } => "DP102"@,
        PolicyErrorView::InvalidBaseline { .. } => "DP103"@,
        PolicyErrorView::Cargo { code, .. } => code,
        PolicyErrorView::Report { .. } => "DP401"@,
        PolicyErrorView::Sync { .. } => "DP302"@,
    }
}

/// The human-readable text of an error.
pub open spec fn error_text(e: PolicyErrorView) -> Seq<char> {
    match e {
        PolicyErrorView::ReadConfig { path, source } => "failed to read "@ + path + ": "@ + source,
        PolicyErrorView::ParseConfig { path, source } => "failed to parse "@ + path + ": "@ + source,
        PolicyErrorView::InvalidConfig { message, .. } => message,
        PolicyErrorView::Source { message } => message,
        PolicyErrorView::Baseline { message } => message,
        PolicyErrorView::InvalidBaseline { message } => message,
        PolicyErrorView::Cargo { message, .. } => message,
        PolicyErrorView::Report { message } => message,
        PolicyErrorView::Sync { message } => message,
    }
}

impl PolicyError {
    /// Returns the stable diagnostic code.
    pub fn code(&self) -> (c: &'static str)
        ensures
            c@ == error_code(self@),
    {
        match self {
            PolicyError::ReadConfig { .. } => "DP001",
            PolicyError::ParseConfig { .. } => "DP001",
            PolicyError::InvalidConfig { code, .. } => code,
            PolicyError::Source { .. } => "DP101",
            PolicyError::Baseline { .. } => "DP102",
            PolicyError::InvalidBaseline { .. } => "DP103",
            PolicyError::Cargo { code, .. } => code,
            PolicyError::Report { .. } => "DP401",
            PolicyError::Sync { .. } => "DP302",
        }
    }

    /// Returns the human-readable text.
    pub fn describe(&self) -> (s: String)
        ensures
            s@ == error_text(self@),
    {
        match self {
            PolicyError::ReadConfig { path, source } => join4("failed to read ", path.as_str(), ": ", source.as_str()),
            PolicyError::ParseConfig { path, source } => join4("failed to parse ", path.as_str(), ": ", source.as_str()),
            PolicyError::InvalidConfig { message, .. } => message.clone(),
            PolicyError::Source { message } => message.clone(),
            PolicyError::Baseline { message } => message.clone(),
            PolicyError::InvalidBaseline { message } => message.clone(),
            PolicyError::Cargo { message, .. } => message.clone(),
            PolicyError::Report { message } => message.clone(),
            PolicyError::Sync { message } => message.clone(),
        }
    }
}

} // verus!
