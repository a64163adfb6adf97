//! Project policy configuration (`.infra/dep/policy.toml`) and its validation.

use vstd::prelude::*;
use vstd::utf8::encode_utf8;

use crate::error::{PolicyError, PolicyErrorView};
use crate::paths::{adjoined, join_path, verbatim};
use crate::text::{all_hex, byte_len, decimal, decimal_text, is_hex_text, join2};

verus! {

/// Supported project profiles.
#[derive(Debug, Clone, Copy, PartialEq, Eq, Structural)]
pub enum Profile {
    /// A published library with consumer-facing SemVer requirements.
    Library,
    /// An application with a committed, locked dependency graph.
    Application,
}

/// A baseline selected by a project.
#[derive(Debug, Clone)]
pub struct BaselineRef {
    /// Git, file, or other policy source identifier.
    pub source: String,
    /// Full commit SHA of the selected baseline.
    pub revision: String,
    /// Human-readable release associated with the commit.
    pub release: String,
    /// Baseline name displayed in reports.
    pub name: String,
}

/// Project-level policy settings.
#[derive(Debug, Clone)]
pub struct ProjectSettings {
    /// The rules profile used by this project.
    pub profile: Profile,
    /// Optional project-local exception references.
    pub exceptions_path: Option<String>,
}

/// Project configuration loaded from `.infra/dep/policy.toml`.
#[derive(Debug, Clone)]
pub struct ProjectConfig {
    /// Configuration schema version.
    pub format: u32,
    /// The selected immutable dependency baseline.
    pub baseline: BaselineRef,
    /// Project-specific behavior profile.
    pub project: ProjectSettings,
}

/// Whether a revision is a full commit SHA: forty hexadecimal digits.
pub open spec fn is_commit_sha(revision: Seq<char>) -> bool {
    encode_utf8(revision).len() == 40 && all_hex(encode_utf8(revision))
}

/// The error for an unsupported configuration schema version.
pub open spec fn unsupported_config_format(format: u32) -> PolicyErrorView {
    PolicyErrorView::InvalidConfig {
        code: "DP001"@,
        message: "unsupported configuration format "@ + decimal(format as nat),
    }
}

/// The error for a revision that is not a full commit SHA.
pub open spec fn invalid_revision() -> PolicyErrorView {
    PolicyErrorView::InvalidConfig {
        code: "DP001"@,
        message: "baseline.revision must be a 40-digit hexadecimal commit SHA"@,
    }
}

impl ProjectConfig {
    /// Returns the selected project profile.
    pub fn profile(&self) -> (p: Profile)
        ensures
            p == self.project.profile,
    {
        self.project.profile
    }

    /// Validates the supported schema version and the revision format.
    pub fn validate(self) -> (r: Result<Self, PolicyError>)
        ensures
            self.format != 1 ==> (r matches Err(e) && e@ == unsupported_config_format(self.format)),
            self.format == 1 && !is_commit_sha(self.baseline.revision@) ==> (r matches Err(e)
                && e@ == invalid_revision()),
            self.format == 1 && is_commit_sha(self.baseline.revision@) ==> (r matches Ok(c) && c
                == self),
    {
        if self.format != 1 {
            let number = decimal_text(self.format);
            return Err(
                PolicyError::InvalidConfig {
                    code: "DP001",
                    message: join2("unsupported configuration format ", number.as_str()),
                },
            );
        }
        if byte_len(self.baseline.revision.as_str()) != 40 || !is_hex_text(
            self.baseline.revision.as_str(),
        ) {
            return Err(
                PolicyError::InvalidConfig {
                    code: "DP001",
                    message: String::from_str(
                        "baseline.revision must be a 40-digit hexadecimal commit SHA",
                    ),
                },
            );
        }
        Ok(self)
    }
}

/// Where the configuration of a project is read from: the override when one is
/// given, else `.infra/dep/policy.toml` under the project root.
pub fn config_path(project_root: &str, override_path: Option<&str>) -> (p: String)
    ensures
        override_path matches Some(o) ==> p@ == o@,
        override_path is None && !verbatim(project_root@) ==> adjoined(
            project_root@,
            ".infra/dep/policy.toml"@,
            p@,
        ),
{
    proof {
        reveal_strlit(".infra/dep/policy.toml");
        assert(!".infra/dep/policy.toml"@.contains(':'));
    }
    match override_path {
        Some(o) => String::from_str(o),
        None => join_path(project_root, ".infra/dep/policy.toml"),
    }
}

} // verus!
