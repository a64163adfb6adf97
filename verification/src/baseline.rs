//! Versioned dependency-policy baselines and their per-profile rules.

use vstd::prelude::*;

use crate::config::Profile;
use crate::error::{PolicyError, PolicyErrorView};
use crate::keyed_map::{lookup, KeyedMap};
use crate::text::{compare_keys, decimal, decimal_text, join2, join4, KeyOrder};
use crate::versions::Requirement;

verus! {

/// A direct dependency declaration rule.
#[derive(Debug, Clone)]
pub struct DirectRule {
    /// Required Cargo version requirement.
    pub requirement: Requirement,
}

impl View for DirectRule {
    type V = Seq<char>;

    /// The text of the required requirement.
    open spec fn view(&self) -> Seq<char> {
        self.requirement@
    }
}

/// A resolved dependency graph rule.
#[derive(Debug, Clone)]
pub struct ResolvedRule {
    /// Version requirements forbidden in the resolved graph.
    pub deny: Vec<Requirement>,
    /// Whether more than one version is forbidden.
    pub single_version: bool,
}

/// The mathematical value of a [`ResolvedRule`].
pub struct ResolvedRuleView {
    pub deny: Seq<Seq<char>>,
    pub single_version: bool,
}

impl View for ResolvedRule {
    type V = ResolvedRuleView;

    open spec fn view(&self) -> ResolvedRuleView {
        ResolvedRuleView {
            deny: self.deny@.map_values(|r: Requirement| r@),
            single_version: self.single_version,
        }
    }
}

/// Rules for one project profile.
#[derive(Debug, Clone)]
pub struct ProfileRules {
    /// Direct dependency requirements keyed by package name.
    pub direct: KeyedMap<DirectRule>,
    /// Resolved graph rules keyed by package name.
    pub resolved: KeyedMap<ResolvedRule>,
}

/// The mathematical value of [`ProfileRules`]: both tables in ascending key order.
pub struct ProfileRulesView {
    pub direct_keys: Seq<Seq<char>>,
    pub direct_values: Seq<Seq<char>>,
    pub resolved_keys: Seq<Seq<char>>,
    pub resolved_values: Seq<ResolvedRuleView>,
}

impl View for ProfileRules {
    type V = ProfileRulesView;

    open spec fn view(&self) -> ProfileRulesView {
        ProfileRulesView {
            direct_keys: self.direct.keys(),
            direct_values: self.direct.values(),
            resolved_keys: self.resolved.keys(),
            resolved_values: self.resolved.values(),
        }
    }
}

impl ProfileRulesView {
    /// The requirement a direct dependency must declare, if the profile has one.
    pub open spec fn direct_rule(self, name: Seq<char>) -> Option<Seq<char>> {
        lookup(self.direct_keys, self.direct_values, name)
    }

    /// The resolved-graph rule for a package, if the profile has one.
    pub open spec fn resolved_rule(self, name: Seq<char>) -> Option<ResolvedRuleView> {
        lookup(self.resolved_keys, self.resolved_values, name)
    }
}

/// A versioned dependency-policy baseline.
#[derive(Debug, Clone)]
pub struct Baseline {
    /// Baseline schema version.
    pub format: u32,
    /// Release identifier selected by the project.
    pub release: String,
    /// Rules grouped by project profile.
    pub profiles: KeyedMap<ProfileRules>,
}

/// The key under which a baseline keeps the rules of a profile.
pub open spec fn profile_key(profile: Profile) -> Seq<char> {
    match profile {
        Profile::Library => "library"@,
        Profile::Application => "application"@,
    }
}

/// The error for an unsupported baseline schema version.
pub open spec fn unsupported_baseline_format(format: u32) -> PolicyErrorView {
    PolicyErrorView::InvalidBaseline {
        message: "unsupported baseline format "@ + decimal(format as nat),
    }
}

/// The error for a baseline whose release is not the requested one.
pub open spec fn release_mismatch(release: Seq<char>, expected: Seq<char>) -> PolicyErrorView {
    PolicyErrorView::Baseline {
        message: "baseline release "@ + release + " does not match requested "@ + expected,
    }
}

impl Baseline {
    /// Returns the rules for a project profile.
    pub fn profile(&self, profile: Profile) -> (r: Option<&ProfileRules>)
        ensures
            match r {
                Some(rules) => self.profiles.spec_get(profile_key(profile)) == Some(rules@),
                None => self.profiles.spec_get(profile_key(profile)) is None,
            },
    {
        let name = match profile {
            Profile::Library => "library",
            Profile::Application => "application",
        };
        proof {
            reveal_strlit("library");
            reveal_strlit("application");
        }
        self.profiles.get(name)
    }

    /// Validates the schema version and that the release is the requested one.
    pub fn validate(self, expected_release: &str) -> (r: Result<Self, PolicyError>)
        ensures
            self.format != 1 ==> (r matches Err(e) && e@ == unsupported_baseline_format(self.format)),
            self.format == 1 && self.release@ != expected_release@ ==> (r matches Err(e) && e@
                == release_mismatch(self.release@, expected_release@)),
            self.format == 1 && self.release@ == expected_release@ ==> (r matches Ok(b) && b
                == self),
    {
        if self.format != 1 {
            let number = decimal_text(self.format);
            return Err(
                PolicyError::InvalidBaseline {
                    message: join2("unsupported baseline format ", number.as_str()),
                },
            );
        }
        match compare_keys(self.release.as_str(), expected_release) {
            KeyOrder::Equal => Ok(self),
            _ => Err(
                PolicyError::Baseline {
                    message: join4(
                        "baseline release ",
                        self.release.as_str(),
                        " does not match requested ",
                        expected_release,
                    ),
                },
            ),
        }
    }
}

} // verus!
