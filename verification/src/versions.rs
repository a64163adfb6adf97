//! Semantic versions and version requirements, read by the `semver` crate.
//!
//! A value keeps the text it was read from; that text is its view. What the
//! `semver` crate computes from such texts (equality, matching, rendering) is
//! named by the uninterpreted functions below and obtained through the
//! private trusted wrappers at the end of this file.

use vstd::prelude::*;

verus! {

#[verifier::external_type_specification]
#[verifier::external_body]
pub struct ExVersionReq(semver::VersionReq);

#[verifier::external_type_specification]
#[verifier::external_body]
pub struct ExVersion(semver::Version);

/// Whether `semver::VersionReq::parse` accepts the text.
pub uninterp spec fn semver_req_parses(text: Seq<char>) -> bool;

/// Whether the requirements read from two texts are equal (`VersionReq == VersionReq`).
pub uninterp spec fn semver_req_equal(a: Seq<char>, b: Seq<char>) -> bool;

/// How `semver` renders the requirement read from a text (`Display for VersionReq`).
pub uninterp spec fn semver_req_text(req: Seq<char>) -> Seq<char>;

/// Whether the requirement read from `req` matches the version read from
/// `version` (`VersionReq::matches`).
pub uninterp spec fn semver_req_matches(req: Seq<char>, version: Seq<char>) -> bool;

/// Whether `semver::Version::parse` accepts the text.
pub uninterp spec fn semver_version_parses(text: Seq<char>) -> bool;

/// Whether the versions read from two texts are equal (`Version == Version`).
pub uninterp spec fn semver_version_equal(a: Seq<char>, b: Seq<char>) -> bool;

/// How `semver` renders the version read from a text (`Display for Version`).
pub uninterp spec fn semver_version_text(version: Seq<char>) -> Seq<char>;

/// `Clone for semver::VersionReq` (derived by `semver`). Nothing is claimed of
/// the copy: a [`Requirement`] keeps its own text, which is what the library reads.
pub assume_specification[ <semver::VersionReq as Clone>::clone ](req: &semver::VersionReq) -> semver::VersionReq;

/// `Clone for semver::Version` (derived by `semver`). Nothing is claimed of the
/// copy: a [`SemanticVersion`] keeps its own text, which is what the library reads.
pub assume_specification[ <semver::Version as Clone>::clone ](version: &semver::Version) -> semver::Version;

/// A Cargo version requirement such as `^0.4.8`.
#[derive(Debug, Clone)]
pub struct Requirement {
    source: String,
    parsed: semver::VersionReq,
}

impl View for Requirement {
    type V = Seq<char>;

    /// The text the requirement was read from.
    closed spec fn view(&self) -> Seq<char> {
        self.source@
    }
}

/// A semantic version such as `0.5.1`.
#[derive(Debug, Clone, PartialEq, Eq)]
pub struct SemanticVersion {
    source: String,
    parsed: semver::Version,
}

impl View for SemanticVersion {
    type V = Seq<char>;

    /// The text the version was read from.
    closed spec fn view(&self) -> Seq<char> {
        self.source@
    }
}

impl Requirement {
    /// Reads a requirement; `None` when `semver` rejects the text.
    pub fn parse(text: &str) -> (r: Option<Requirement>)
        ensures
            r is Some <==> semver_req_parses(text@),
            r matches Some(q) ==> q@ == text@,
    {
        read_requirement(text)
    }

    /// Whether two requirements are equal as `semver` compares them.
    pub fn same_as(&self, other: &Requirement) -> (r: bool)
        ensures
            r == semver_req_equal(self@, other@),
            self@ == other@ ==> r,
    {
        requirement_eq(self, other)
    }

    /// The requirement as `semver` renders it.
    pub fn render(&self) -> (r: String)
        ensures
            r@ == semver_req_text(self@),
    {
        requirement_text(self)
    }

    /// Whether `version` satisfies the requirement.
    pub fn matches(&self, version: &SemanticVersion) -> (r: bool)
        ensures
            r == semver_req_matches(self@, version@),
    {
        requirement_matches(self, version)
    }
}

impl SemanticVersion {
    /// Reads a version; `None` when `semver` rejects the text.
    pub fn parse(text: &str) -> (r: Option<SemanticVersion>)
        ensures
            r is Some <==> semver_version_parses(text@),
            r matches Some(v) ==> v@ == text@,
    {
        read_version(text)
    }

    /// Whether two versions are equal as `semver` compares them.
    pub fn same_as(&self, other: &SemanticVersion) -> (r: bool)
        ensures
            r == semver_version_equal(self@, other@),
            self@ == other@ ==> r,
    {
        version_eq(self, other)
    }

    /// The version as `semver` renders it.
    pub fn render(&self) -> (r: String)
        ensures
            r@ == semver_version_text(self@),
    {
        version_text(self)
    }
}

/// Calls `semver::VersionReq::parse`; the value keeps the text it was read
/// from. Claimed: it succeeds exactly when the parse does.
#[verifier::external_body]
fn read_requirement(text: &str) -> (r: Option<Requirement>)
    ensures
        r is Some <==> semver_req_parses(text@),
        r matches Some(q) ==> q@ == text@,
{
    match semver::VersionReq::parse(text) {
        Ok(parsed) => Some(Requirement { source: text.to_string(), parsed }),
        Err(_) => None,
    }
}

/// Calls `==` on two `semver::VersionReq` (a derived, reflexive equality).
/// Claimed: the result is a function of the two source texts, and two values
/// read from the same text are equal.
#[verifier::external_body]
fn requirement_eq(a: &Requirement, b: &Requirement) -> (r: bool)
    ensures
        r == semver_req_equal(a@, b@),
        a@ == b@ ==> r,
{
    a.parsed == b.parsed
}

/// Calls `to_string` (`Display`) on a `semver::VersionReq`.
#[verifier::external_body]
fn requirement_text(a: &Requirement) -> (r: String)
    ensures
        r@ == semver_req_text(a@),
{
    a.parsed.to_string()
}

/// Calls `semver::VersionReq::matches`.
#[verifier::external_body]
fn requirement_matches(a: &Requirement, v: &SemanticVersion) -> (r: bool)
    ensures
        r == semver_req_matches(a@, v@),
{
    a.parsed.matches(&v.parsed)
}

/// Calls `semver::Version::parse`; the value keeps the text it was read
/// from. Claimed: it succeeds exactly when the parse does.
#[verifier::external_body]
fn read_version(text: &str) -> (r: Option<SemanticVersion>)
    ensures
        r is Some <==> semver_version_parses(text@),
        r matches Some(v) ==> v@ == text@,
{
    match semver::Version::parse(text) {
        Ok(parsed) => Some(SemanticVersion { source: text.to_string(), parsed }),
        Err(_) => None,
    }
}

/// Calls `==` on two `semver::Version` (a derived, reflexive equality).
/// Claimed: the result is a function of the two source texts, and two values
/// read from the same text are equal.
#[verifier::external_body]
fn version_eq(a: &SemanticVersion, b: &SemanticVersion) -> (r: bool)
    ensures
        r == semver_version_equal(a@, b@),
        a@ == b@ ==> r,
{
    a.parsed == b.parsed
}

/// Calls `to_string` (`Display`) on a `semver::Version`.
#[verifier::external_body]
fn version_text(v: &SemanticVersion) -> (r: String)
    ensures
        r@ == semver_version_text(v@),
{
    v.parsed.to_string()
}

} // verus!
