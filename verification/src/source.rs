//! Locating and accepting a baseline from its policy source.
//!
//! The source is a URL read by the `url` crate; only `file:` sources are
//! supported. Reading the baseline file is left to the caller, which hands the
//! outcome back to [`accept_baseline`].

use vstd::prelude::*;

use crate::baseline::{release_mismatch, unsupported_baseline_format, Baseline};
use crate::config::BaselineRef;
use crate::error::{PolicyError, PolicyErrorView};
use crate::paths::{adjoined, join_path, plain_relative, verbatim};
use crate::text::{compare_keys, join2, join4, KeyOrder};

verus! {

#[verifier::external_type_specification]
#[verifier::external_body]
pub struct ExUrl(url::Url);

/// What `url::Url::parse` makes of a text: success, or the rendered error.
pub uninterp spec fn url_parse_outcome(text: Seq<char>) -> Result<(), Seq<char>>;

/// The scheme of the URL read from a text (`Url::scheme`).
pub uninterp spec fn url_scheme(text: Seq<char>) -> Seq<char>;

/// A baseline together with the source commit used to load it.
#[derive(Debug, Clone)]
pub struct LoadedBaseline {
    /// Commit SHA recorded by the project configuration.
    pub commit: String,
    /// Parsed and validated baseline.
    pub baseline: Baseline,
}

/// A policy source URL.
#[derive(Debug)]
pub struct SourceUrl {
    text: String,
    parsed: url::Url,
}

impl View for SourceUrl {
    type V = Seq<char>;

    /// The text the URL was read from.
    closed spec fn view(&self) -> Seq<char> {
        self.text@
    }
}

/// The error for a source that is not a URL.
pub open spec fn invalid_source_url(error: Seq<char>) -> PolicyErrorView {
    PolicyErrorView::Source { message: "invalid policy source URL: "@ + error }
}

/// The error for a source whose scheme is not `file`.
pub open spec fn unsupported_scheme(scheme: Seq<char>) -> PolicyErrorView {
    PolicyErrorView::Source { message: "unsupported source scheme "@ + scheme }
}

/// The error for a `file` source with no local path.
pub open spec fn no_local_path() -> PolicyErrorView {
    PolicyErrorView::Source { message: "file policy source has no local path"@ }
}

/// The error for a local path that is not UTF-8.
pub open spec fn path_not_utf8() -> PolicyErrorView {
    PolicyErrorView::Source { message: "policy source path is not valid UTF-8"@ }
}

/// Whether `file` is `<release>.toml` adjoined to `policy/baselines` adjoined
/// to `root` (the second join is unconstrained when the directory it yields is
/// a verbatim path, which the platform normalizes).
pub open spec fn baseline_file_under(root: Seq<char>, release: Seq<char>, file: Seq<char>) -> bool {
    exists|dir: Seq<char>|
        adjoined(root, "policy/baselines"@, dir) && (verbatim(dir) || adjoined(
            dir,
            release + ".toml"@,
            file,
        ))
}

/// The baseline file of `release` under the policy source directory `root`:
/// `policy/baselines/<release>.toml` adjoined to it.
pub fn baseline_file(root: &str, release: &str) -> (file: String)
    ensures
        !verbatim(root@) && plain_relative(release@ + ".toml"@) ==> baseline_file_under(
            root@,
            release@,
            file@,
        ),
{
    proof {
        reveal_strlit("policy/baselines");
        assert(!"policy/baselines"@.contains(':'));
    }
    let directory = join_path(root, "policy/baselines");
    let name = join2(release, ".toml");
    let file = join_path(directory.as_str(), name.as_str());
    proof {
        if !verbatim(root@) && plain_relative(release@ + ".toml"@) {
            assert(adjoined(root@, "policy/baselines"@, directory@));
            assert(verbatim(directory@) || adjoined(directory@, release@ + ".toml"@, file@));
        }
    }
    file
}

/// The baseline file of `release` under the local path that a `file:` source
/// names, given as what reading that path yields: `None` when the source names
/// no local path, `Some(None)` when the path is not UTF-8 text, else the path.
pub fn locate_under(release: &str, local: Option<Option<String>>) -> (r: Result<String, PolicyError>)
    ensures
        local is None ==> (r matches Err(e) && e@ == no_local_path()),
        local matches Some(None) ==> (r matches Err(e) && e@ == path_not_utf8()),
        local matches Some(Some(root)) ==> (r matches Ok(file) && (!verbatim(root@) && plain_relative(
            release@ + ".toml"@,
        ) ==> baseline_file_under(root@, release@, file@))),
{
    match local {
        None => Err(PolicyError::Source { message: String::from_str("file policy source has no local path") }),
        Some(None) => Err(PolicyError::Source { message: String::from_str("policy source path is not valid UTF-8") }),
        Some(Some(root)) => Ok(baseline_file(root.as_str(), release)),
    }
}

/// Finds the baseline file of the referenced release: the source must be a
/// `file:` URL, and the file is `policy/baselines/<release>.toml` under the
/// directory it names.
pub fn locate_baseline(reference: &BaselineRef) -> (r: Result<String, PolicyError>)
    ensures
        url_parse_outcome(reference.source@) matches Err(m) ==> (r matches Err(e) && e@
            == invalid_source_url(m)),
        url_parse_outcome(reference.source@) is Ok && url_scheme(reference.source@) != "file"@ ==> (
        r matches Err(e) && e@ == unsupported_scheme(url_scheme(reference.source@))),
        url_parse_outcome(reference.source@) is Ok && url_scheme(reference.source@) == "file"@ ==> (
        r is Ok || (r matches Err(e) && (e@ == no_local_path() || e@ == path_not_utf8()))),
        r matches Ok(file) ==> url_parse_outcome(reference.source@) is Ok && url_scheme(
            reference.source@,
        ) == "file"@ && exists|root: Seq<char>|
            !verbatim(root) && (plain_relative(reference.release@ + ".toml"@) ==> baseline_file_under(
                root,
                reference.release@,
                file@,
            )),
{
    let url = match read_url(reference.source.as_str()) {
        Ok(url) => url,
        Err(error) => {
            return Err(PolicyError::Source { message: join2("invalid policy source URL: ", error.as_str()) });
        },
    };
    let scheme = scheme_of(&url);
    match compare_keys(scheme.as_str(), "file") {
        KeyOrder::Equal => {},
        _ => {
            return Err(PolicyError::Source { message: join2("unsupported source scheme ", scheme.as_str()) });
        },
    }
    let local = local_root(&url);
    let ghost lv = local;
    let r = locate_under(reference.release.as_str(), local);
    proof {
        let rv = r;
        if let Some(Some(x)) = lv {
            if let Ok(file) = rv {
                assert(!verbatim(x@) && (plain_relative(reference.release@ + ".toml"@) ==> baseline_file_under(
                    x@,
                    reference.release@,
                    file@,
                )));
            }
        }
    }
    r
}

/// Accepts the baseline read from `path` for the referenced release: a read
/// failure and a malformed file are errors, and the baseline must pass
/// [`Baseline::validate`] against the referenced release.
pub fn accept_baseline(
    reference: &BaselineRef,
    path: &str,
    read: Result<Result<Baseline, String>, String>,
) -> (r: Result<LoadedBaseline, PolicyError>)
    ensures
        read matches Err(e) ==> (r matches Err(x) && x@ == PolicyErrorView::Baseline {
            message: "failed to read "@ + path@ + ": "@ + e@,
        }),
        read matches Ok(Err(m)) ==> (r matches Err(x) && x@ == PolicyErrorView::InvalidBaseline {
            message: m@,
        }),
        read matches Ok(Ok(b)) ==> (b.format != 1 ==> (r matches Err(x) && x@
            == unsupported_baseline_format(b.format))),
        read matches Ok(Ok(b)) ==> (b.format == 1 && b.release@ != reference.release@ ==> (r matches Err(
            x,
        ) && x@ == release_mismatch(b.release@, reference.release@))),
        read matches Ok(Ok(b)) ==> (b.format == 1 && b.release@ == reference.release@ ==> (r matches Ok(
            l,
        ) && l.baseline == b && l.commit@ == reference.revision@)),
{
    match read {
        Err(error) => Err(
            PolicyError::Baseline { message: join4("failed to read ", path, ": ", error.as_str()) },
        ),
        Ok(Err(message)) => Err(PolicyError::InvalidBaseline { message }),
        Ok(Ok(baseline)) => {
            let baseline = baseline.validate(reference.release.as_str())?;
            Ok(LoadedBaseline { commit: reference.revision.clone(), baseline })
        },
    }
}

/// Calls `url::Url::parse`; the URL keeps its text, and a failure is rendered
/// with `Display`.
#[verifier::external_body]
fn read_url(text: &str) -> (r: Result<SourceUrl, String>)
    ensures
        match r {
            Ok(u) => url_parse_outcome(text@) == Ok::<(), Seq<char>>(()) && u@ == text@,
            Err(e) => url_parse_outcome(text@) == Err::<(), Seq<char>>(e@),
        },
{
    match url::Url::parse(text) {
        Ok(parsed) => Ok(SourceUrl { text: text.to_string(), parsed }),
        Err(error) => Err(error.to_string()),
    }
}

/// Calls `url::Url::scheme`.
#[verifier::external_body]
fn scheme_of(u: &SourceUrl) -> (r: String)
    ensures
        r@ == url_scheme(u@),
{
    u.parsed.scheme().to_string()
}

/// Calls `url::Url::to_file_path` and turns the path into UTF-8 text with
/// `camino::Utf8PathBuf::from_path_buf`: `None` when the URL names no local
/// path, `Some(None)` when that path is not UTF-8. How the path is formed
/// depends on the platform, so of the text only this is claimed: it never
/// starts with the verbatim prefix `\\?\` (`to_file_path` builds a path that
/// starts with `/` on Unix, and on Windows one that starts with a drive letter
/// or with `\\` and a URL host, which cannot be `?`).
#[verifier::external_body]
fn local_root(u: &SourceUrl) -> (r: Option<Option<String>>)
    ensures
        r matches Some(Some(root)) ==> !verbatim(root@),
{
    match u.parsed.to_file_path() {
        Err(()) => None,
        Ok(path) => match camino::Utf8PathBuf::from_path_buf(path) {
            Ok(root) => Some(Some(root.into_string())),
            Err(_) => Some(None),
        },
    }
}

} // verus!
