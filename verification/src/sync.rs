//! Conservative dependency-version synchronization: planning the edits of
//! plain-string declarations and applying them one manifest text at a time.

use vstd::prelude::*;

use crate::baseline::{ProfileRules, ProfileRulesView};
use crate::diagnostic::{plain_violation, violation_views, Violation, ViolationView};
use crate::error::{PolicyError, PolicyErrorView};
use crate::manifest::{
    replaced_entry, toml_dependency_entry, toml_parse_outcome, toml_replace_dependency, Declaration, Manifest,
    Replacement,
};
use crate::paths::{adjoined, join_path, verbatim};
use crate::text::{join3, join4};
use crate::versions::semver_req_text;

verus! {

/// A planned replacement in a manifest.
#[derive(Debug, Clone, PartialEq, Eq)]
pub struct FileEdit {
    /// Manifest path.
    pub path: String,
    /// Dependency name.
    pub dependency: String,
    /// Existing requirement.
    pub old: String,
    /// Baseline requirement.
    pub new: String,
}

/// The mathematical value of a [`FileEdit`].
pub struct FileEditView {
    pub path: Seq<char>,
    pub dependency: Seq<char>,
    pub old: Seq<char>,
    pub new: Seq<char>,
}

impl View for FileEdit {
    type V = FileEditView;

    open spec fn view(&self) -> FileEditView {
        FileEditView { path: self.path@, dependency: self.dependency@, old: self.old@, new: self.new@ }
    }
}

/// A lockfile update requested after manifest synchronization.
#[derive(Debug, Clone, PartialEq, Eq)]
pub struct LockUpdate {
    /// Package name.
    pub package: String,
    /// Requested version requirement.
    pub version: String,
}

/// The mathematical value of a [`LockUpdate`].
pub struct LockUpdateView {
    pub package: Seq<char>,
    pub version: Seq<char>,
}

impl View for LockUpdate {
    type V = LockUpdateView;

    open spec fn view(&self) -> LockUpdateView {
        LockUpdateView { package: self.package@, version: self.version@ }
    }
}

/// Safe edits, and changes left for a person to make.
#[derive(Debug, Clone, PartialEq, Eq)]
pub struct SyncPlan {
    /// Mechanical manifest edits.
    pub manifest_edits: Vec<FileEdit>,
    /// Associated lockfile updates.
    pub lock_updates: Vec<LockUpdate>,
    /// Changes that must not be automated.
    pub blocked: Vec<Violation>,
}

/// The mathematical value of a [`SyncPlan`].
pub struct SyncPlanView {
    pub manifest_edits: Seq<FileEditView>,
    pub lock_updates: Seq<LockUpdateView>,
    pub blocked: Seq<ViolationView>,
}

impl View for SyncPlan {
    type V = SyncPlanView;

    open spec fn view(&self) -> SyncPlanView {
        SyncPlanView {
            manifest_edits: self.manifest_edits@.map_values(|e: FileEdit| e@),
            lock_updates: self.lock_updates@.map_values(|u: LockUpdate| u@),
            blocked: violation_views(self.blocked@),
        }
    }
}

/// The message of a declaration that synchronization must not touch.
pub open spec fn not_plain_message() -> Seq<char> {
    "dependency declaration is not a plain version string"@
}

/// What one direct rule adds to a plan: for a plain-string declaration that
/// differs from the baseline's rendered requirement, an edit and a lock
/// update; for any other declaration, a DP301 blocked change; nothing when the
/// manifest does not declare the dependency.
pub open spec fn plan_step(
    plan: SyncPlanView,
    path: Seq<char>,
    manifest: Seq<char>,
    name: Seq<char>,
    required: Seq<char>,
) -> SyncPlanView {
    match toml_dependency_entry(manifest, name) {
        None => plan,
        Some(Some(old)) => if old != semver_req_text(required) {
            SyncPlanView {
                manifest_edits: plan.manifest_edits.push(
                    FileEditView { path, dependency: name, old, new: semver_req_text(required) },
                ),
                lock_updates: plan.lock_updates.push(
                    LockUpdateView { package: name, version: semver_req_text(required) },
                ),
                blocked: plan.blocked,
            }
        } else {
            plan
        },
        Some(None) => SyncPlanView {
            manifest_edits: plan.manifest_edits,
            lock_updates: plan.lock_updates,
            blocked: plan.blocked.push(plain_violation("DP301"@, name, not_plain_message())),
        },
    }
}

/// The plan for the first `n` direct rules, taken in ascending name order.
pub open spec fn planned(path: Seq<char>, manifest: Seq<char>, rules: ProfileRulesView, n: int) -> SyncPlanView
    decreases n,
{
    if n <= 0 {
        SyncPlanView { manifest_edits: seq![], lock_updates: seq![], blocked: seq![] }
    } else {
        plan_step(
            planned(path, manifest, rules, n - 1),
            path,
            manifest,
            rules.direct_keys[n - 1],
            rules.direct_values[n - 1],
        )
    }
}

/// The view of the outcome of reading a file: its text or the rendered error.
pub open spec fn read_outcome(r: Result<String, String>) -> Result<Seq<char>, Seq<char>> {
    match r {
        Ok(t) => Ok(t@),
        Err(e) => Err(e@),
    }
}

/// What planning yields for the manifest at `path` given the outcome of
/// reading it: a read or parse failure, or the plan over all direct rules.
pub open spec fn sync_plan_outcome(
    path: Seq<char>,
    source: Result<Seq<char>, Seq<char>>,
    rules: ProfileRulesView,
) -> Result<SyncPlanView, PolicyErrorView> {
    match source {
        Err(e) => Err(PolicyErrorView::Sync { message: "failed to read "@ + path + ": "@ + e }),
        Ok(text) => match toml_parse_outcome(text) {
            Err(e) => Err(PolicyErrorView::Sync { message: "failed to parse "@ + path + ": "@ + e }),
            Ok(_) => Ok(planned(path, text, rules, rules.direct_keys.len() as int)),
        },
    }
}

/// The view of the outcome of planning.
pub open spec fn plan_view(r: Result<SyncPlan, PolicyError>) -> Result<SyncPlanView, PolicyErrorView> {
    match r {
        Ok(p) => Ok(p@),
        Err(e) => Err(e@),
    }
}

/// The manifest of the project at `project`: `Cargo.toml` adjoined to the
/// project path, with the platform's separator where one is needed.
pub fn manifest_path(project: &str) -> (p: String)
    ensures
        !verbatim(project@) ==> adjoined(project@, "Cargo.toml"@, p@),
{
    proof {
        reveal_strlit("Cargo.toml");
        assert(!"Cargo.toml"@.contains(':'));
    }
    join_path(project, "Cargo.toml")
}

/// Plans safe direct-dependency version replacements for the manifest at
/// `manifest_path`, given the outcome of reading it.
pub fn plan_sync(manifest_path: &str, source: Result<String, String>, rules: &ProfileRules) -> (r: Result<
    SyncPlan,
    PolicyError,
>)
    ensures
        plan_view(r) == sync_plan_outcome(manifest_path@, read_outcome(source), rules@),
{
    let text = match source {
        Ok(text) => text,
        Err(error) => {
            return Err(
                PolicyError::Sync {
                    message: join4("failed to read ", manifest_path, ": ", error.as_str()),
                },
            );
        },
    };
    let manifest = match Manifest::parse(text.as_str()) {
        Ok(m) => m,
        Err(error) => {
            return Err(
                PolicyError::Sync {
                    message: join4("failed to parse ", manifest_path, ": ", error.as_str()),
                },
            );
        },
    };
    let mut plan = SyncPlan { manifest_edits: Vec::new(), lock_updates: Vec::new(), blocked: Vec::new() };
    proof {
        assert(plan@.manifest_edits =~= Seq::<FileEditView>::empty());
        assert(plan@.lock_updates =~= Seq::<LockUpdateView>::empty());
        assert(plan@.blocked =~= Seq::<ViolationView>::empty());
    }
    let n = rules.direct.len();
    let mut i: usize = 0;
    while i < n
        invariant
            n == rules@.direct_keys.len(),
            n == rules@.direct_values.len(),
            manifest@ == text@,
            i <= n,
            plan@ == planned(manifest_path@, text@, rules@, i as int),
        decreases n - i,
    {
        let name = rules.direct.key_at(i);
        let rule = rules.direct.value_at(i);
        let ghost before = plan@;
        match manifest.dependency(name.as_str()) {
            Declaration::PlainString(old) => {
                let new = rule.requirement.render();
                if old != new {
                    plan.manifest_edits.push(
                        FileEdit {
                            path: String::from_str(manifest_path),
                            dependency: name.clone(),
                            old,
                            new: new.clone(),
                        },
                    );
                    plan.lock_updates.push(LockUpdate { package: name.clone(), version: new });
                    assert(plan@.manifest_edits =~= before.manifest_edits.push(plan.manifest_edits@.last()@));
                    assert(plan@.lock_updates =~= before.lock_updates.push(plan.lock_updates@.last()@));
                }
            },
            Declaration::Other => {
                plan.blocked.push(
                    Violation {
                        code: "DP301",
                        crate_name: name.clone(),
                        message: String::from_str("dependency declaration is not a plain version string"),
                        exception_id: None,
                    },
                );
                assert(plan@.blocked =~= before.blocked.push(plan.blocked@.last()@));
            },
            Declaration::Absent => {},
        }
        i = i + 1;
    }
    Ok(plan)
}

/// The error for a plan that holds blocked changes.
pub open spec fn blocked_plan() -> PolicyErrorView {
    PolicyErrorView::Sync { message: "sync plan contains blocked edits"@ }
}

/// A plan may be applied only when it blocks nothing.
pub fn ensure_applicable(plan: &SyncPlan) -> (r: Result<(), PolicyError>)
    ensures
        plan.blocked@.len() != 0 ==> (r matches Err(e) && e@ == blocked_plan()),
        plan.blocked@.len() == 0 ==> r is Ok,
{
    if plan.blocked.len() != 0 {
        return Err(PolicyError::Sync { message: String::from_str("sync plan contains blocked edits") });
    }
    Ok(())
}

/// What applying an edit to the current manifest text yields: a read or parse
/// failure, an error when the dependency table or a plain-string entry is
/// gone, else the edited manifest text.
pub open spec fn edit_outcome(edit: FileEditView, source: Result<Seq<char>, Seq<char>>) -> Result<
    Seq<char>,
    PolicyErrorView,
> {
    match source {
        Err(e) => Err(PolicyErrorView::Sync { message: "failed to read "@ + edit.path + ": "@ + e }),
        Ok(text) => match toml_parse_outcome(text) {
            Err(e) => Err(PolicyErrorView::Sync { message: "failed to parse "@ + edit.path + ": "@ + e }),
            Ok(_) => match toml_replace_dependency(text, edit.dependency, edit.new) {
                None => Err(PolicyErrorView::Sync { message: "dependency "@ + edit.dependency + " disappeared"@ }),
                Some(None) => Err(
                    PolicyErrorView::Sync { message: "dependency "@ + edit.dependency + " is no longer a string"@ },
                ),
                Some(Some(t)) => Ok(t),
            },
        },
    }
}

/// The view of an outcome that is a text or an error.
pub open spec fn text_view(r: Result<String, PolicyError>) -> Result<Seq<char>, PolicyErrorView> {
    match r {
        Ok(t) => Ok(t@),
        Err(e) => Err(e@),
    }
}

/// Applies one planned edit to the manifest text read from its path (given as
/// the outcome of reading it), returning the text to write back. A readable
/// manifest that declares the dependency as a plain string is always edited;
/// the edited text declares it as the edit's new requirement and keeps every
/// other root dependency entry.
pub fn apply_edit(edit: &FileEdit, source: Result<String, String>) -> (r: Result<String, PolicyError>)
    ensures
        text_view(r) == edit_outcome(edit@, read_outcome(source)),
        source matches Ok(text) && toml_parse_outcome(text@) is Ok && (toml_dependency_entry(
            text@,
            edit.dependency@,
        ) matches Some(Some(_))) ==> r is Ok,
        source matches Ok(text) ==> (r matches Ok(t) ==> replaced_entry(
            text@,
            edit.dependency@,
            edit.new@,
            t@,
        )),
{
    let text = match source {
        Ok(text) => text,
        Err(error) => {
            return Err(
                PolicyError::Sync { message: join4("failed to read ", edit.path.as_str(), ": ", error.as_str()) },
            );
        },
    };
    let manifest = match Manifest::parse(text.as_str()) {
        Ok(m) => m,
        Err(error) => {
            return Err(
                PolicyError::Sync { message: join4("failed to parse ", edit.path.as_str(), ": ", error.as_str()) },
            );
        },
    };
    match manifest.replace_dependency(edit.dependency.as_str(), edit.new.as_str()) {
        Replacement::NoTable => Err(
            PolicyError::Sync { message: join3("dependency ", edit.dependency.as_str(), " disappeared") },
        ),
        Replacement::NotString => Err(
            PolicyError::Sync {
                message: join3("dependency ", edit.dependency.as_str(), " is no longer a string"),
            },
        ),
        Replacement::Replaced(t) => Ok(t),
    }
}

/// The error for a manifest that could not be written back.
pub fn write_failure(path: &str, error: &str) -> (e: PolicyError)
    ensures
        e@ == (PolicyErrorView::Sync { message: "failed to write "@ + path@ + ": "@ + error@ }),
{
    PolicyError::Sync { message: join4("failed to write ", path, ": ", error) }
}

} // verus!
