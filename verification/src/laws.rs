//! Properties of the library that span several functions.

use vstd::prelude::*;

use crate::baseline::ProfileRulesView;
use crate::cargo::{missing_lockfile, DependencyView, MetadataView, PackageView};
use crate::config::Profile;
use crate::diagnostic::{plain_violation, ViolationView};
use crate::keyed_map::{keys_ascending, lookup};
use crate::manifest::{replaced_entry, same_document, toml_document_apart, toml_dependency_entry, toml_parse_outcome};
use crate::report::{markdown, violation_lines};
use crate::rules::{
    denied, deny_violations, direct_violations, drift_message, evaluation_outcome, forbidden_message,
    has_version_change, resolved_violations, single_version_violations, versions_named, EvaluationView,
};
use crate::sync::{not_plain_message, plan_step, planned, FileEditView, SyncPlanView};
use crate::text::{key_lt, lemma_key_order};
use crate::versions::{semver_req_equal, semver_req_matches, semver_req_text};

verus! {

/// A sync plan pairs each manifest edit with a lock update for the same
/// package and requirement; every edit names the planned manifest, replaces a
/// plain-string declaration that the manifest holds by the baseline's rendered
/// requirement for that dependency, and changes it; every blocked change is a
/// DP301 for a dependency that the manifest declares other than as a plain string.
pub proof fn law_plan_edits_are_safe(path: Seq<char>, manifest: Seq<char>, rules: ProfileRulesView, n: int)
    requires
        keys_ascending(rules.direct_keys),
        rules.direct_keys.len() == rules.direct_values.len(),
        0 <= n <= rules.direct_keys.len(),
    ensures
        ({
            let p = planned(path, manifest, rules, n);
            &&& p.manifest_edits.len() == p.lock_updates.len()
            &&& forall|i: int|
                0 <= i < p.manifest_edits.len() ==> {
                    let e = #[trigger] p.manifest_edits[i];
                    &&& e.path == path
                    &&& e.dependency == p.lock_updates[i].package
                    &&& e.new == p.lock_updates[i].version
                    &&& e.old != e.new
                    &&& toml_dependency_entry(manifest, e.dependency) == Some(Some(e.old))
                    &&& rules.direct_rule(e.dependency) matches Some(required) && e.new
                        == semver_req_text(required)
                }
            &&& forall|i: int|
                0 <= i < p.blocked.len() ==> {
                    let b = #[trigger] p.blocked[i];
                    &&& b.code == "DP301"@
                    &&& toml_dependency_entry(manifest, b.crate_name) == Some(None::<Seq<char>>)
                    &&& rules.direct_rule(b.crate_name) is Some
                }
        }),
    decreases n,
{
    if n > 0 {
        law_plan_edits_are_safe(path, manifest, rules, n - 1);
        lemma_lookup_at_rules(rules.direct_keys, rules.direct_values, n - 1);
        let prev = planned(path, manifest, rules, n - 1);
        let p = planned(path, manifest, rules, n);
        assert forall|i: int| 0 <= i < p.manifest_edits.len() implies {
            let e = #[trigger] p.manifest_edits[i];
            &&& e.path == path
            &&& e.dependency == p.lock_updates[i].package
            &&& e.new == p.lock_updates[i].version
            &&& e.old != e.new
            &&& toml_dependency_entry(manifest, e.dependency) == Some(Some(e.old))
            &&& rules.direct_rule(e.dependency) matches Some(required) && e.new == semver_req_text(required)
        } by {
            if i < prev.manifest_edits.len() {
                assert(p.manifest_edits[i] == prev.manifest_edits[i]);
                assert(p.lock_updates[i] == prev.lock_updates[i]);
            }
        }
        assert forall|i: int| 0 <= i < p.blocked.len() implies {
            let b = #[trigger] p.blocked[i];
            &&& b.code == "DP301"@
            &&& toml_dependency_entry(manifest, b.crate_name) == Some(None::<Seq<char>>)
            &&& rules.direct_rule(b.crate_name) is Some
        } by {
            if i < prev.blocked.len() {
                assert(p.blocked[i] == prev.blocked[i]);
            }
        }
    }
}

/// Once a dependency declares the baseline's rendered requirement as a plain
/// string (as an applied edit leaves it), planning adds nothing for it: a
/// synchronized dependency needs no further synchronization.
pub proof fn law_synchronized_dependency_is_settled(
    plan: SyncPlanView,
    path: Seq<char>,
    manifest: Seq<char>,
    name: Seq<char>,
    required: Seq<char>,
)
    requires
        toml_dependency_entry(manifest, name) == Some(Some(semver_req_text(required))),
    ensures
        plan_step(plan, path, manifest, name, required) == plan,
{
}

/// An application that Cargo cannot describe because it has no lockfile is
/// reported as a single DP201 violation, with no resolved packages.
pub proof fn law_missing_lockfile_is_reported(
    project_name: Seq<char>,
    project: Seq<char>,
    rules: ProfileRulesView,
)
    ensures
        evaluation_outcome(project_name, Profile::Application, Some(rules), Err(missing_lockfile(project)))
            == Ok::<EvaluationView, crate::error::PolicyErrorView>(
            EvaluationView {
                violations: seq![
                    plain_violation(
                        "DP201"@,
                        project_name,
                        "application "@ + project + " has no Cargo.lock"@,
                    ),
                ],
                packages: seq![],
            },
        ),
{
}

proof fn lemma_single_version_names(pkgs: Seq<PackageView>, rules: ProfileRulesView, n: int)
    requires
        0 <= n <= rules.resolved_keys.len(),
        rules.resolved_keys.len() == rules.resolved_values.len(),
    ensures
        forall|i: int|
            0 <= i < single_version_violations(pkgs, rules, n).len() ==> exists|k: int|
                0 <= k < n && (#[trigger] single_version_violations(pkgs, rules, n)[i]).crate_name
                    == rules.resolved_keys[k],
    decreases n,
{
    if n > 0 {
        lemma_single_version_names(pkgs, rules, n - 1);
        let prev = single_version_violations(pkgs, rules, n - 1);
        let vs = single_version_violations(pkgs, rules, n);
        assert forall|i: int| 0 <= i < vs.len() implies exists|k: int|
            0 <= k < n && (#[trigger] vs[i]).crate_name == rules.resolved_keys[k] by {
            if i < prev.len() {
                assert(vs[i] == prev[i]);
                let k = choose|k: int| 0 <= k < n - 1 && prev[i].crate_name == rules.resolved_keys[k];
                assert(0 <= k < n && vs[i].crate_name == rules.resolved_keys[k]);
            } else {
                assert(vs[i].crate_name == rules.resolved_keys[n - 1]);
            }
        }
    }
}

/// DP205 violations are all single-version violations, one per package name,
/// in ascending name order (the order in which the baseline keeps its rules).
pub proof fn law_single_version_violations_ascend(pkgs: Seq<PackageView>, rules: ProfileRulesView, n: int)
    requires
        keys_ascending(rules.resolved_keys),
        rules.resolved_keys.len() == rules.resolved_values.len(),
        0 <= n <= rules.resolved_keys.len(),
    ensures
        forall|i: int|
            0 <= i < single_version_violations(pkgs, rules, n).len() ==> (#[trigger] single_version_violations(
                pkgs,
                rules,
                n,
            )[i]).code == "DP205"@,
        forall|i: int, j: int|
            0 <= i < j < single_version_violations(pkgs, rules, n).len() ==> key_lt(
                (#[trigger] single_version_violations(pkgs, rules, n)[i]).crate_name,
                (#[trigger] single_version_violations(pkgs, rules, n)[j]).crate_name,
            ),
    decreases n,
{
    if n > 0 {
        law_single_version_violations_ascend(pkgs, rules, n - 1);
        lemma_single_version_names(pkgs, rules, n - 1);
        let prev = single_version_violations(pkgs, rules, n - 1);
        let vs = single_version_violations(pkgs, rules, n);
        assert forall|i: int| 0 <= i < vs.len() implies (#[trigger] vs[i]).code == "DP205"@ by {
            if i < prev.len() {
                assert(vs[i] == prev[i]);
            }
        }
        assert forall|i: int, j: int| 0 <= i < j < vs.len() implies key_lt(
            (#[trigger] vs[i]).crate_name,
            (#[trigger] vs[j]).crate_name,
        ) by {
            assert(vs[i] == prev[i]);
            if j < prev.len() {
                assert(vs[j] == prev[j]);
            } else {
                let k = choose|k: int| 0 <= k < n - 1 && prev[i].crate_name == rules.resolved_keys[k];
                assert(vs[j].crate_name == rules.resolved_keys[n - 1]);
                assert(key_lt(rules.resolved_keys[k], rules.resolved_keys[n - 1]));
            }
        }
    }
}

/// A Markdown report says "No violations found." exactly when it lists no
/// violations.
pub proof fn law_markdown_reports_no_violations_only_when_clean(
    name: Seq<char>,
    revision: Seq<char>,
    vs: Seq<ViolationView>,
)
    ensures
        (markdown(name, revision, vs) == "# Dependency Policy Report\n\n- Baseline: ~"@ + name
            + "~\n- Revision: ~"@ + revision + "~\n\n"@ + "No violations found.\n"@) <==> vs.len()
            == 0,
{
    let head = "# Dependency Policy Report\n\n- Baseline: ~"@ + name + "~\n- Revision: ~"@ + revision
        + "~\n\n"@;
    if vs.len() != 0 {
        let listed = "## Violations\n\n"@ + violation_lines(vs);
        let clean = "No violations found.\n"@;
        reveal_strlit("## Violations\n\n");
        reveal_strlit("No violations found.\n");
        if head + listed == head + clean {
            assert((head + listed)[head.len() as int] == listed[0]);
            assert((head + clean)[head.len() as int] == clean[0]);
            assert(listed[0] == '#');
            assert(clean[0] == 'N');
        }
    }
}

/// Whether the `j`-th resolved rule asks for a single version that the graph breaks.
pub open spec fn breaks_single_version(pkgs: Seq<PackageView>, rules: ProfileRulesView, j: int) -> bool {
    rules.resolved_values[j].single_version && has_version_change(
        versions_named(pkgs, rules.resolved_keys[j]),
    )
}

/// Whether one of the violations names `name`.
pub open spec fn names(vs: Seq<ViolationView>, name: Seq<char>) -> bool {
    exists|i: int| 0 <= i < vs.len() && (#[trigger] vs[i]).crate_name == name
}

/// Whether one of the first `k` resolved rules is for `name` and broken.
pub open spec fn broken_among(pkgs: Seq<PackageView>, rules: ProfileRulesView, k: int, name: Seq<char>) -> bool {
    exists|j: int| 0 <= j < k && rules.resolved_keys[j] == name && #[trigger] breaks_single_version(pkgs, rules, j)
}

proof fn lemma_single_version_membership(pkgs: Seq<PackageView>, rules: ProfileRulesView, k: int)
    requires
        0 <= k <= rules.resolved_keys.len(),
        rules.resolved_keys.len() == rules.resolved_values.len(),
    ensures
        forall|n: Seq<char>|
            #[trigger] names(single_version_violations(pkgs, rules, k), n) <==> broken_among(pkgs, rules, k, n),
    decreases k,
{
    if k > 0 {
        lemma_single_version_membership(pkgs, rules, k - 1);
        let prev = single_version_violations(pkgs, rules, k - 1);
        let vs = single_version_violations(pkgs, rules, k);
        assert forall|n: Seq<char>| #[trigger] names(vs, n) <==> broken_among(pkgs, rules, k, n) by {
            assert(names(prev, n) <==> broken_among(pkgs, rules, k - 1, n));
            if names(vs, n) {
                let i = choose|i: int| 0 <= i < vs.len() && (#[trigger] vs[i]).crate_name == n;
                if i < prev.len() {
                    assert(vs[i] == prev[i]);
                    assert(names(prev, n));
                    let j = choose|j: int| 0 <= j < k - 1 && rules.resolved_keys[j] == n && #[trigger] breaks_single_version(pkgs, rules, j);
                    assert(0 <= j < k && rules.resolved_keys[j] == n && breaks_single_version(pkgs, rules, j));
                } else {
                    assert(breaks_single_version(pkgs, rules, k - 1));
                }
            }
            if broken_among(pkgs, rules, k, n) {
                let j = choose|j: int| 0 <= j < k && rules.resolved_keys[j] == n && #[trigger] breaks_single_version(pkgs, rules, j);
                if j < k - 1 {
                    assert(broken_among(pkgs, rules, k - 1, n));
                    let i = choose|i: int| 0 <= i < prev.len() && (#[trigger] prev[i]).crate_name == n;
                    assert(vs[i] == prev[i]);
                } else {
                    assert(vs[prev.len() as int].crate_name == n);
                }
            }
        }
    }
}

/// A package name gets a DP205 violation exactly when the profile has a
/// `single_version` rule for it and two neighbouring resolved versions of the
/// package differ.
pub proof fn law_single_version_violation_iff_versions_differ(
    pkgs: Seq<PackageView>,
    rules: ProfileRulesView,
    name: Seq<char>,
)
    requires
        keys_ascending(rules.resolved_keys),
        rules.resolved_keys.len() == rules.resolved_values.len(),
    ensures
        names(single_version_violations(pkgs, rules, rules.resolved_keys.len() as int), name) <==> (
        rules.resolved_rule(name) matches Some(rule) && rule.single_version && has_version_change(
            versions_named(pkgs, name),
        )),
{
    let k = rules.resolved_keys.len() as int;
    lemma_single_version_membership(pkgs, rules, k);
    assert(names(single_version_violations(pkgs, rules, k), name) <==> broken_among(pkgs, rules, k, name));
    if rules.resolved_keys.contains(name) {
        let j = rules.resolved_keys.index_of(name);
        lemma_lookup_at_rules(rules.resolved_keys, rules.resolved_values, j);
        if broken_among(pkgs, rules, k, name) {
            let j2 = choose|j2: int| 0 <= j2 < k && rules.resolved_keys[j2] == name && #[trigger] breaks_single_version(pkgs, rules, j2);
            if j2 != j {
                if j2 < j {
                    lemma_key_order(rules.resolved_keys[j2], rules.resolved_keys[j], name);
                } else {
                    lemma_key_order(rules.resolved_keys[j], rules.resolved_keys[j2], name);
                }
            }
        }
        if rules.resolved_values[j].single_version && has_version_change(versions_named(pkgs, name)) {
            assert(breaks_single_version(pkgs, rules, j));
        }
    } else {
        if broken_among(pkgs, rules, k, name) {
            let j2 = choose|j2: int| 0 <= j2 < k && rules.resolved_keys[j2] == name && #[trigger] breaks_single_version(pkgs, rules, j2);
            assert(rules.resolved_keys.contains(name));
        }
    }
}

proof fn lemma_lookup_at_rules<V>(keys: Seq<Seq<char>>, values: Seq<V>, k: int)
    requires
        keys_ascending(keys),
        0 <= k < keys.len(),
    ensures
        lookup(keys, values, keys[k]) == Some(values[k]),
{
    assert(keys.contains(keys[k]));
    let j = keys.index_of(keys[k]);
    if j != k {
        if j < k {
            lemma_key_order(keys[j], keys[k], keys[k]);
        } else {
            lemma_key_order(keys[k], keys[j], keys[k]);
        }
    }
}

proof fn lemma_edit_names_a_key(path: Seq<char>, manifest: Seq<char>, rules: ProfileRulesView, n: int)
    requires
        rules.direct_keys.len() == rules.direct_values.len(),
        0 <= n <= rules.direct_keys.len(),
    ensures
        forall|i: int|
            0 <= i < planned(path, manifest, rules, n).manifest_edits.len() ==> exists|k: int|
                0 <= k < n && (#[trigger] planned(path, manifest, rules, n).manifest_edits[i]).dependency
                    == rules.direct_keys[k],
    decreases n,
{
    if n > 0 {
        lemma_edit_names_a_key(path, manifest, rules, n - 1);
        let prev = planned(path, manifest, rules, n - 1).manifest_edits;
        let es = planned(path, manifest, rules, n).manifest_edits;
        assert forall|i: int| 0 <= i < es.len() implies exists|k: int|
            0 <= k < n && (#[trigger] es[i]).dependency == rules.direct_keys[k] by {
            if i < prev.len() {
                assert(es[i] == prev[i]);
                let k = choose|k: int| 0 <= k < n - 1 && prev[i].dependency == rules.direct_keys[k];
                assert(0 <= k < n && es[i].dependency == rules.direct_keys[k]);
            } else {
                assert(es[i].dependency == rules.direct_keys[n - 1]);
            }
        }
    }
}

/// The edits of a sync plan name distinct dependencies, in ascending name order.
pub proof fn law_planned_edits_ascend(path: Seq<char>, manifest: Seq<char>, rules: ProfileRulesView, n: int)
    requires
        keys_ascending(rules.direct_keys),
        rules.direct_keys.len() == rules.direct_values.len(),
        0 <= n <= rules.direct_keys.len(),
    ensures
        forall|i: int, j: int|
            0 <= i < j < planned(path, manifest, rules, n).manifest_edits.len() ==> key_lt(
                (#[trigger] planned(path, manifest, rules, n).manifest_edits[i]).dependency,
                (#[trigger] planned(path, manifest, rules, n).manifest_edits[j]).dependency,
            ),
    decreases n,
{
    if n > 0 {
        law_planned_edits_ascend(path, manifest, rules, n - 1);
        lemma_edit_names_a_key(path, manifest, rules, n - 1);
        let prev = planned(path, manifest, rules, n - 1).manifest_edits;
        let es = planned(path, manifest, rules, n).manifest_edits;
        assert forall|i: int, j: int| 0 <= i < j < es.len() implies key_lt(
            (#[trigger] es[i]).dependency,
            (#[trigger] es[j]).dependency,
        ) by {
            assert(es[i] == prev[i]);
            if j < prev.len() {
                assert(es[j] == prev[j]);
            } else {
                let k = choose|k: int| 0 <= k < n - 1 && prev[i].dependency == rules.direct_keys[k];
                assert(es[j].dependency == rules.direct_keys[n - 1]);
                assert(key_lt(rules.direct_keys[k], rules.direct_keys[n - 1]));
            }
        }
    }
}

/// The root dependency entry `name` after the first `i` edits, starting from
/// `base`: the new requirement of the last of those edits that names it, else
/// `base`.
pub open spec fn edited_entry(
    edits: Seq<FileEditView>,
    i: int,
    name: Seq<char>,
    base: Option<Option<Seq<char>>>,
) -> Option<Option<Seq<char>>>
    decreases i,
{
    if i <= 0 {
        base
    } else if edits[i - 1].dependency == name {
        Some(Some(edits[i - 1].new))
    } else {
        edited_entry(edits, i - 1, name, base)
    }
}

/// `texts[i + 1]` is what applying `edits[i]` made of `texts[i]`, as
/// [`crate::sync::apply_edit`] states it, for every edit in turn.
pub open spec fn applied_in_turn(edits: Seq<FileEditView>, texts: Seq<Seq<char>>) -> bool {
    &&& texts.len() == edits.len() + 1
    &&& forall|i: int|
        #![trigger edits[i]]
        0 <= i < edits.len() ==> replaced_entry(texts[i], edits[i].dependency, edits[i].new, texts[i + 1])
}

proof fn lemma_edited_entry_shape(edits: Seq<FileEditView>, i: int, name: Seq<char>, b: Option<Option<Seq<char>>>, c: Option<Option<Seq<char>>>)
    requires
        0 <= i <= edits.len(),
    ensures
        (forall|j: int| 0 <= j < i ==> (#[trigger] edits[j]).dependency != name) ==> edited_entry(edits, i, name, b) == b,
        (exists|j: int| 0 <= j < i && (#[trigger] edits[j]).dependency == name) ==> (exists|j: int|
            0 <= j < i && (#[trigger] edits[j]).dependency == name && edited_entry(edits, i, name, b)
                == Some(Some(edits[j].new))),
        (exists|j: int| 0 <= j < i && (#[trigger] edits[j]).dependency == name) ==> edited_entry(edits, i, name, b)
            == edited_entry(edits, i, name, c),
    decreases i,
{
    if i > 0 {
        lemma_edited_entry_shape(edits, i - 1, name, b, c);
        if edits[i - 1].dependency != name {
            if exists|j: int| 0 <= j < i && (#[trigger] edits[j]).dependency == name {
                let j = choose|j: int| 0 <= j < i && (#[trigger] edits[j]).dependency == name;
                assert(j < i - 1);
                assert(exists|j2: int| 0 <= j2 < i - 1 && (#[trigger] edits[j2]).dependency == name);
            }
        }
    }
}

proof fn lemma_entries_after_edits(edits: Seq<FileEditView>, texts: Seq<Seq<char>>, i: int)
    requires
        applied_in_turn(edits, texts),
        0 <= i <= edits.len(),
    ensures
        forall|k: Seq<char>|
            #[trigger] toml_dependency_entry(texts[i], k) == edited_entry(edits, i, k, toml_dependency_entry(texts[0], k)),
        i > 0 ==> toml_parse_outcome(texts[i]) is Ok,
    decreases i,
{
    if i > 0 {
        lemma_entries_after_edits(edits, texts, i - 1);
        let e = edits[i - 1];
        assert(replaced_entry(texts[i - 1], e.dependency, e.new, texts[i]));
        assert forall|k: Seq<char>|
            #[trigger] toml_dependency_entry(texts[i], k) == edited_entry(edits, i, k, toml_dependency_entry(texts[0], k)) by {
            if k != e.dependency {
                assert(toml_dependency_entry(texts[i], k) == toml_dependency_entry(texts[i - 1], k));
            }
        }
    }
}

proof fn lemma_plan_covers(path: Seq<char>, manifest: Seq<char>, rules: ProfileRulesView, n: int)
    requires
        rules.direct_keys.len() == rules.direct_values.len(),
        0 <= n <= rules.direct_keys.len(),
    ensures
        forall|m: int|
            0 <= m < n && toml_dependency_entry(manifest, #[trigger] rules.direct_keys[m]) == Some(None::<Seq<char>>)
                ==> planned(path, manifest, rules, n).blocked.len() > 0,
        forall|m: int|
            0 <= m < n && (toml_dependency_entry(manifest, #[trigger] rules.direct_keys[m]) matches Some(Some(prior))
                && prior != semver_req_text(rules.direct_values[m])) ==> exists|j: int|
                0 <= j < planned(path, manifest, rules, n).manifest_edits.len() && (#[trigger] planned(
                    path,
                    manifest,
                    rules,
                    n,
                ).manifest_edits[j]).dependency == rules.direct_keys[m],
    decreases n,
{
    if n > 0 {
        lemma_plan_covers(path, manifest, rules, n - 1);
        let prev = planned(path, manifest, rules, n - 1);
        let p = planned(path, manifest, rules, n);
        assert(p.blocked.len() >= prev.blocked.len());
        assert forall|m: int|
            0 <= m < n && (toml_dependency_entry(manifest, #[trigger] rules.direct_keys[m]) matches Some(Some(prior))
                && prior != semver_req_text(rules.direct_values[m])) implies exists|j: int|
                0 <= j < p.manifest_edits.len() && (#[trigger] p.manifest_edits[j]).dependency
                    == rules.direct_keys[m] by {
            if m < n - 1 {
                let j = choose|j: int|
                    0 <= j < prev.manifest_edits.len() && (#[trigger] prev.manifest_edits[j]).dependency
                        == rules.direct_keys[m];
                assert(p.manifest_edits[j] == prev.manifest_edits[j]);
            } else {
                let j = prev.manifest_edits.len() as int;
                assert(p.manifest_edits[j].dependency == rules.direct_keys[m]);
            }
        }
    }
}

/// Applying every edit of a plan that blocks nothing, in turn, to the
/// manifest it was planned for (as `apply_edit` states each step) leaves a
/// manifest that needs no further synchronization: planning it again yields no
/// edit, no lock update and no blocked change.
pub proof fn law_applied_plan_needs_no_further_sync(
    path: Seq<char>,
    rules: ProfileRulesView,
    texts: Seq<Seq<char>>,
)
    requires
        keys_ascending(rules.direct_keys),
        rules.direct_keys.len() == rules.direct_values.len(),
        texts.len() > 0,
        toml_parse_outcome(texts[0]) is Ok,
        planned(path, texts[0], rules, rules.direct_keys.len() as int).blocked.len() == 0,
        applied_in_turn(planned(path, texts[0], rules, rules.direct_keys.len() as int).manifest_edits, texts),
    ensures
        toml_parse_outcome(texts.last()) is Ok,
        planned(path, texts.last(), rules, rules.direct_keys.len() as int) == (SyncPlanView {
            manifest_edits: seq![],
            lock_updates: seq![],
            blocked: seq![],
        }),
{
    let nk = rules.direct_keys.len() as int;
    let plan = planned(path, texts[0], rules, nk);
    let edits = plan.manifest_edits;
    let e = edits.len() as int;
    let last = texts[e];
    law_plan_edits_are_safe(path, texts[0], rules, nk);
    lemma_entries_after_edits(edits, texts, e);
    lemma_plan_covers(path, texts[0], rules, nk);
    let empty = SyncPlanView { manifest_edits: seq![], lock_updates: seq![], blocked: seq![] };
    assert forall|m: int| 0 <= m < nk implies #[trigger] plan_step(
        empty,
        path,
        last,
        rules.direct_keys[m],
        rules.direct_values[m],
    ) == empty by {
        let k = rules.direct_keys[m];
        let req = rules.direct_values[m];
        let base = toml_dependency_entry(texts[0], k);
        lemma_lookup_at_rules(rules.direct_keys, rules.direct_values, m);
        lemma_edited_entry_shape(edits, e, k, base, base);
        assert(toml_dependency_entry(last, k) == edited_entry(edits, e, k, base));
        if exists|j: int| 0 <= j < e && (#[trigger] edits[j]).dependency == k {
            let j = choose|j: int|
                0 <= j < e && (#[trigger] edits[j]).dependency == k && edited_entry(edits, e, k, base)
                    == Some(Some(edits[j].new));
            assert(edits[j].new == semver_req_text(req));
        } else {
            assert(toml_dependency_entry(last, k) == base);
            if base == Some(None::<Seq<char>>) {
                assert(plan.blocked.len() > 0);
            }
            if let Some(Some(prior)) = base {
                if prior != semver_req_text(req) {
                    let j = choose|j: int|
                        0 <= j < edits.len() && (#[trigger] edits[j]).dependency == rules.direct_keys[m];
                    assert(false);
                }
            }
        }
    }
    lemma_nothing_planned(path, last, rules, nk);
    if e == 0 {
        assert(last == texts[0]);
    }
}

proof fn lemma_nothing_planned(path: Seq<char>, manifest: Seq<char>, rules: ProfileRulesView, n: int)
    requires
        0 <= n <= rules.direct_keys.len(),
        rules.direct_keys.len() == rules.direct_values.len(),
        forall|m: int|
            0 <= m < n ==> #[trigger] plan_step(
                SyncPlanView { manifest_edits: seq![], lock_updates: seq![], blocked: seq![] },
                path,
                manifest,
                rules.direct_keys[m],
                rules.direct_values[m],
            ) == (SyncPlanView { manifest_edits: seq![], lock_updates: seq![], blocked: seq![] }),
    ensures
        planned(path, manifest, rules, n) == (SyncPlanView {
            manifest_edits: seq![],
            lock_updates: seq![],
            blocked: seq![],
        }),
    decreases n,
{
    if n > 0 {
        lemma_nothing_planned(path, manifest, rules, n - 1);
        let m = n - 1;
        assert(plan_step(
            SyncPlanView { manifest_edits: seq![], lock_updates: seq![], blocked: seq![] },
            path,
            manifest,
            rules.direct_keys[m],
            rules.direct_values[m],
        ) == (SyncPlanView { manifest_edits: seq![], lock_updates: seq![], blocked: seq![] }));
    }
}

proof fn lemma_reapplied_prefix(edits: Seq<FileEditView>, first: Seq<Seq<char>>, second: Seq<Seq<char>>, i: int)
    requires
        forall|a: int, b: int|
            0 <= a < b < edits.len() ==> (#[trigger] edits[a]).dependency != (#[trigger] edits[b]).dependency,
        applied_in_turn(edits, first),
        second[0] == first.last(),
        applied_in_turn(edits, second),
        0 <= i <= edits.len(),
    ensures
        same_document(second[i], second[0]),
    decreases i,
{
    if i > 0 {
        let e = edits.len() as int;
        lemma_reapplied_prefix(edits, first, second, i - 1);
        let d = edits[i - 1].dependency;
        let b = toml_dependency_entry(first[0], d);
        lemma_entries_after_edits(edits, first, e);
        lemma_edited_entry_shape(edits, e, d, b, b);
        assert(exists|j: int| 0 <= j < e && (#[trigger] edits[j]).dependency == d);
        let j = choose|j: int|
            0 <= j < e && (#[trigger] edits[j]).dependency == d && edited_entry(edits, e, d, b) == Some(
                Some(edits[j].new),
            );
        assert(j == i - 1);
        assert(toml_dependency_entry(second[i - 1], d) == toml_dependency_entry(second[0], d));
        assert(replaced_entry(second[i - 1], d, edits[i - 1].new, second[i]));
        assert(same_document(second[i], second[i - 1]));
        assert forall|k: Seq<char>| #![auto]
            toml_dependency_entry(second[i], k) == toml_dependency_entry(second[0], k) && toml_document_apart(
                second[i],
                k,
            ) == toml_document_apart(second[0], k) by {
            assert(toml_dependency_entry(second[i], k) == toml_dependency_entry(second[i - 1], k));
            assert(toml_document_apart(second[i], k) == toml_document_apart(second[i - 1], k));
            assert(toml_dependency_entry(second[i - 1], k) == toml_dependency_entry(second[0], k));
            assert(toml_document_apart(second[i - 1], k) == toml_document_apart(second[0], k));
        }
    }
}

/// Applying edits that name distinct dependencies (as the edits of every plan
/// do) a second time, in turn, to what the first application left gives back
/// the same document: every root dependency entry and everything outside it
/// reads as it did. Every step of the second application meets a plain-string
/// entry, so `apply_edit` succeeds on it.
pub proof fn law_reapplying_edits_keeps_the_document(
    edits: Seq<FileEditView>,
    first: Seq<Seq<char>>,
    second: Seq<Seq<char>>,
)
    requires
        forall|a: int, b: int|
            0 <= a < b < edits.len() ==> (#[trigger] edits[a]).dependency != (#[trigger] edits[b]).dependency,
        applied_in_turn(edits, first),
        second.len() > 0,
        second[0] == first.last(),
        applied_in_turn(edits, second),
    ensures
        same_document(second.last(), first.last()),
        forall|i: int|
            0 <= i < edits.len() ==> (toml_dependency_entry(second[i], (#[trigger] edits[i]).dependency) matches Some(
                Some(_),
            )),
{
    let e = edits.len() as int;
    lemma_reapplied_prefix(edits, first, second, e);
    lemma_entries_after_edits(edits, first, e);
    assert forall|i: int| 0 <= i < edits.len() implies (toml_dependency_entry(
        second[i],
        (#[trigger] edits[i]).dependency,
    ) matches Some(Some(_))) by {
        let k = edits[i].dependency;
        let b = toml_dependency_entry(first[0], k);
        lemma_edited_entry_shape(edits, e, k, b, b);
        assert(exists|j: int| 0 <= j < e && (#[trigger] edits[j]).dependency == k);
        lemma_reapplied_prefix(edits, first, second, i);
        assert(toml_dependency_entry(second[i], k) == toml_dependency_entry(second[0], k));
    }
}


proof fn lemma_direct_violations(deps: Seq<DependencyView>, rules: ProfileRulesView)
    ensures
        forall|i: int|
            0 <= i < deps.len() ==> (rules.direct_rule((#[trigger] deps[i]).name) matches Some(req) ==> (
            !semver_req_equal(deps[i].requirement, req) ==> direct_violations(deps, rules).contains(
                plain_violation("DP202"@, deps[i].name, drift_message(deps[i].requirement, req)),
            ))),
        forall|v: ViolationView|
            #[trigger] direct_violations(deps, rules).contains(v) ==> exists|i: int|
                0 <= i < deps.len() && (rules.direct_rule((#[trigger] deps[i]).name) matches Some(req)
                    && !semver_req_equal(deps[i].requirement, req) && v == plain_violation(
                    "DP202"@,
                    deps[i].name,
                    drift_message(deps[i].requirement, req),
                )),
    decreases deps.len(),
{
    if deps.len() > 0 {
        let pre = deps.drop_last();
        lemma_direct_violations(pre, rules);
        let prev = direct_violations(pre, rules);
        let cur = direct_violations(deps, rules);
        let last = deps.len() - 1;
        assert(cur.len() >= prev.len());
        assert(forall|k: int| 0 <= k < prev.len() ==> cur[k] == prev[k]);
        assert forall|i: int|
            0 <= i < deps.len() implies (rules.direct_rule((#[trigger] deps[i]).name) matches Some(req) ==> (
            !semver_req_equal(deps[i].requirement, req) ==> cur.contains(
                plain_violation("DP202"@, deps[i].name, drift_message(deps[i].requirement, req)),
            ))) by {
            if let Some(req) = rules.direct_rule(deps[i].name) {
                if !semver_req_equal(deps[i].requirement, req) {
                    let w = plain_violation("DP202"@, deps[i].name, drift_message(deps[i].requirement, req));
                    if i < last {
                        assert(pre[i] == deps[i]);
                        assert(prev.contains(w));
                        let k = choose|k: int| 0 <= k < prev.len() && prev[k] == w;
                        assert(cur[k] == w);
                    } else {
                        assert(cur[prev.len() as int] == w);
                    }
                }
            }
        }
        assert forall|v: ViolationView| #[trigger] cur.contains(v) implies exists|i: int|
            0 <= i < deps.len() && (rules.direct_rule((#[trigger] deps[i]).name) matches Some(req)
                && !semver_req_equal(deps[i].requirement, req) && v == plain_violation(
                "DP202"@,
                deps[i].name,
                drift_message(deps[i].requirement, req),
            )) by {
            let k = choose|k: int| 0 <= k < cur.len() && cur[k] == v;
            if k < prev.len() {
                assert(prev.contains(v));
                let i = choose|i: int|
                    0 <= i < pre.len() && (rules.direct_rule((#[trigger] pre[i]).name) matches Some(req)
                        && !semver_req_equal(pre[i].requirement, req) && v == plain_violation(
                        "DP202"@,
                        pre[i].name,
                        drift_message(pre[i].requirement, req),
                    ));
                assert(pre[i] == deps[i]);
            } else {
                assert(deps[last] == deps.last());
            }
        }
    }
}

proof fn lemma_deny_violations(pkgs: Seq<PackageView>, rules: ProfileRulesView)
    ensures
        forall|i: int, j: int|
            0 <= i < pkgs.len() && rules.resolved_rule(pkgs[i].name) is Some && 0 <= j < rules.resolved_rule(
                pkgs[i].name,
            )->0.deny.len() && #[trigger] semver_req_matches(
                rules.resolved_rule(pkgs[i].name)->0.deny[j],
                pkgs[i].version,
            ) ==> deny_violations(pkgs, rules).contains(
                plain_violation("DP204"@, pkgs[i].name, forbidden_message(pkgs[i].version)),
            ),
        forall|v: ViolationView|
            #[trigger] deny_violations(pkgs, rules).contains(v) ==> exists|i: int, j: int|
                0 <= i < pkgs.len() && rules.resolved_rule(pkgs[i].name) is Some && 0 <= j
                    < rules.resolved_rule(pkgs[i].name)->0.deny.len() && #[trigger] semver_req_matches(
                    rules.resolved_rule(pkgs[i].name)->0.deny[j],
                    pkgs[i].version,
                ) && v == plain_violation("DP204"@, pkgs[i].name, forbidden_message(pkgs[i].version)),
    decreases pkgs.len(),
{
    if pkgs.len() > 0 {
        let pre = pkgs.drop_last();
        lemma_deny_violations(pre, rules);
        let prev = deny_violations(pre, rules);
        let cur = deny_violations(pkgs, rules);
        let last = pkgs.len() - 1;
        assert(cur.len() >= prev.len());
        assert(forall|k: int| 0 <= k < prev.len() ==> cur[k] == prev[k]);
        assert forall|i: int, j: int|
            0 <= i < pkgs.len() && rules.resolved_rule(pkgs[i].name) is Some && 0 <= j < rules.resolved_rule(
                pkgs[i].name,
            )->0.deny.len() && #[trigger] semver_req_matches(
                rules.resolved_rule(pkgs[i].name)->0.deny[j],
                pkgs[i].version,
            ) implies cur.contains(
                plain_violation("DP204"@, pkgs[i].name, forbidden_message(pkgs[i].version)),
            ) by {
            let w = plain_violation("DP204"@, pkgs[i].name, forbidden_message(pkgs[i].version));
            if i < last {
                assert(pre[i] == pkgs[i]);
                assert(prev.contains(w));
                let k = choose|k: int| 0 <= k < prev.len() && prev[k] == w;
                assert(cur[k] == w);
            } else {
                assert(pkgs[i] == pkgs.last());
                assert(denied(rules.resolved_rule(pkgs[i].name)->0.deny, pkgs[i].version));
                assert(cur[prev.len() as int] == w);
            }
        }
        assert forall|v: ViolationView| #[trigger] cur.contains(v) implies exists|i: int, j: int|
            0 <= i < pkgs.len() && rules.resolved_rule(pkgs[i].name) is Some && 0 <= j
                < rules.resolved_rule(pkgs[i].name)->0.deny.len() && #[trigger] semver_req_matches(
                rules.resolved_rule(pkgs[i].name)->0.deny[j],
                pkgs[i].version,
            ) && v == plain_violation("DP204"@, pkgs[i].name, forbidden_message(pkgs[i].version)) by {
            let k = choose|k: int| 0 <= k < cur.len() && cur[k] == v;
            if k < prev.len() {
                assert(prev.contains(v));
                let (i, j) = choose|i: int, j: int|
                    0 <= i < pre.len() && rules.resolved_rule(pre[i].name) is Some && 0 <= j
                        < rules.resolved_rule(pre[i].name)->0.deny.len() && #[trigger] semver_req_matches(
                        rules.resolved_rule(pre[i].name)->0.deny[j],
                        pre[i].version,
                    ) && v == plain_violation("DP204"@, pre[i].name, forbidden_message(pre[i].version));
                assert(pre[i] == pkgs[i]);
            } else {
                let p = pkgs.last();
                assert(pkgs[last] == p);
                let rule = rules.resolved_rule(p.name)->0;
                assert(denied(rule.deny, p.version));
                let j = choose|j: int| 0 <= j < rule.deny.len() && semver_req_matches(#[trigger] rule.deny[j], p.version);
                assert(semver_req_matches(rules.resolved_rule(pkgs[last].name)->0.deny[j], pkgs[last].version));
            }
        }
    }
}

proof fn lemma_violation_codes(deps: Seq<DependencyView>, pkgs: Seq<PackageView>, rules: ProfileRulesView, n: int)
    requires
        0 <= n <= rules.resolved_keys.len(),
    ensures
        forall|v: ViolationView| #[trigger] direct_violations(deps, rules).contains(v) ==> v.code == "DP202"@,
        forall|v: ViolationView| #[trigger] deny_violations(pkgs, rules).contains(v) ==> v.code == "DP204"@,
        forall|v: ViolationView|
            #[trigger] single_version_violations(pkgs, rules, n).contains(v) ==> v.code == "DP205"@,
    decreases n,
{
    lemma_direct_violations(deps, rules);
    lemma_deny_violations(pkgs, rules);
    if n > 0 {
        lemma_violation_codes(deps, pkgs, rules, n - 1);
        let prev = single_version_violations(pkgs, rules, n - 1);
        let cur = single_version_violations(pkgs, rules, n);
        assert forall|v: ViolationView| #[trigger] cur.contains(v) implies v.code == "DP205"@ by {
            let k = choose|k: int| 0 <= k < cur.len() && cur[k] == v;
            if k < prev.len() {
                assert(cur[k] == prev[k]);
                assert(prev.contains(v));
            }
        }
    }
}

proof fn lemma_distinct_codes()
    ensures
        "DP202"@ != "DP204"@,
        "DP202"@ != "DP205"@,
        "DP204"@ != "DP205"@,
{
    reveal_strlit("DP202");
    reveal_strlit("DP204");
    reveal_strlit("DP205");
    assert("DP202"@[4] != "DP204"@[4]);
    assert("DP202"@[4] != "DP205"@[4]);
    assert("DP204"@[4] != "DP205"@[4]);
}

proof fn lemma_in_concat(a: Seq<ViolationView>, b: Seq<ViolationView>)
    ensures
        forall|v: ViolationView| #[trigger] a.contains(v) ==> (a + b).contains(v),
        forall|v: ViolationView| #[trigger] b.contains(v) ==> (a + b).contains(v),
        forall|v: ViolationView| #[trigger] (a + b).contains(v) ==> a.contains(v) || b.contains(v),
{
    assert forall|v: ViolationView| #[trigger] b.contains(v) implies (a + b).contains(v) by {
        let k = choose|k: int| 0 <= k < b.len() && b[k] == v;
        assert((a + b)[a.len() + k] == v);
    }
    assert forall|v: ViolationView| #[trigger] a.contains(v) implies (a + b).contains(v) by {
        let k = choose|k: int| 0 <= k < a.len() && a[k] == v;
        assert((a + b)[k] == v);
    }
    assert forall|v: ViolationView| #[trigger] (a + b).contains(v) implies a.contains(v) || b.contains(v) by {
        let k = choose|k: int| 0 <= k < (a + b).len() && (a + b)[k] == v;
        if k >= a.len() {
            assert(b[k - a.len()] == v);
        }
    }
}

/// Evaluating a project that Cargo describes reports every declared dependency
/// whose profile has a direct rule that its requirement is not equal to (as
/// `semver` compares them) with a DP202 violation naming it, whatever else is
/// declared before or after it; and every DP202 violation reports such a
/// dependency.
pub proof fn law_drifting_requirements_are_reported(
    project_name: Seq<char>,
    profile: Profile,
    rules: ProfileRulesView,
    m: MetadataView,
    deps: Seq<DependencyView>,
)
    requires
        m.root_dependencies == Some(deps),
    ensures
        evaluation_outcome(project_name, profile, Some(rules), Ok(m)) is Ok,
        ({
            let vs = (evaluation_outcome(project_name, profile, Some(rules), Ok(m))->Ok_0).violations;
            &&& forall|i: int|
                0 <= i < deps.len() ==> (rules.direct_rule((#[trigger] deps[i]).name) matches Some(req) ==> (
                !semver_req_equal(deps[i].requirement, req) ==> vs.contains(
                    plain_violation("DP202"@, deps[i].name, drift_message(deps[i].requirement, req)),
                )))
            &&& forall|v: ViolationView|
                #[trigger] vs.contains(v) && v.code == "DP202"@ ==> exists|i: int|
                    0 <= i < deps.len() && (rules.direct_rule((#[trigger] deps[i]).name) matches Some(req)
                        && !semver_req_equal(deps[i].requirement, req) && v == plain_violation(
                        "DP202"@,
                        deps[i].name,
                        drift_message(deps[i].requirement, req),
                    ))
        }),
{
    let vs = (evaluation_outcome(project_name, profile, Some(rules), Ok(m))->Ok_0).violations;
    let direct = direct_violations(deps, rules);
    let n = rules.resolved_keys.len() as int;
    let resolved = resolved_violations(m.packages, rules);
    assert(vs == direct + resolved);
    lemma_direct_violations(deps, rules);
    lemma_in_concat(direct, resolved);
    lemma_in_concat(deny_violations(m.packages, rules), single_version_violations(m.packages, rules, n));
    lemma_violation_codes(deps, m.packages, rules, n);
    lemma_distinct_codes();
}

/// Evaluating a project that Cargo describes reports a resolved package with a
/// DP204 violation exactly when the profile's resolved rule for it holds a
/// deny requirement, at any place in the list, that its version matches:
/// every such package is reported, and every DP204 violation reports one.
pub proof fn law_denied_versions_are_reported(
    project_name: Seq<char>,
    profile: Profile,
    rules: ProfileRulesView,
    m: MetadataView,
)
    ensures
        evaluation_outcome(project_name, profile, Some(rules), Ok(m)) is Ok,
        ({
            let vs = (evaluation_outcome(project_name, profile, Some(rules), Ok(m))->Ok_0).violations;
            let pkgs = m.packages;
            &&& forall|i: int, j: int|
                0 <= i < pkgs.len() && rules.resolved_rule(pkgs[i].name) is Some && 0 <= j
                    < rules.resolved_rule(pkgs[i].name)->0.deny.len() && #[trigger] semver_req_matches(
                    rules.resolved_rule(pkgs[i].name)->0.deny[j],
                    pkgs[i].version,
                ) ==> vs.contains(plain_violation("DP204"@, pkgs[i].name, forbidden_message(pkgs[i].version)))
            &&& forall|v: ViolationView|
                #[trigger] vs.contains(v) && v.code == "DP204"@ ==> exists|i: int, j: int|
                    0 <= i < pkgs.len() && rules.resolved_rule(pkgs[i].name) is Some && 0 <= j
                        < rules.resolved_rule(pkgs[i].name)->0.deny.len() && #[trigger] semver_req_matches(
                        rules.resolved_rule(pkgs[i].name)->0.deny[j],
                        pkgs[i].version,
                    ) && v == plain_violation("DP204"@, pkgs[i].name, forbidden_message(pkgs[i].version))
        }),
{
    let vs = (evaluation_outcome(project_name, profile, Some(rules), Ok(m))->Ok_0).violations;
    let deps = match m.root_dependencies {
        Some(d) => d,
        None => seq![],
    };
    let direct = match m.root_dependencies {
        Some(d) => direct_violations(d, rules),
        None => seq![],
    };
    let n = rules.resolved_keys.len() as int;
    let deny = deny_violations(m.packages, rules);
    let single = single_version_violations(m.packages, rules, n);
    assert(vs == direct + (deny + single));
    lemma_deny_violations(m.packages, rules);
    lemma_in_concat(direct, deny + single);
    lemma_in_concat(deny, single);
    lemma_violation_codes(deps, m.packages, rules, n);
    lemma_distinct_codes();
    if m.root_dependencies is None {
        assert(direct.len() == 0);
        assert(forall|v: ViolationView| !direct.contains(v));
    }
}

proof fn lemma_blocked_names_a_key(path: Seq<char>, manifest: Seq<char>, rules: ProfileRulesView, n: int)
    requires
        rules.direct_keys.len() == rules.direct_values.len(),
        0 <= n <= rules.direct_keys.len(),
    ensures
        forall|i: int|
            0 <= i < planned(path, manifest, rules, n).blocked.len() ==> exists|k: int|
                0 <= k < n && (#[trigger] planned(path, manifest, rules, n).blocked[i]).crate_name
                    == rules.direct_keys[k],
    decreases n,
{
    if n > 0 {
        lemma_blocked_names_a_key(path, manifest, rules, n - 1);
        let prev = planned(path, manifest, rules, n - 1).blocked;
        let bs = planned(path, manifest, rules, n).blocked;
        assert forall|i: int| 0 <= i < bs.len() implies exists|k: int|
            0 <= k < n && (#[trigger] bs[i]).crate_name == rules.direct_keys[k] by {
            if i < prev.len() {
                assert(bs[i] == prev[i]);
                let k = choose|k: int| 0 <= k < n - 1 && prev[i].crate_name == rules.direct_keys[k];
                assert(0 <= k < n && bs[i].crate_name == rules.direct_keys[k]);
            } else {
                assert(bs[i].crate_name == rules.direct_keys[n - 1]);
            }
        }
    }
}

/// A sync plan blocks, with a DP301 change naming it, every dependency that
/// has a direct rule and that the manifest declares other than as a plain
/// string, and blocks each dependency at most once: its blocked changes name
/// distinct dependencies, in ascending name order.
pub proof fn law_every_unplain_declaration_is_blocked(
    path: Seq<char>,
    manifest: Seq<char>,
    rules: ProfileRulesView,
    n: int,
)
    requires
        keys_ascending(rules.direct_keys),
        rules.direct_keys.len() == rules.direct_values.len(),
        0 <= n <= rules.direct_keys.len(),
    ensures
        forall|k: int|
            0 <= k < n && toml_dependency_entry(manifest, #[trigger] rules.direct_keys[k]) == Some(
                None::<Seq<char>>,
            ) ==> planned(path, manifest, rules, n).blocked.contains(
                plain_violation("DP301"@, rules.direct_keys[k], not_plain_message()),
            ),
        forall|i: int, j: int|
            0 <= i < j < planned(path, manifest, rules, n).blocked.len() ==> key_lt(
                (#[trigger] planned(path, manifest, rules, n).blocked[i]).crate_name,
                (#[trigger] planned(path, manifest, rules, n).blocked[j]).crate_name,
            ),
    decreases n,
{
    if n > 0 {
        law_every_unplain_declaration_is_blocked(path, manifest, rules, n - 1);
        lemma_blocked_names_a_key(path, manifest, rules, n - 1);
        let prev = planned(path, manifest, rules, n - 1).blocked;
        let bs = planned(path, manifest, rules, n).blocked;
        assert(bs.len() >= prev.len());
        assert(forall|k: int| 0 <= k < prev.len() ==> bs[k] == prev[k]);
        assert forall|k: int|
            0 <= k < n && toml_dependency_entry(manifest, #[trigger] rules.direct_keys[k]) == Some(
                None::<Seq<char>>,
            ) implies bs.contains(plain_violation("DP301"@, rules.direct_keys[k], not_plain_message())) by {
            let w = plain_violation("DP301"@, rules.direct_keys[k], not_plain_message());
            if k < n - 1 {
                assert(prev.contains(w));
                let x = choose|x: int| 0 <= x < prev.len() && prev[x] == w;
                assert(bs[x] == w);
            } else {
                assert(bs[prev.len() as int] == w);
            }
        }
        assert forall|i: int, j: int| 0 <= i < j < bs.len() implies key_lt(
            (#[trigger] bs[i]).crate_name,
            (#[trigger] bs[j]).crate_name,
        ) by {
            assert(bs[i] == prev[i]);
            if j < prev.len() {
                assert(bs[j] == prev[j]);
            } else {
                let k = choose|k: int| 0 <= k < n - 1 && prev[i].crate_name == rules.direct_keys[k];
                assert(bs[j].crate_name == rules.direct_keys[n - 1]);
                assert(key_lt(rules.direct_keys[k], rules.direct_keys[n - 1]));
            }
        }
    }
}

/// The Markdown of a report lists one line `- CODE crate: message` per
/// violation, in order: a report with a single violation lists just its line
/// under the heading, and adding a violation to a report that lists some adds
/// exactly its line at the end, whatever the violations before it.
pub proof fn law_markdown_lists_every_violation(
    name: Seq<char>,
    revision: Seq<char>,
    vs: Seq<ViolationView>,
    v: ViolationView,
)
    ensures
        markdown(name, revision, seq![v]) == "# Dependency Policy Report\n\n- Baseline: ~"@ + name
            + "~\n- Revision: ~"@ + revision + "~\n\n"@ + "## Violations\n\n"@ + ("- "@ + v.code + " "@
            + v.crate_name + ": "@ + v.message + "\n"@),
        vs.len() > 0 ==> markdown(name, revision, vs.push(v)) == markdown(name, revision, vs) + ("- "@ + v.code
            + " "@ + v.crate_name + ": "@ + v.message + "\n"@),
{
    let line = "- "@ + v.code + " "@ + v.crate_name + ": "@ + v.message + "\n"@;
    let head = "# Dependency Policy Report\n\n- Baseline: ~"@ + name + "~\n- Revision: ~"@ + revision
        + "~\n\n"@;
    let intro = "## Violations\n\n"@;
    assert(seq![v].drop_last() =~= Seq::<ViolationView>::empty());
    assert(violation_lines(seq![v].drop_last()) =~= Seq::<char>::empty());
    assert(Seq::<char>::empty() + "- "@ =~= "- "@);
    assert(violation_lines(seq![v]) =~= line);
    assert(head + (intro + line) =~= head + intro + line);
    if vs.len() > 0 {
        assert(vs.push(v).drop_last() =~= vs);
        assert(violation_lines(vs.push(v)) =~= violation_lines(vs) + line);
        assert(head + (intro + (violation_lines(vs) + line)) =~= head + (intro + violation_lines(vs)) + line);
    }
}

} // verus!
