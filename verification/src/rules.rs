//! Evaluation of a project against the rules of its baseline profile.

use vstd::prelude::*;

use crate::baseline::{profile_key, ProfileRules, ProfileRulesView};
use crate::cargo::{
    dependency_views, package_views, DeclaredDependency, DependencyView, MetadataView, PackageView,
    ProjectMetadata, ResolvedPackage,
};
use crate::config::{Profile, ProjectConfig};
use crate::diagnostic::{plain_violation, violation_views, Violation, ViolationView};
use crate::error::{error_code, error_text, PolicyError, PolicyErrorView};
use crate::paths::{component_of, file_name};
use crate::source::LoadedBaseline;
use crate::text::{compare_keys, join3, join4, KeyOrder};
use crate::versions::{
    semver_req_equal, semver_req_matches, semver_req_text, semver_version_equal,
    semver_version_text,
};

verus! {

/// The message of a direct requirement that differs from the baseline.
pub open spec fn drift_message(declared: Seq<char>, required: Seq<char>) -> Seq<char> {
    "declared requirement "@ + semver_req_text(declared) + " differs from baseline "@
        + semver_req_text(required)
}

/// DP202 violations of declared dependencies, in declaration order: one for
/// each dependency whose profile has a direct rule that its requirement is not
/// equal to.
pub open spec fn direct_violations(deps: Seq<DependencyView>, rules: ProfileRulesView) -> Seq<
    ViolationView,
>
    decreases deps.len(),
{
    if deps.len() == 0 {
        seq![]
    } else {
        let prev = direct_violations(deps.drop_last(), rules);
        let d = deps.last();
        match rules.direct_rule(d.name) {
            Some(required) => if !semver_req_equal(d.requirement, required) {
                prev.push(plain_violation("DP202"@, d.name, drift_message(d.requirement, required)))
            } else {
                prev
            },
            None => prev,
        }
    }
}

/// Whether one of the forbidden requirements matches the version.
pub open spec fn denied(deny: Seq<Seq<char>>, version: Seq<char>) -> bool {
    exists|j: int| 0 <= j < deny.len() && semver_req_matches(#[trigger] deny[j], version)
}

/// The message of a resolved version that the baseline forbids.
pub open spec fn forbidden_message(version: Seq<char>) -> Seq<char> {
    "resolved version "@ + semver_version_text(version) + " is forbidden by baseline"@
}

/// DP204 violations, in package order: one for each resolved package whose
/// rule forbids its version.
pub open spec fn deny_violations(pkgs: Seq<PackageView>, rules: ProfileRulesView) -> Seq<ViolationView>
    decreases pkgs.len(),
{
    if pkgs.len() == 0 {
        seq![]
    } else {
        let prev = deny_violations(pkgs.drop_last(), rules);
        let p = pkgs.last();
        match rules.resolved_rule(p.name) {
            Some(rule) => if denied(rule.deny, p.version) {
                prev.push(plain_violation("DP204"@, p.name, forbidden_message(p.version)))
            } else {
                prev
            },
            None => prev,
        }
    }
}

/// The resolved versions of the packages named `name`, in package order.
pub open spec fn versions_named(pkgs: Seq<PackageView>, name: Seq<char>) -> Seq<Seq<char>>
    decreases pkgs.len(),
{
    if pkgs.len() == 0 {
        seq![]
    } else {
        let prev = versions_named(pkgs.drop_last(), name);
        if pkgs.last().name == name {
            prev.push(pkgs.last().version)
        } else {
            prev
        }
    }
}

/// Whether two neighbouring versions of the sequence differ.
pub open spec fn has_version_change(vs: Seq<Seq<char>>) -> bool {
    exists|i: int| 0 <= i < vs.len() - 1 && !semver_version_equal(#[trigger] vs[i], vs[i + 1])
}

/// The message of a package resolved to more than one version.
pub open spec fn single_version_message() -> Seq<char> {
    "more than one resolved version violates single_version"@
}

/// DP205 violations for the first `n` resolved rules, in ascending name order:
/// one for each `single_version` rule whose package resolves to differing
/// versions.
pub open spec fn single_version_violations(pkgs: Seq<PackageView>, rules: ProfileRulesView, n: int) -> Seq<
    ViolationView,
>
    decreases n,
{
    if n <= 0 {
        seq![]
    } else {
        let prev = single_version_violations(pkgs, rules, n - 1);
        let name = rules.resolved_keys[n - 1];
        if rules.resolved_values[n - 1].single_version && has_version_change(
            versions_named(pkgs, name),
        ) {
            prev.push(plain_violation("DP205"@, name, single_version_message()))
        } else {
            prev
        }
    }
}

/// All resolved-graph violations: DP204 in package order, then DP205 in
/// ascending name order.
pub open spec fn resolved_violations(pkgs: Seq<PackageView>, rules: ProfileRulesView) -> Seq<ViolationView> {
    deny_violations(pkgs, rules) + single_version_violations(
        pkgs,
        rules,
        rules.resolved_keys.len() as int,
    )
}

/// Checks the declared requirements of the root package against the direct rules.
pub fn check_direct_dependencies(
    dependencies: &Vec<DeclaredDependency>,
    rules: &ProfileRules,
    violations: &mut Vec<Violation>,
)
    ensures
        violation_views(final(violations)@) == violation_views(old(violations)@) + direct_violations(
            dependency_views(dependencies@),
            rules@,
        ),
{
    let ghost start = violation_views(violations@);
    let ghost deps = dependency_views(dependencies@);
    let n = dependencies.len();
    let mut i: usize = 0;
    while i < n
        invariant
            n == dependencies@.len(),
            deps == dependency_views(dependencies@),
            i <= n,
            violation_views(violations@) == start + direct_violations(deps.take(i as int), rules@),
        decreases n - i,
    {
        let dependency = &dependencies[i];
        proof {
            assert(deps.take(i + 1).drop_last() =~= deps.take(i as int));
            assert(deps.take(i + 1).last() == dependency@);
        }
        match rules.direct.get(dependency.name.as_str()) {
            Some(rule) => {
                if !dependency.requirement.same_as(&rule.requirement) {
                    let declared = dependency.requirement.render();
                    let required = rule.requirement.render();
                    let message = join4(
                        "declared requirement ",
                        declared.as_str(),
                        " differs from baseline ",
                        required.as_str(),
                    );
                    let ghost before = violations@;
                    violations.push(
                        Violation {
                            code: "DP202",
                            crate_name: dependency.name.clone(),
                            message,
                            exception_id: None,
                        },
                    );
                    assert(violation_views(violations@) =~= violation_views(before).push(
                        violations@.last()@,
                    ));
                }
            },
            None => {},
        }
        i = i + 1;
    }
    assert(deps.take(n as int) =~= deps);
}

proof fn lemma_version_change_push(vs: Seq<Seq<char>>, v: Seq<char>)
    ensures
        has_version_change(vs.push(v)) == (has_version_change(vs) || (vs.len() > 0
            && !semver_version_equal(vs.last(), v))),
{
    let ws = vs.push(v);
    if has_version_change(vs) {
        let i = choose|i: int| 0 <= i < vs.len() - 1 && !semver_version_equal(#[trigger] vs[i], vs[i + 1]);
        assert(ws[i] == vs[i] && ws[i + 1] == vs[i + 1]);
    }
    if vs.len() > 0 && !semver_version_equal(vs.last(), v) {
        let i = vs.len() - 1;
        assert(ws[i] == vs.last() && ws[i + 1] == v);
    }
    if has_version_change(ws) {
        let i = choose|i: int| 0 <= i < ws.len() - 1 && !semver_version_equal(#[trigger] ws[i], ws[i + 1]);
        if i < vs.len() - 1 {
            assert(vs[i] == ws[i] && vs[i + 1] == ws[i + 1]);
        }
    }
}

/// Whether the resolved graph holds two neighbouring versions of `name` that differ.
fn versions_differ(packages: &Vec<ResolvedPackage>, name: &str) -> (r: bool)
    ensures
        r == has_version_change(versions_named(package_views(packages@), name@)),
{
    let ghost pkgs = package_views(packages@);
    let n = packages.len();
    let mut last: Option<&ResolvedPackage> = None;
    let mut changed = false;
    let mut i: usize = 0;
    while i < n
        invariant
            n == packages@.len(),
            pkgs == package_views(packages@),
            i <= n,
            changed == has_version_change(versions_named(pkgs.take(i as int), name@)),
            match last {
                Some(p) => versions_named(pkgs.take(i as int), name@).len() > 0 && p.version@
                    == versions_named(pkgs.take(i as int), name@).last(),
                None => versions_named(pkgs.take(i as int), name@).len() == 0,
            },
        decreases n - i,
    {
        let package = &packages[i];
        let ghost vs = versions_named(pkgs.take(i as int), name@);
        proof {
            assert(pkgs.take(i + 1).drop_last() =~= pkgs.take(i as int));
            assert(pkgs.take(i + 1).last() == package@);
        }
        let same_name = match compare_keys(package.name.as_str(), name) {
            KeyOrder::Equal => true,
            _ => false,
        };
        if same_name {
            proof {
                lemma_version_change_push(vs, package.version@);
            }
            match last {
                Some(previous) => {
                    if !previous.version.same_as(&package.version) {
                        changed = true;
                    }
                },
                None => {},
            }
            last = Some(package);
        }
        i = i + 1;
    }
    assert(pkgs.take(n as int) =~= pkgs);
    changed
}

/// Whether one of the forbidden requirements matches the version.
fn is_denied(deny: &Vec<crate::versions::Requirement>, version: &crate::versions::SemanticVersion) -> (r: bool)
    ensures
        r == denied(deny@.map_values(|q: crate::versions::Requirement| q@), version@),
{
    let ghost reqs = deny@.map_values(|q: crate::versions::Requirement| q@);
    let n = deny.len();
    let mut i: usize = 0;
    while i < n
        invariant
            n == deny@.len(),
            reqs == deny@.map_values(|q: crate::versions::Requirement| q@),
            i <= n,
            forall|j: int| 0 <= j < i ==> !semver_req_matches(#[trigger] reqs[j], version@),
        decreases n - i,
    {
        if deny[i].matches(version) {
            assert(semver_req_matches(reqs[i as int], version@));
            return true;
        }
        i = i + 1;
    }
    false
}

/// Checks the resolved graph against the resolved rules: forbidden versions
/// (DP204) in package order, then packages resolved to more than one version
/// under a `single_version` rule (DP205) in ascending name order.
pub fn check_resolved_packages(
    packages: &Vec<ResolvedPackage>,
    rules: &ProfileRules,
    violations: &mut Vec<Violation>,
)
    ensures
        violation_views(final(violations)@) == violation_views(old(violations)@) + resolved_violations(
            package_views(packages@),
            rules@,
        ),
{
    let ghost start = violation_views(violations@);
    let ghost pkgs = package_views(packages@);
    let n = packages.len();
    let mut i: usize = 0;
    while i < n
        invariant
            n == packages@.len(),
            pkgs == package_views(packages@),
            i <= n,
            violation_views(violations@) == start + deny_violations(pkgs.take(i as int), rules@),
        decreases n - i,
    {
        let package = &packages[i];
        proof {
            assert(pkgs.take(i + 1).drop_last() =~= pkgs.take(i as int));
            assert(pkgs.take(i + 1).last() == package@);
        }
        match rules.resolved.get(package.name.as_str()) {
            Some(rule) => {
                if is_denied(&rule.deny, &package.version) {
                    let shown = package.version.render();
                    let message = join3("resolved version ", shown.as_str(), " is forbidden by baseline");
                    let ghost before = violations@;
                    violations.push(
                        Violation {
                            code: "DP204",
                            crate_name: package.name.clone(),
                            message,
                            exception_id: None,
                        },
                    );
                    assert(violation_views(violations@) =~= violation_views(before).push(
                        violations@.last()@,
                    ));
                }
            },
            None => {},
        }
        i = i + 1;
    }
    assert(pkgs.take(n as int) =~= pkgs);
    let ghost after_deny = violation_views(violations@);
    let m = rules.resolved.len();
    let mut k: usize = 0;
    while k < m
        invariant
            m == rules@.resolved_keys.len(),
            m == rules@.resolved_values.len(),
            pkgs == package_views(packages@),
            k <= m,
            violation_views(violations@) == after_deny + single_version_violations(pkgs, rules@, k as int),
        decreases m - k,
    {
        let name = rules.resolved.key_at(k);
        let rule = rules.resolved.value_at(k);
        if rule.single_version && versions_differ(packages, name.as_str()) {
            let ghost before = violations@;
            violations.push(
                Violation {
                    code: "DP205",
                    crate_name: name.clone(),
                    message: String::from_str("more than one resolved version violates single_version"),
                    exception_id: None,
                },
            );
            assert(violation_views(violations@) =~= violation_views(before).push(
                violations@.last()@,
            ));
        }
        k = k + 1;
    }
}

/// Results of evaluating one project.
#[derive(Debug, Clone)]
pub struct Evaluation {
    /// Violations found by the evaluator.
    pub violations: Vec<Violation>,
    /// Packages in the resolved dependency graph.
    pub packages: Vec<ResolvedPackage>,
}

/// The mathematical value of an [`Evaluation`].
pub struct EvaluationView {
    pub violations: Seq<ViolationView>,
    pub packages: Seq<PackageView>,
}

impl View for Evaluation {
    type V = EvaluationView;

    open spec fn view(&self) -> EvaluationView {
        EvaluationView {
            violations: violation_views(self.violations@),
            packages: package_views(self.packages@),
        }
    }
}

/// The view of the outcome of asking Cargo for metadata.
pub open spec fn metadata_outcome(r: Result<ProjectMetadata, PolicyError>) -> Result<MetadataView, PolicyErrorView> {
    match r {
        Ok(m) => Ok(m@),
        Err(e) => Err(e@),
    }
}

/// The view of the outcome of an evaluation.
pub open spec fn evaluation_view(r: Result<Evaluation, PolicyError>) -> Result<EvaluationView, PolicyErrorView> {
    match r {
        Ok(e) => Ok(e@),
        Err(e) => Err(e@),
    }
}

/// How a profile is written by `{:?}`.
pub open spec fn profile_debug(profile: Profile) -> Seq<char> {
    match profile {
        Profile::Library => "Library"@,
        Profile::Application => "Application"@,
    }
}

/// The error for a profile that the baseline has no rules for.
pub open spec fn missing_profile(profile: Profile) -> PolicyErrorView {
    PolicyErrorView::InvalidBaseline {
        message: "profile "@ + profile_debug(profile) + " is not present in the baseline"@,
    }
}

/// The violations of a project described by Cargo: DP202 for its declared
/// requirements, then DP204 and DP205 for its resolved graph.
pub open spec fn project_violations(m: MetadataView, rules: ProfileRulesView) -> Seq<ViolationView> {
    (match m.root_dependencies {
        Some(deps) => direct_violations(deps, rules),
        None => seq![],
    }) + resolved_violations(m.packages, rules)
}

/// What evaluating a project yields: an error when the baseline lacks the
/// profile; when Cargo failed, a single DP201 violation for an application and
/// the Cargo error otherwise; else the project's violations and resolved packages.
pub open spec fn evaluation_outcome(
    project_name: Seq<char>,
    profile: Profile,
    rules: Option<ProfileRulesView>,
    metadata: Result<MetadataView, PolicyErrorView>,
) -> Result<EvaluationView, PolicyErrorView> {
    match rules {
        None => Err(missing_profile(profile)),
        Some(rules) => match metadata {
            Err(e) => if error_code(e) == "DP201"@ && profile == Profile::Application {
                Ok(
                    EvaluationView {
                        violations: seq![plain_violation("DP201"@, project_name, error_text(e))],
                        packages: seq![],
                    },
                )
            } else {
                Err(e)
            },
            Ok(m) => Ok(EvaluationView { violations: project_violations(m, rules), packages: m.packages }),
        },
    }
}

/// The rules of the project's profile in the baseline.
pub fn rules_for<'a>(config: &ProjectConfig, baseline: &'a LoadedBaseline) -> (r: Result<&'a ProfileRules, PolicyError>)
    ensures
        match baseline.baseline.profiles.spec_get(profile_key(config.project.profile)) {
            None => r matches Err(e) && e@ == missing_profile(config.project.profile),
            Some(rules) => r matches Ok(found) && found@ == rules,
        },
{
    let profile = config.profile();
    match baseline.baseline.profile(profile) {
        Some(rules) => Ok(rules),
        None => {
            let shown = match profile {
                Profile::Library => "Library",
                Profile::Application => "Application",
            };
            Err(
                PolicyError::InvalidBaseline {
                    message: join3("profile ", shown, " is not present in the baseline"),
                },
            )
        },
    }
}

/// Evaluates a project, named `project_name` in diagnostics, from what Cargo
/// reported of it.
pub fn evaluate_project(
    project_name: &str,
    config: &ProjectConfig,
    baseline: &LoadedBaseline,
    metadata: Result<ProjectMetadata, PolicyError>,
) -> (r: Result<Evaluation, PolicyError>)
    ensures
        evaluation_view(r) == evaluation_outcome(
            project_name@,
            config.project.profile,
            baseline.baseline.profiles.spec_get(profile_key(config.project.profile)),
            metadata_outcome(metadata),
        ),
{
    let profile = config.profile();
    let rules = rules_for(config, baseline)?;
    match metadata {
        Err(error) => {
            let is_cargo_failure = match compare_keys(error.code(), "DP201") {
                KeyOrder::Equal => true,
                _ => false,
            };
            if is_cargo_failure && profile == Profile::Application {
                let mut violations: Vec<Violation> = Vec::new();
                violations.push(
                    Violation {
                        code: "DP201",
                        crate_name: String::from_str(project_name),
                        message: error.describe(),
                        exception_id: None,
                    },
                );
                let evaluation = Evaluation { violations, packages: Vec::new() };
                assert(evaluation@.violations =~= seq![
                    plain_violation("DP201"@, project_name@, error_text(error@)),
                ]);
                assert(evaluation@.packages =~= Seq::<PackageView>::empty());
                Ok(evaluation)
            } else {
                Err(error)
            }
        },
        Ok(m) => {
            let mut violations: Vec<Violation> = Vec::new();
            assert(violation_views(violations@) =~= Seq::<ViolationView>::empty());
            match &m.root_dependencies {
                Some(deps) => check_direct_dependencies(deps, rules, &mut violations),
                None => {},
            }
            check_resolved_packages(&m.packages, rules, &mut violations);
            let evaluation = Evaluation { violations, packages: m.packages };
            assert(evaluation@.violations =~= project_violations(m@, rules@));
            Ok(evaluation)
        },
    }
}

/// Evaluates the project at `project` from what Cargo reported of it; the
/// project's last path component, or `project` when it has none, names it in
/// diagnostics.
pub fn evaluate(
    project: &str,
    config: &ProjectConfig,
    baseline: &LoadedBaseline,
    metadata: Result<ProjectMetadata, PolicyError>,
) -> (r: Result<Evaluation, PolicyError>)
    ensures
        exists|name: Seq<char>|
            (name == "project"@ || component_of(name, project@)) && evaluation_view(r) == #[trigger] evaluation_outcome(
                name,
                config.project.profile,
                baseline.baseline.profiles.spec_get(profile_key(config.project.profile)),
                metadata_outcome(metadata),
            ),
{
    let name = match file_name(project) {
        Some(name) => name,
        None => {
            proof {
                reveal_strlit("project");
            }
            String::from_str("project")
        },
    };
    let r = evaluate_project(name.as_str(), config, baseline, metadata);
    assert((name@ == "project"@ || component_of(name@, project@)) && evaluation_view(r) == evaluation_outcome(
        name@,
        config.project.profile,
        baseline.baseline.profiles.spec_get(profile_key(config.project.profile)),
        metadata_outcome(metadata),
    ));
    r
}

} // verus!
