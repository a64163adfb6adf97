use qubit_dependency_policy::{
    evaluate, evaluate_project, metadata_locking, Baseline, BaselineRef, DeclaredDependency,
    DirectRule, KeyedMap, LoadedBaseline, PolicyError, Profile, ProfileRules, ProjectConfig,
    ProjectMetadata, ProjectSettings, Requirement, ResolvedPackage, ResolvedRule, SemanticVersion,
};

fn requirement(text: &str) -> Requirement {
    Requirement::parse(text).expect("valid requirement")
}

fn version(text: &str) -> SemanticVersion {
    SemanticVersion::parse(text).expect("valid version")
}

fn config(profile: Profile) -> ProjectConfig {
    ProjectConfig {
        format: 1,
        baseline: BaselineRef {
            source: "file:///work/policy-repo".into(),
            revision: "0123456789abcdef0123456789abcdef01234567".into(),
            release: "v2026.09.0".into(),
            name: "test".into(),
        },
        project: ProjectSettings {
            profile,
            exceptions_path: None,
        },
    }
}

fn rules() -> ProfileRules {
    let mut direct = KeyedMap::new();
    direct.insert(
        "num-bigint".into(),
        DirectRule {
            requirement: requirement("0.4.8"),
        },
    );
    let mut resolved = KeyedMap::new();
    resolved.insert(
        "num-bigint".into(),
        ResolvedRule {
            deny: vec![requirement(">=0.5.0, <0.6.0")],
            single_version: true,
        },
    );
    resolved.insert(
        "libc".into(),
        ResolvedRule {
            deny: Vec::new(),
            single_version: true,
        },
    );
    ProfileRules { direct, resolved }
}

fn loaded() -> LoadedBaseline {
    let mut profiles = KeyedMap::new();
    profiles.insert("library".into(), rules());
    profiles.insert("application".into(), rules());
    LoadedBaseline {
        commit: "0123456789abcdef0123456789abcdef01234567".into(),
        baseline: Baseline {
            format: 1,
            release: "v2026.09.0".into(),
            profiles,
        },
    }
}

fn package(name: &str, text: &str) -> ResolvedPackage {
    ResolvedPackage {
        name: name.into(),
        version: version(text),
        source: Some("registry+https://github.com/rust-lang/crates.io-index".into()),
    }
}

fn num_bigint_05_metadata() -> ProjectMetadata {
    ProjectMetadata {
        root_dependencies: Some(vec![DeclaredDependency {
            name: "num-bigint".into(),
            requirement: requirement("^0.5"),
        }]),
        packages: vec![
            package("fixture", "0.1.0"),
            package("num-bigint", "0.5.1"),
            package("num-integer", "0.1.46"),
        ],
    }
}

#[test]
fn reports_a_direct_num_bigint_version_drift() {
    let config = config(Profile::Library);
    let baseline = loaded();
    let evaluation = evaluate(
        "tests/fixtures/num-bigint-05",
        &config,
        &baseline,
        Ok(num_bigint_05_metadata()),
    )
    .expect("evaluation");
    assert!(evaluation
        .violations
        .iter()
        .any(|item| item.code == "DP202"));
}

#[test]
fn reports_a_missing_application_lockfile() {
    let config = config(Profile::Application);
    let baseline = loaded();
    let project = "tests/fixtures/application-no-lock";
    let metadata = match metadata_locking(project, Profile::Application, false) {
        Ok(_) => Ok(num_bigint_05_metadata()),
        Err(error) => Err(error),
    };
    let evaluation = evaluate(project, &config, &baseline, metadata).expect("evaluation");
    assert!(evaluation
        .violations
        .iter()
        .any(|item| item.code == "DP201"));
}

#[test]
fn drift_message_renders_both_requirements() {
    let evaluation = evaluate_project(
        "num-bigint-05",
        &config(Profile::Library),
        &loaded(),
        Ok(num_bigint_05_metadata()),
    )
    .expect("evaluation");
    let drift = &evaluation.violations[0];
    assert_eq!(drift.code, "DP202");
    assert_eq!(drift.crate_name, "num-bigint");
    assert_eq!(
        drift.message,
        "declared requirement ^0.5 differs from baseline ^0.4.8"
    );
    assert_eq!(drift.exception_id, None);
}

#[test]
fn forbidden_resolved_version_is_reported() {
    let evaluation = evaluate_project(
        "num-bigint-05",
        &config(Profile::Library),
        &loaded(),
        Ok(num_bigint_05_metadata()),
    )
    .expect("evaluation");
    let codes: Vec<&str> = evaluation.violations.iter().map(|v| v.code).collect();
    assert_eq!(codes, vec!["DP202", "DP204"]);
    assert_eq!(
        evaluation.violations[1].message,
        "resolved version 0.5.1 is forbidden by baseline"
    );
    assert_eq!(evaluation.packages.len(), 3);
}

#[test]
fn equal_requirement_is_not_a_drift() {
    let metadata = ProjectMetadata {
        root_dependencies: Some(vec![DeclaredDependency {
            name: "num-bigint".into(),
            requirement: requirement("^0.4.8"),
        }]),
        packages: vec![package("num-bigint", "0.4.6")],
    };
    let evaluation =
        evaluate_project("p", &config(Profile::Library), &loaded(), Ok(metadata)).expect("ok");
    assert!(evaluation.violations.is_empty());
}

#[test]
fn single_version_rules_report_in_name_order() {
    let metadata = ProjectMetadata {
        root_dependencies: None,
        packages: vec![
            package("num-bigint", "0.4.6"),
            package("libc", "0.2.1"),
            package("num-bigint", "0.4.6"),
            package("libc", "0.2.2"),
            package("num-bigint", "0.3.3"),
        ],
    };
    let evaluation =
        evaluate_project("p", &config(Profile::Library), &loaded(), Ok(metadata)).expect("ok");
    let names: Vec<&str> = evaluation
        .violations
        .iter()
        .map(|v| v.crate_name.as_str())
        .collect();
    assert_eq!(names, vec!["libc", "num-bigint"]);
    assert!(evaluation.violations.iter().all(|v| v.code == "DP205"));
    assert_eq!(
        evaluation.violations[0].message,
        "more than one resolved version violates single_version"
    );
}

#[test]
fn repeated_single_version_is_accepted() {
    let metadata = ProjectMetadata {
        root_dependencies: None,
        packages: vec![package("libc", "0.2.1"), package("libc", "0.2.1")],
    };
    let evaluation =
        evaluate_project("p", &config(Profile::Library), &loaded(), Ok(metadata)).expect("ok");
    assert!(evaluation.violations.is_empty());
}

#[test]
fn library_cargo_failure_is_an_error() {
    let failure = PolicyError::Cargo {
        code: "DP201",
        message: "cargo metadata failed".into(),
    };
    let error = evaluate_project("p", &config(Profile::Library), &loaded(), Err(failure))
        .expect_err("a library needs metadata");
    assert_eq!(error.code(), "DP201");
}

#[test]
fn application_cargo_failure_becomes_a_violation() {
    let failure = PolicyError::Cargo {
        code: "DP201",
        message: "cargo metadata failed".into(),
    };
    let evaluation = evaluate_project("app", &config(Profile::Application), &loaded(), Err(failure))
        .expect("violation");
    assert_eq!(evaluation.violations.len(), 1);
    assert_eq!(evaluation.violations[0].crate_name, "app");
    assert_eq!(evaluation.violations[0].message, "cargo metadata failed");
    assert!(evaluation.packages.is_empty());
}

#[test]
fn missing_profile_is_an_invalid_baseline() {
    let mut profiles = KeyedMap::new();
    profiles.insert("library".into(), rules());
    let baseline = LoadedBaseline {
        commit: "c".into(),
        baseline: Baseline {
            format: 1,
            release: "r".into(),
            profiles,
        },
    };
    let error = evaluate_project("p", &config(Profile::Application), &baseline, Ok(num_bigint_05_metadata()))
        .expect_err("no application profile");
    assert_eq!(error.code(), "DP103");
    assert_eq!(
        error.describe(),
        "profile Application is not present in the baseline"
    );
}

#[test]
fn evaluate_names_the_project_by_its_last_component() {
    let failure = PolicyError::Cargo {
        code: "DP201",
        message: "m".into(),
    };
    let evaluation = evaluate(
        "tests/fixtures/application-no-lock",
        &config(Profile::Application),
        &loaded(),
        Err(failure),
    )
    .expect("violation");
    assert_eq!(evaluation.violations[0].crate_name, "application-no-lock");
}

#[test]
fn locking_follows_the_profile_and_the_lockfile() {
    assert_eq!(metadata_locking("p", Profile::Application, true).expect("ok"), true);
    assert_eq!(metadata_locking("p", Profile::Library, true).expect("ok"), true);
    assert_eq!(metadata_locking("p", Profile::Library, false).expect("ok"), false);
    let error = metadata_locking("/w/app", Profile::Application, false).expect_err("no lock");
    assert_eq!(error.code(), "DP201");
    assert_eq!(error.describe(), "application /w/app has no Cargo.lock");
}

#[test]
fn rules_for_selects_the_profile() {
    let baseline = loaded();
    let rules = qubit_dependency_policy::rules_for(&config(Profile::Library), &baseline)
        .expect("library rules");
    assert_eq!(rules.direct.len(), 1);
    assert_eq!(rules.resolved.len(), 2);
}

#[test]
fn evaluate_names_a_project_without_a_last_component_project() {
    let failure = PolicyError::Cargo {
        code: "DP201",
        message: "m".into(),
    };
    let evaluation = evaluate("..", &config(Profile::Application), &loaded(), Err(failure)).expect("violation");
    assert_eq!(evaluation.violations[0].crate_name, "project");
}
