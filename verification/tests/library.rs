use qubit_dependency_policy::text::{compare_keys, decimal_text, KeyOrder};
use qubit_dependency_policy::{
    config_path, render_markdown, Baseline, BaselineIdentity, BaselineRef, Evaluation, KeyedMap,
    LoadedBaseline, PolicyError, Profile, ProjectConfig, ProjectSettings, Report, Requirement,
    SemanticVersion, Violation,
};

fn config(format: u32, revision: &str) -> ProjectConfig {
    ProjectConfig {
        format,
        baseline: BaselineRef {
            source: "file:///tmp/policy".into(),
            revision: revision.into(),
            release: "v2026.09.13".into(),
            name: "example".into(),
        },
        project: ProjectSettings {
            profile: Profile::Library,
            exceptions_path: None,
        },
    }
}

#[test]
fn project_config_reports_its_profile() {
    let config = config(1, "0123456789abcdef0123456789abcdef01234567");
    assert_eq!(config.profile(), Profile::Library);
}

#[test]
fn valid_configuration_is_accepted() {
    let config = config(1, "0123456789abcdef0123456789ABCDEF01234567")
        .validate()
        .expect("valid");
    assert_eq!(config.format, 1);
}

#[test]
fn unsupported_configuration_format_is_rejected() {
    let error = config(2, "0123456789abcdef0123456789abcdef01234567")
        .validate()
        .expect_err("format 2");
    assert_eq!(error.code(), "DP001");
    assert_eq!(error.describe(), "unsupported configuration format 2");
}

#[test]
fn short_or_non_hex_revisions_are_rejected() {
    for revision in [
        "0123456789abcdef",
        "0123456789abcdef0123456789abcdef0123456g",
        "0123456789abcdef0123456789abcdef012345678",
        "0123456789abcdef0123456789abcdef0123456é",
    ] {
        let error = config(1, revision).validate().expect_err("bad revision");
        assert_eq!(error.code(), "DP001");
        assert_eq!(
            error.describe(),
            "baseline.revision must be a 40-digit hexadecimal commit SHA"
        );
    }
}

#[test]
fn config_path_defaults_under_the_project() {
    assert_eq!(config_path("/w/p", None), "/w/p/.infra/dep/policy.toml");
    assert_eq!(config_path("/w/p", Some("/etc/policy.toml")), "/etc/policy.toml");
}

#[test]
fn keyed_map_keeps_keys_in_byte_order() {
    let mut map: KeyedMap<Requirement> = KeyedMap::new();
    for name in ["serde", "anyhow", "num-bigint", "Zeta", "num"] {
        map.insert(name.into(), Requirement::parse("1").expect("valid"));
    }
    let keys: Vec<&str> = (0..map.len()).map(|i| map.key_at(i).as_str()).collect();
    assert_eq!(keys, vec!["Zeta", "anyhow", "num", "num-bigint", "serde"]);
    map.keys_are_ascending();
}

#[test]
fn keyed_map_insert_replaces_and_get_finds() {
    let mut map: KeyedMap<Requirement> = KeyedMap::new();
    map.insert("num-bigint".into(), Requirement::parse("0.4").expect("valid"));
    map.insert("num-bigint".into(), Requirement::parse("0.5").expect("valid"));
    assert_eq!(map.len(), 1);
    assert_eq!(map.get("num-bigint").expect("present").render(), "^0.5");
    assert!(map.get("num").is_none());
}

#[test]
fn keys_compare_by_bytes() {
    assert!(matches!(compare_keys("a", "b"), KeyOrder::Less));
    assert!(matches!(compare_keys("ab", "a"), KeyOrder::Greater));
    assert!(matches!(compare_keys("é", "z"), KeyOrder::Greater));
    assert!(matches!(compare_keys("same", "same"), KeyOrder::Equal));
}

#[test]
fn decimal_rendering_matches_display() {
    for n in [0u32, 7, 10, 99, 1234, u32::MAX] {
        assert_eq!(decimal_text(n), n.to_string());
    }
}

#[test]
fn requirements_and_versions_follow_semver() {
    assert!(Requirement::parse("not a requirement").is_none());
    assert!(SemanticVersion::parse("1.2").is_none());
    let a = Requirement::parse("0.4.8").expect("valid");
    let b = Requirement::parse("^0.4.8").expect("valid");
    assert!(a.same_as(&b));
    assert_eq!(a.render(), "^0.4.8");
    let v = SemanticVersion::parse("0.4.9").expect("valid");
    assert!(a.matches(&v));
    assert!(!a.matches(&SemanticVersion::parse("0.5.0").expect("valid")));
    assert!(v.same_as(&SemanticVersion::parse("0.4.9").expect("valid")));
    assert!(!v.same_as(&SemanticVersion::parse("0.4.9+build").expect("valid")));
}

#[test]
fn configuration_errors_describe_their_file() {
    let read = PolicyError::ReadConfig {
        path: "p.toml".into(),
        source: "missing".into(),
    };
    assert_eq!(read.code(), "DP001");
    assert_eq!(read.describe(), "failed to read p.toml: missing");
    let parse = PolicyError::ParseConfig {
        path: "p.toml".into(),
        source: "bad".into(),
    };
    assert_eq!(parse.describe(), "failed to parse p.toml: bad");
}

fn report(violations: Vec<Violation>) -> Report {
    let loaded = LoadedBaseline {
        commit: "0123456789abcdef0123456789abcdef01234567".into(),
        baseline: Baseline {
            format: 1,
            release: "v2026.09.13".into(),
            profiles: KeyedMap::new(),
        },
    };
    Report::from_evaluation(
        Evaluation {
            violations,
            packages: Vec::new(),
        },
        &loaded,
    )
}

#[test]
fn report_identifies_the_baseline_by_release_and_commit() {
    let report = report(Vec::new());
    assert_eq!(report.schema_version, 1);
    let BaselineIdentity {
        release,
        revision,
        name,
    } = &report.baseline;
    assert_eq!(release, "v2026.09.13");
    assert_eq!(revision, "0123456789abcdef0123456789abcdef01234567");
    assert_eq!(name, "v2026.09.13");
}

#[test]
fn markdown_of_a_clean_report() {
    assert_eq!(
        render_markdown(&report(Vec::new())),
        "# Dependency Policy Report\n\n- Baseline: ~v2026.09.13~\n- Revision: ~0123456789abcdef0123456789abcdef01234567~\n\nNo violations found.\n"
    );
}

#[test]
fn markdown_lists_violations() {
    let text = render_markdown(&report(vec![
        Violation {
            code: "DP202",
            crate_name: "num-bigint".into(),
            message: "declared requirement ^0.5 differs from baseline ^0.4.8".into(),
            exception_id: None,
        },
        Violation {
            code: "DP205",
            crate_name: "libc".into(),
            message: "more than one resolved version violates single_version".into(),
            exception_id: None,
        },
    ]));
    assert!(text.ends_with("~\n\n## Violations\n\n- DP202 num-bigint: declared requirement ^0.5 differs from baseline ^0.4.8\n- DP205 libc: more than one resolved version violates single_version\n"));
    assert!(!text.contains("No violations found."));
}
