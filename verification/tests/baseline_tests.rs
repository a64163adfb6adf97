use qubit_dependency_policy::{
    accept_baseline, locate_baseline, locate_under, Baseline, BaselineRef, DirectRule, KeyedMap, Profile,
    ProfileRules, Requirement,
};

fn reference(release: &str) -> BaselineRef {
    BaselineRef {
        source: "file:///work/policy-repo".into(),
        revision: "0123456789abcdef0123456789abcdef01234567".into(),
        release: release.into(),
        name: "test".into(),
    }
}

fn library_rules() -> ProfileRules {
    let mut direct = KeyedMap::new();
    direct.insert(
        "num-bigint".into(),
        DirectRule {
            requirement: Requirement::parse("0.4.8").expect("valid requirement"),
        },
    );
    ProfileRules {
        direct,
        resolved: KeyedMap::new(),
    }
}

fn baseline(format: u32, release: &str) -> Baseline {
    let mut profiles = KeyedMap::new();
    profiles.insert("library".into(), library_rules());
    Baseline {
        format,
        release: release.into(),
        profiles,
    }
}

#[test]
fn loads_a_versioned_local_baseline() {
    let reference = reference("v2026.09.0");
    let path = locate_baseline(&reference).expect("file source");
    let baseline = accept_baseline(&reference, &path, Ok(Ok(baseline(1, "v2026.09.0"))))
        .expect("fixture baseline should load");
    assert_eq!(baseline.baseline.release, "v2026.09.0");
    assert!(baseline.baseline.profile(Profile::Library).is_some());
}

#[test]
fn rejects_an_unknown_release() {
    let reference = reference("v2099.01.0");
    let path = locate_baseline(&reference).expect("file source");
    let error = accept_baseline(
        &reference,
        &path,
        Err("No such file or directory (os error 2)".into()),
    )
    .expect_err("unknown release should fail");
    assert_eq!(error.code(), "DP102");
}

#[test]
fn baseline_file_is_named_after_the_release() {
    let path = locate_baseline(&reference("v2026.09.0")).expect("file source");
    assert_eq!(path, "/work/policy-repo/policy/baselines/v2026.09.0.toml");
}

#[test]
fn rejects_a_non_file_source() {
    let mut reference = reference("v2026.09.0");
    reference.source = "https://example.com/policy.git".into();
    let error = locate_baseline(&reference).expect_err("https is not supported");
    assert_eq!(error.code(), "DP101");
    assert_eq!(error.describe(), "unsupported source scheme https");
}

#[test]
fn rejects_a_source_that_is_not_a_url() {
    let mut reference = reference("v2026.09.0");
    reference.source = "not a url".into();
    let error = locate_baseline(&reference).expect_err("not a URL");
    assert_eq!(error.code(), "DP101");
    assert!(error.describe().starts_with("invalid policy source URL: "));
}

#[test]
fn rejects_a_malformed_baseline_file() {
    let reference = reference("v2026.09.0");
    let error = accept_baseline(&reference, "b.toml", Ok(Err("expected `=`".into())))
        .expect_err("malformed");
    assert_eq!(error.code(), "DP103");
    assert_eq!(error.describe(), "expected `=`");
}

#[test]
fn rejects_an_unsupported_baseline_format() {
    let reference = reference("v2026.09.0");
    let error = accept_baseline(&reference, "b.toml", Ok(Ok(baseline(27, "v2026.09.0"))))
        .expect_err("format 27");
    assert_eq!(error.code(), "DP103");
    assert_eq!(error.describe(), "unsupported baseline format 27");
}

#[test]
fn rejects_a_baseline_of_another_release() {
    let reference = reference("v2026.09.0");
    let error = accept_baseline(&reference, "b.toml", Ok(Ok(baseline(1, "v2026.08.0"))))
        .expect_err("release mismatch");
    assert_eq!(error.code(), "DP102");
    assert_eq!(
        error.describe(),
        "baseline release v2026.08.0 does not match requested v2026.09.0"
    );
}

#[test]
fn read_failure_names_the_file() {
    let reference = reference("v2026.09.0");
    let error = accept_baseline(&reference, "x/v.toml", Err("denied".into())).expect_err("read");
    assert_eq!(error.describe(), "failed to read x/v.toml: denied");
}

#[test]
fn loaded_baseline_records_the_selected_commit() {
    let reference = reference("v2026.09.0");
    let loaded = accept_baseline(&reference, "b.toml", Ok(Ok(baseline(1, "v2026.09.0"))))
        .expect("loads");
    assert_eq!(loaded.commit, "0123456789abcdef0123456789abcdef01234567");
    assert!(loaded.baseline.profile(Profile::Application).is_none());
}

#[test]
fn baseline_file_adjoins_the_release_file() {
    assert_eq!(
        qubit_dependency_policy::source::baseline_file("/srv/policy", "v1"),
        "/srv/policy/policy/baselines/v1.toml"
    );
}

#[test]
fn local_path_failures_are_told_apart() {
    let error = locate_under("v2026.09.0", None).expect_err("no local path");
    assert_eq!(error.code(), "DP101");
    assert_eq!(error.describe(), "file policy source has no local path");
    let error = locate_under("v2026.09.0", Some(None)).expect_err("not UTF-8");
    assert_eq!(error.code(), "DP101");
    assert_eq!(error.describe(), "policy source path is not valid UTF-8");
    let path = locate_under("v2026.09.0", Some(Some("/srv/policy".into()))).expect("a path");
    assert_eq!(path, "/srv/policy/policy/baselines/v2026.09.0.toml");
}

#[test]
fn cloned_baselines_keep_their_rules() {
    let loaded = accept_baseline(&reference("v2026.09.0"), "b.toml", Ok(Ok(baseline(1, "v2026.09.0"))))
        .expect("valid baseline");
    let copy = loaded.clone();
    assert_eq!(copy.commit, loaded.commit);
    assert_eq!(copy.baseline.release, "v2026.09.0");
    assert!(copy.baseline.profile(Profile::Library).is_some());
}
