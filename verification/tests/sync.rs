use qubit_dependency_policy::manifest::Declaration;
use qubit_dependency_policy::{
    apply_edit, ensure_applicable, manifest_path, plan_sync, write_failure, DirectRule, FileEdit, KeyedMap,
    Manifest, ProfileRules, Requirement, SyncPlan, Violation,
};

const VERSION_ONLY: &str = "[package]\nname = \"fixture\"\nversion = \"0.1.0\"\n\n[dependencies]\nnum-bigint = \"0.5\"\n";

const FEATURE_CONFLICT: &str = "[package]\nname = \"fixture\"\nversion = \"0.1.0\"\n\n[dependencies]\nnum-bigint = { version = \"0.5\", features = [\"serde\"] }\n";

fn num_bigint_rules() -> ProfileRules {
    let mut direct = KeyedMap::new();
    direct.insert(
        "num-bigint".into(),
        DirectRule {
            requirement: Requirement::parse("0.4.8").expect("valid requirement"),
        },
    );
    ProfileRules {
        direct,
        resolved: KeyedMap::new(),
    }
}

#[test]
fn plans_num_bigint_version_replacement_without_writing() {
    let plan = plan_sync(
        "tests/fixtures/sync-version-only/Cargo.toml",
        Ok(VERSION_ONLY.to_string()),
        &num_bigint_rules(),
    )
    .expect("sync plan");
    assert_eq!(plan.manifest_edits.len(), 1);
    assert_eq!(plan.manifest_edits[0].dependency, "num-bigint");
    assert!(plan.manifest_edits[0].new.contains("0.4.8"));
}

#[test]
fn blocks_inline_dependency_declarations() {
    let plan = plan_sync(
        "tests/fixtures/sync-feature-conflict/Cargo.toml",
        Ok(FEATURE_CONFLICT.to_string()),
        &num_bigint_rules(),
    )
    .expect("sync plan");
    assert_eq!(plan.blocked[0].code, "DP301");
}

#[test]
fn plan_records_old_and_new_requirements_and_lock_updates() {
    let plan = plan_sync("Cargo.toml", Ok(VERSION_ONLY.to_string()), &num_bigint_rules())
        .expect("sync plan");
    assert_eq!(plan.manifest_edits[0].path, "Cargo.toml");
    assert_eq!(plan.manifest_edits[0].old, "0.5");
    assert_eq!(plan.manifest_edits[0].new, "^0.4.8");
    assert_eq!(plan.lock_updates.len(), 1);
    assert_eq!(plan.lock_updates[0].package, "num-bigint");
    assert_eq!(plan.lock_updates[0].version, "^0.4.8");
    assert!(plan.blocked.is_empty());
}

#[test]
fn matching_or_absent_declarations_need_no_edit() {
    let settled = "[dependencies]\nnum-bigint = \"^0.4.8\"\n";
    let plan = plan_sync("Cargo.toml", Ok(settled.to_string()), &num_bigint_rules()).expect("plan");
    assert!(plan.manifest_edits.is_empty() && plan.blocked.is_empty());
    let absent = "[dependencies]\nserde = \"1\"\n";
    let plan = plan_sync("Cargo.toml", Ok(absent.to_string()), &num_bigint_rules()).expect("plan");
    assert!(plan.manifest_edits.is_empty() && plan.blocked.is_empty());
}

#[test]
fn planning_reports_read_and_parse_failures() {
    let error = plan_sync("m/Cargo.toml", Err("gone".into()), &num_bigint_rules())
        .expect_err("read failure");
    assert_eq!(error.code(), "DP302");
    assert_eq!(error.describe(), "failed to read m/Cargo.toml: gone");
    let error = plan_sync("m/Cargo.toml", Ok("[dependencies\n".into()), &num_bigint_rules())
        .expect_err("parse failure");
    assert!(error.describe().starts_with("failed to parse m/Cargo.toml: "));
}

#[test]
fn applied_edit_settles_the_dependency() {
    let plan = plan_sync("Cargo.toml", Ok(VERSION_ONLY.to_string()), &num_bigint_rules())
        .expect("plan");
    ensure_applicable(&plan).expect("nothing blocked");
    let edited = apply_edit(&plan.manifest_edits[0], Ok(VERSION_ONLY.to_string())).expect("edit");
    assert!(edited.contains("num-bigint = \"^0.4.8\""));
    assert!(edited.contains("name = \"fixture\""));
    let again = plan_sync("Cargo.toml", Ok(edited), &num_bigint_rules()).expect("plan");
    assert!(again.manifest_edits.is_empty());
}

#[test]
fn applying_reports_changed_manifests() {
    let edit = FileEdit {
        path: "Cargo.toml".into(),
        dependency: "num-bigint".into(),
        old: "0.5".into(),
        new: "^0.4.8".into(),
    };
    let error = apply_edit(&edit, Ok(FEATURE_CONFLICT.to_string())).expect_err("inline");
    assert_eq!(error.describe(), "dependency num-bigint is no longer a string");
    let error = apply_edit(&edit, Ok("[package]\nname = \"x\"\n".to_string())).expect_err("gone");
    assert_eq!(error.describe(), "dependency num-bigint disappeared");
    let error = apply_edit(&edit, Err("denied".into())).expect_err("read");
    assert_eq!(error.describe(), "failed to read Cargo.toml: denied");
}

#[test]
fn blocked_plans_are_not_applied() {
    let plan = SyncPlan {
        manifest_edits: Vec::new(),
        lock_updates: Vec::new(),
        blocked: vec![Violation {
            code: "DP301",
            crate_name: "num-bigint".into(),
            message: "dependency declaration is not a plain version string".into(),
            exception_id: None,
        }],
    };
    let error = ensure_applicable(&plan).expect_err("blocked");
    assert_eq!(error.describe(), "sync plan contains blocked edits");
    assert_eq!(
        write_failure("Cargo.toml", "read-only").describe(),
        "failed to write Cargo.toml: read-only"
    );
}

#[test]
fn manifest_path_adjoins_cargo_toml() {
    assert_eq!(manifest_path("/w/project"), "/w/project/Cargo.toml");
    assert_eq!(manifest_path("/w/project/"), "/w/project/Cargo.toml");
    assert_eq!(manifest_path(""), "Cargo.toml");
}

#[test]
fn applied_edit_keeps_other_dependencies() {
    let text = "[dependencies]\nserde = { version = \"1\", features = [\"derive\"] }\nnum-bigint = \"0.5\"\nlibc = \"0.2\"\n";
    let edit = FileEdit {
        path: "Cargo.toml".into(),
        dependency: "num-bigint".into(),
        old: "0.5".into(),
        new: "^0.4.8".into(),
    };
    let edited = apply_edit(&edit, Ok(text.to_string())).expect("plain string entries are edited");
    let before = Manifest::parse(text).expect("parses");
    let after = Manifest::parse(&edited).expect("parses");
    for name in ["serde", "libc", "missing"] {
        assert_eq!(
            format!("{:?}", after.dependency(name)),
            format!("{:?}", before.dependency(name))
        );
    }
    assert_eq!(
        format!("{:?}", after.dependency("num-bigint")),
        format!("{:?}", Declaration::PlainString("^0.4.8".into()))
    );
}

#[test]
fn applied_edit_keeps_everything_outside_the_entry() {
    let text = "[package]\nname = \"fixture\"\nversion = \"0.1.0\"\n\n[dependencies]\nnum-bigint = \"0.5\"\nlibc = \"0.2\"\n\n[features]\ndefault = []\n";
    let edit = FileEdit {
        path: "Cargo.toml".into(),
        dependency: "num-bigint".into(),
        old: "0.5".into(),
        new: "^0.4.8".into(),
    };
    let edited = apply_edit(&edit, Ok(text.to_string())).expect("plain string entries are edited");
    let mut before = text.parse::<toml::Table>().expect("parses");
    let mut after = edited.parse::<toml::Table>().expect("parses");
    assert_eq!(
        after["dependencies"]["num-bigint"],
        toml::Value::String("^0.4.8".into())
    );
    before["dependencies"].as_table_mut().expect("table").remove("num-bigint");
    after["dependencies"].as_table_mut().expect("table").remove("num-bigint");
    assert_eq!(after, before);
}

#[test]
fn reapplying_an_edit_gives_back_the_same_document() {
    let edit = FileEdit {
        path: "Cargo.toml".into(),
        dependency: "num-bigint".into(),
        old: "0.5".into(),
        new: "^0.4.8".into(),
    };
    let first = apply_edit(&edit, Ok(VERSION_ONLY.to_string())).expect("first application");
    let second = apply_edit(&edit, Ok(first.clone())).expect("second application");
    assert_eq!(
        second.parse::<toml::Table>().expect("parses"),
        first.parse::<toml::Table>().expect("parses")
    );
}

#[test]
fn cloned_plans_compare_equal() {
    let plan = plan_sync("Cargo.toml", Ok(VERSION_ONLY.to_string()), &num_bigint_rules()).expect("plan");
    let copy = plan.clone();
    assert_eq!(copy, plan);
    assert_eq!(copy.manifest_edits[0].clone(), plan.manifest_edits[0]);
}
