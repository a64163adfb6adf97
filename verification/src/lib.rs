//! Shared third-party dependency baselines: configuration, rules, reports and
//! conservative manifest synchronization, each operation stated by its contract.

pub mod text;
pub mod keyed_map;
pub mod versions;
pub mod error;
pub mod diagnostic;
pub mod paths;
pub mod config;
pub mod baseline;
pub mod cargo;
pub mod source;
pub mod rules;
pub mod report;
pub mod manifest;
pub mod sync;
pub mod laws;

pub use crate::baseline::{Baseline, DirectRule, ProfileRules, ResolvedRule};
pub use crate::cargo::{metadata_locking, DeclaredDependency, ProjectMetadata, ResolvedPackage};
pub use crate::config::{config_path, BaselineRef, Profile, ProjectConfig, ProjectSettings};
pub use crate::diagnostic::Violation;
pub use crate::error::PolicyError;
pub use crate::keyed_map::KeyedMap;
pub use crate::manifest::Manifest;
pub use crate::report::{render_markdown, BaselineIdentity, Report};
pub use crate::rules::{evaluate, evaluate_project, rules_for, Evaluation};
pub use crate::source::{accept_baseline, locate_baseline, locate_under, LoadedBaseline};
pub use crate::sync::{
    apply_edit, ensure_applicable, manifest_path, plan_sync, write_failure, FileEdit, LockUpdate,
    SyncPlan,
};
pub use crate::versions::{Requirement, SemanticVersion};
