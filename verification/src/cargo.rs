//! What Cargo reports of a project: its declared and resolved dependencies.

use vstd::prelude::*;

use crate::config::Profile;
use crate::error::{PolicyError, PolicyErrorView};
use crate::text::join3;
use crate::versions::{Requirement, SemanticVersion};

verus! {

/// A resolved package represented in a policy report.
#[derive(Debug, Clone, PartialEq, Eq)]
pub struct ResolvedPackage {
    /// Package name.
    pub name: String,
    /// Resolved package version.
    pub version: SemanticVersion,
    /// Registry or Git source, if any.
    pub source: Option<String>,
}

/// The mathematical value of a [`ResolvedPackage`].
pub struct PackageView {
    pub name: Seq<char>,
    pub version: Seq<char>,
    pub source: Option<Seq<char>>,
}

impl View for ResolvedPackage {
    type V = PackageView;

    open spec fn view(&self) -> PackageView {
        PackageView {
            name: self.name@,
            version: self.version@,
            source: crate::diagnostic::opt_text(self.source),
        }
    }
}

/// The views of a sequence of packages.
pub open spec fn package_views(p: Seq<ResolvedPackage>) -> Seq<PackageView> {
    p.map_values(|x: ResolvedPackage| x@)
}

/// A dependency declared by the root package of a project.
#[derive(Debug)]
pub struct DeclaredDependency {
    /// Package name of the dependency.
    pub name: String,
    /// The declared version requirement.
    pub requirement: Requirement,
}

/// The mathematical value of a [`DeclaredDependency`].
pub struct DependencyView {
    pub name: Seq<char>,
    pub requirement: Seq<char>,
}

impl View for DeclaredDependency {
    type V = DependencyView;

    open spec fn view(&self) -> DependencyView {
        DependencyView { name: self.name@, requirement: self.requirement@ }
    }
}

/// The views of a sequence of declared dependencies.
pub open spec fn dependency_views(d: Seq<DeclaredDependency>) -> Seq<DependencyView> {
    d.map_values(|x: DeclaredDependency| x@)
}

/// What `cargo metadata` reports of a project.
#[derive(Debug)]
pub struct ProjectMetadata {
    /// The dependencies of the root package, when the project has one.
    pub root_dependencies: Option<Vec<DeclaredDependency>>,
    /// Every package of the resolved dependency graph.
    pub packages: Vec<ResolvedPackage>,
}

/// The mathematical value of [`ProjectMetadata`].
pub struct MetadataView {
    pub root_dependencies: Option<Seq<DependencyView>>,
    pub packages: Seq<PackageView>,
}

impl View for ProjectMetadata {
    type V = MetadataView;

    open spec fn view(&self) -> MetadataView {
        MetadataView {
            root_dependencies: match self.root_dependencies {
                Some(d) => Some(dependency_views(d@)),
                None => None,
            },
            packages: package_views(self.packages@),
        }
    }
}

/// The error for an application without a lockfile.
pub open spec fn missing_lockfile(project: Seq<char>) -> PolicyErrorView {
    PolicyErrorView::Cargo {
        code: "DP201"@,
        message: "application "@ + project + " has no Cargo.lock"@,
    }
}

/// Decides how Cargo is asked for the metadata of `project`: an application
/// must have a `Cargo.lock`; the resolution is locked for an application and
/// for any project that has one. Returns whether to pass `--locked`.
pub fn metadata_locking(project: &str, profile: Profile, has_lock: bool) -> (r: Result<bool, PolicyError>)
    ensures
        profile == Profile::Application && !has_lock ==> (r matches Err(e) && e@ == missing_lockfile(project@)),
        !(profile == Profile::Application && !has_lock) ==> r == Ok::<bool, PolicyError>(
            profile == Profile::Application || has_lock,
        ),
{
    if profile == Profile::Application && !has_lock {
        return Err(
            PolicyError::Cargo {
                code: "DP201",
                message: join3("application ", project, " has no Cargo.lock"),
            },
        );
    }
    Ok(profile == Profile::Application || has_lock)
}

} // verus!
