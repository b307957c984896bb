//! Passive, externally populated records the resolver and renderer operate
//! over: the workspace description, one context per resolved crate version,
//! and the render configuration and output types.

use vstd::prelude::*;

verus! {

/// Workspace-wide settings, one per render pass.
pub struct WorkspaceContext {
    /// Root build-label prefix of the workspace.
    pub workspace_path: String,
    /// Prefix used when naming generated remote repositories.
    pub gen_workspace_prefix: String,
    /// Filename used for generated build files (for example `BUILD` or
    /// `BUILD.bazel`).
    pub output_buildfile_suffix: String,
}

/// A dependency exposed under a different name at use sites. Aliasing must
/// be preserved verbatim, since it changes the import name.
pub struct DependencyAlias {
    /// Label of the crate being depended on.
    pub target: String,
    /// Name under which the dependency is exposed.
    pub alias: String,
}

/// Named, order-irrelevant sets of dependency labels, partitioned by role.
pub struct CrateDependencyContext {
    pub dependencies: Vec<String>,
    pub proc_macro_dependencies: Vec<String>,
    pub build_dependencies: Vec<String>,
    pub build_proc_macro_dependencies: Vec<String>,
    pub dev_dependencies: Vec<String>,
    pub aliased_dependencies: Vec<DependencyAlias>,
}

/// A dependency bundle scoped to a platform-conditional expression.
pub struct CrateTargetedDepContext {
    /// The conditional expression: a bare triple or a `cfg(...)` expression.
    pub target: String,
    /// The dependencies active where the expression matches.
    pub deps: CrateDependencyContext,
}

/// One buildable target of a crate.
pub struct BuildableTarget {
    pub name: String,
    /// Target kind: `lib`, `bin`, or a build-script kind.
    pub kind: String,
    /// Entry-point source path.
    pub path: String,
    pub edition: String,
}

/// License summary attributed to a crate.
pub struct LicenseData {
    pub name: String,
}

impl core::default::Default for LicenseData {
    /// A crate with no detected license.
    fn default() -> (r: Self)
        ensures
            r.name@ == "no license"@,
    {
        LicenseData { name: String::from_str("no license") }
    }
}

/// Per-crate settings supplied by the user.
pub struct CrateSettings {
    /// Optional path to a raw build-file fragment spliced verbatim after
    /// the generated build file body.
    pub additional_build_file: Option<String>,
}

impl core::default::Default for CrateSettings {
    fn default() -> (r: Self)
        ensures
            r.additional_build_file is None,
    {
        CrateSettings { additional_build_file: None }
    }
}

/// A version-control pin for a crate fetched from a repository.
pub struct GitRepo {
    pub remote: String,
    pub commit: String,
}

/// Source provenance of a crate.
pub struct SourceDetails {
    pub git_data: Option<GitRepo>,
}

/// Everything the renderer needs to know about one resolved crate version.
/// Constructed once by the external planner per render pass, read-only to
/// this crate.
pub struct CrateContext {
    pub pkg_name: String,
    pub pkg_version: String,
    pub edition: String,
    pub license: LicenseData,
    pub features: Vec<String>,
    /// Path, relative to the render prefix, of this crate's build file.
    pub expected_build_path: String,
    pub raze_settings: CrateSettings,
    /// The platform-unconditional dependency bundle.
    pub default_deps: CrateDependencyContext,
    /// Platform-conditional dependency bundles, one per expression.
    pub targeted_deps: Vec<CrateTargetedDepContext>,
    /// Whether the crate was directly requested by the workspace, as
    /// opposed to pulled in transitively.
    pub is_root_dependency: bool,
    /// Label path at which the crate is addressable.
    pub workspace_path_to_crate: String,
    pub targets: Vec<BuildableTarget>,
    pub build_script_target: Option<BuildableTarget>,
    pub source_details: SourceDetails,
    /// Content checksum, when known.
    pub sha256: Option<String>,
    /// Download URL for remote-fetch mode.
    pub registry_url: String,
    /// Normalized library target name, used for libraries when the package
    /// name is not a valid identifier.
    pub lib_target_name: Option<String>,
}

/// The single input to rendering: workspace description plus the ordered
/// crate list.
pub struct PlannedBuild {
    pub workspace_context: WorkspaceContext,
    pub crate_contexts: Vec<CrateContext>,
}

/// Render configuration: output path prefix and build-file suffix.
pub struct RenderDetails {
    pub path_prefix: String,
    pub buildfile_suffix: String,
}

/// One file produced by the renderer: a relative path and the full text
/// contents. Persistence is an external responsibility; the same shape also
/// carries pre-read file contents into the renderer.
#[derive(Debug)]
pub struct FileOutputs {
    pub path: String,
    pub contents: String,
}

} // verus!
