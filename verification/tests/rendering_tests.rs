//! Tests of the build plan renderer, in both output topologies.

use cargo_raze::context::BuildableTarget;
use cargo_raze::context::CrateContext;
use cargo_raze::context::CrateDependencyContext;
use cargo_raze::context::CrateSettings;
use cargo_raze::context::FileOutputs;
use cargo_raze::context::LicenseData;
use cargo_raze::context::PlannedBuild;
use cargo_raze::context::RenderDetails;
use cargo_raze::context::SourceDetails;
use cargo_raze::context::WorkspaceContext;
use cargo_raze::rendering::BazelRenderer;

fn dummy_render_details(buildfile_suffix: &str) -> RenderDetails {
    RenderDetails {
        path_prefix: "./some_render_prefix".to_owned(),
        buildfile_suffix: buildfile_suffix.to_owned(),
    }
}

fn dummy_planned_build(crate_contexts: Vec<CrateContext>) -> PlannedBuild {
    PlannedBuild {
        workspace_context: WorkspaceContext {
            workspace_path: "//workspace/prefix".to_owned(),
            gen_workspace_prefix: "".to_owned(),
            output_buildfile_suffix: "BUILD".to_owned(),
        },
        crate_contexts,
    }
}

fn empty_deps() -> CrateDependencyContext {
    CrateDependencyContext {
        dependencies: Vec::new(),
        proc_macro_dependencies: Vec::new(),
        build_dependencies: Vec::new(),
        build_proc_macro_dependencies: Vec::new(),
        dev_dependencies: Vec::new(),
        aliased_dependencies: Vec::new(),
    }
}

fn dummy_binary_crate_with_name(buildfile_suffix: &str) -> CrateContext {
    CrateContext {
        pkg_name: "test-binary".to_owned(),
        pkg_version: "1.1.1".to_owned(),
        edition: "2015".to_owned(),
        license: LicenseData::default(),
        features: vec!["feature1".to_owned(), "feature2".to_owned()],
        expected_build_path: format!("vendor/test-binary-1.1.1/{}", buildfile_suffix),
        raze_settings: CrateSettings::default(),
        default_deps: empty_deps(),
        targeted_deps: Vec::new(),
        is_root_dependency: true,
        workspace_path_to_crate: "@raze__test_binary__1_1_1//".to_owned(),
        targets: vec![BuildableTarget {
            name: "some_binary".to_owned(),
            kind: "bin".to_owned(),
            path: "bin/main.rs".to_owned(),
            edition: "2015".to_owned(),
        }],
        build_script_target: None,
        source_details: SourceDetails { git_data: None },
        sha256: None,
        registry_url: "https://crates.io/api/v1/crates/test-binary/1.1.1/download".to_string(),
        lib_target_name: None,
    }
}

fn dummy_binary_crate() -> CrateContext {
    dummy_binary_crate_with_name("BUILD")
}

fn dummy_library_crate_with_name(buildfile_suffix: &str) -> CrateContext {
    CrateContext {
        pkg_name: "test-library".to_owned(),
        pkg_version: "1.1.1".to_owned(),
        edition: "2015".to_owned(),
        license: LicenseData::default(),
        features: vec!["feature1".to_owned(), "feature2".to_owned()],
        expected_build_path: format!("vendor/test-library-1.1.1/{}", buildfile_suffix),
        raze_settings: CrateSettings::default(),
        default_deps: empty_deps(),
        targeted_deps: Vec::new(),
        is_root_dependency: true,
        workspace_path_to_crate: "@raze__test_library__1_1_1//".to_owned(),
        targets: vec![BuildableTarget {
            name: "some_library".to_owned(),
            kind: "lib".to_owned(),
            path: "path/lib.rs".to_owned(),
            edition: "2015".to_owned(),
        }],
        build_script_target: None,
        source_details: SourceDetails { git_data: None },
        sha256: None,
        registry_url: "https://crates.io/api/v1/crates/test-binary/1.1.1/download".to_string(),
        lib_target_name: Some("test_library".to_owned()),
    }
}

fn dummy_library_crate() -> CrateContext {
    dummy_library_crate_with_name("BUILD")
}

fn extract_contents_matching_path(file_outputs: &Vec<FileOutputs>, file_name: &str) -> String {
    println!("Known files :{:?}", file_outputs);
    let mut matching_files_contents = file_outputs
        .iter()
        .filter(|output| output.path.starts_with(file_name))
        .map(|output| output.contents.to_owned())
        .collect::<Vec<String>>();

    assert_eq!(matching_files_contents.len(), 1);
    matching_files_contents.pop().unwrap()
}

fn render_crates_for_test_with_name(
    buildfile_suffix: &str,
    crate_contexts: Vec<CrateContext>,
) -> Vec<FileOutputs> {
    BazelRenderer::new()
        .render_planned_build(
            &dummy_render_details(buildfile_suffix),
            &dummy_planned_build(crate_contexts),
            &Vec::new(),
        )
        .unwrap()
}

fn render_crates_for_test(crate_contexts: Vec<CrateContext>) -> Vec<FileOutputs> {
    render_crates_for_test_with_name("BUILD", crate_contexts)
}

#[test]
fn all_plans_contain_root_build_file() {
    let file_outputs = render_crates_for_test(Vec::new());
    let file_names = file_outputs
        .iter()
        .map(|output| output.path.as_ref())
        .collect::<Vec<&str>>();

    assert_eq!(file_names, vec!["./some_render_prefix/BUILD"]);
}

#[test]
fn crates_generate_build_files() {
    let file_outputs = render_crates_for_test(vec![dummy_library_crate()]);
    let file_names = file_outputs
        .iter()
        .map(|output| output.path.as_ref())
        .collect::<Vec<&str>>();

    assert_eq!(
        file_names,
        vec![
            "./some_render_prefix/vendor/test-library-1.1.1/BUILD",
            "./some_render_prefix/BUILD",
        ]
    );
}

#[test]
fn crates_generate_build_files_bazel() {
    let file_outputs = render_crates_for_test_with_name(
        "BUILD.bazel",
        vec![dummy_library_crate_with_name("BUILD.bazel")],
    );
    let file_names = file_outputs
        .iter()
        .map(|output| output.path.as_ref())
        .collect::<Vec<&str>>();

    assert_eq!(
        file_names,
        vec![
            "./some_render_prefix/vendor/test-library-1.1.1/BUILD.bazel",
            "./some_render_prefix/BUILD.bazel",
        ]
    );
}

#[test]
fn root_crates_get_build_aliases() {
    let file_outputs = render_crates_for_test(vec![dummy_library_crate()]);
    let root_build_contents =
        extract_contents_matching_path(&file_outputs, "./some_render_prefix/BUILD");

    assert!(
        root_build_contents.contains("alias"),
        "expected root build contents to contain an alias for test-library crate, but it just \
         contained [{}]",
        root_build_contents
    );
}

#[test]
fn non_root_crates_dont_get_build_aliases() {
    let mut non_root_crate = dummy_library_crate();
    non_root_crate.is_root_dependency = false;

    let file_outputs = render_crates_for_test(vec![non_root_crate]);
    let root_build_contents =
        extract_contents_matching_path(&file_outputs, "./some_render_prefix/BUILD");

    assert!(
        !root_build_contents.contains("alias"),
        "expected root build contents not to contain an alias for test-library crate, but it just \
         contained [{}]",
        root_build_contents
    );
}

#[test]
fn binaries_get_rust_binary_rules() {
    let file_outputs = render_crates_for_test(vec![dummy_binary_crate()]);
    let crate_build_contents = extract_contents_matching_path(
        &file_outputs,
        "./some_render_prefix/vendor/test-binary-1.1.1/BUILD",
    );

    assert!(
        crate_build_contents.contains("rust_binary("),
        "expected crate build contents to contain rust_binary, but it just contained [{}]",
        crate_build_contents
    );
}

#[test]
fn libraries_get_rust_library_rules() {
    let file_outputs = render_crates_for_test(vec![dummy_library_crate()]);
    let crate_build_contents = extract_contents_matching_path(
        &file_outputs,
        "./some_render_prefix/vendor/test-library-1.1.1/BUILD",
    );

    assert!(
        crate_build_contents.contains("rust_library("),
        "expected crate build contents to contain rust_library, but it just contained [{}]",
        crate_build_contents
    );
}

#[test]
fn additional_build_file_missing_file_failure() {
    let render_result = BazelRenderer::new().render_planned_build(
        &dummy_render_details("BUILD"),
        &dummy_planned_build(vec![CrateContext {
            raze_settings: CrateSettings {
                additional_build_file: Some("non-existent-file".into()),
            },
            ..dummy_library_crate()
        }]),
        &Vec::new(),
    );

    assert!(render_result.is_err());
}

#[test]
fn additional_build_file_included() {
    let additional_files = vec![FileOutputs {
        path: "README.md".to_owned(),
        contents: "# A sample readme\n".to_owned(),
    }];
    let file_outputs = BazelRenderer::new()
        .render_planned_build(
            &dummy_render_details("BUILD"),
            &dummy_planned_build(vec![CrateContext {
                raze_settings: CrateSettings {
                    additional_build_file: Some("README.md".into()),
                },
                ..dummy_library_crate()
            }]),
            &additional_files,
        )
        .unwrap();
    let crate_build_contents = extract_contents_matching_path(
        &file_outputs,
        "./some_render_prefix/vendor/test-library-1.1.1/BUILD",
    );

    assert!(
        crate_build_contents.contains("# Additional content from README.md"),
        "expected crate build contents to include additional_build_file, but it just contained \
         [{}]",
        crate_build_contents
    );
    assert!(crate_build_contents.contains("# A sample readme"));
}

#[test]
fn remote_mode_produces_n_plus_three_outputs() {
    let file_outputs = BazelRenderer::new()
        .render_remote_planned_build(
            &dummy_render_details("BUILD"),
            &dummy_planned_build(vec![dummy_library_crate(), dummy_binary_crate()]),
            &Vec::new(),
        )
        .unwrap();

    assert_eq!(file_outputs.len(), 2 + 3);
    assert_eq!(file_outputs[0].path, "./some_render_prefix/remote/BUILD");
    assert_eq!(file_outputs[0].contents, "");
    assert_eq!(
        file_outputs[1].path,
        "./some_render_prefix/vendor/test-library-1.1.1/BUILD"
    );
    assert_eq!(
        file_outputs[2].path,
        "./some_render_prefix/vendor/test-binary-1.1.1/BUILD"
    );
    assert_eq!(file_outputs[3].path, "./some_render_prefix/BUILD");
    assert_eq!(file_outputs[4].path, "./some_render_prefix/crates.bzl");
}

#[test]
fn remote_mode_fetch_file_lists_each_crate() {
    let file_outputs = BazelRenderer::new()
        .render_remote_planned_build(
            &dummy_render_details("BUILD"),
            &dummy_planned_build(vec![CrateContext {
                sha256: Some("0123abcd".to_owned()),
                ..dummy_library_crate()
            }]),
            &Vec::new(),
        )
        .unwrap();
    let fetch_contents =
        extract_contents_matching_path(&file_outputs, "./some_render_prefix/crates.bzl");

    assert!(fetch_contents.contains("def fetch_remote_crates():"));
    assert!(fetch_contents.contains("\"__test-library\""));
    assert!(fetch_contents.contains("version = \"1.1.1\""));
    assert!(fetch_contents.contains("sha256 = \"0123abcd\""));
    assert!(fetch_contents
        .contains("url = \"https://crates.io/api/v1/crates/test-binary/1.1.1/download\""));
}

#[test]
fn conditional_dependencies_render_in_select_blocks() {
    let mut lib = dummy_library_crate();
    lib.targeted_deps = vec![cargo_raze::context::CrateTargetedDepContext {
        target: "cfg(unix)".to_owned(),
        deps: CrateDependencyContext {
            dependencies: vec!["@raze__libc__0_2_0//:libc".to_owned()],
            ..empty_deps()
        },
    }];
    let file_outputs = render_crates_for_test(vec![lib]);
    let crate_build_contents = extract_contents_matching_path(
        &file_outputs,
        "./some_render_prefix/vendor/test-library-1.1.1/BUILD",
    );

    assert!(crate_build_contents.contains(" + select({"));
    assert!(crate_build_contents
        .contains("\"@io_bazel_rules_rust//rust/platform:aarch64-apple-ios\": ["));
    assert!(crate_build_contents.contains("\"@raze__libc__0_2_0//:libc\""));
    assert!(crate_build_contents.contains("\"//conditions:default\": []"));
}

#[test]
fn tautological_conditional_dependencies_fold_into_deps() {
    let mut lib = dummy_library_crate();
    lib.targeted_deps = vec![cargo_raze::context::CrateTargetedDepContext {
        target: "cfg(not(fuchsia))".to_owned(),
        deps: CrateDependencyContext {
            dependencies: vec!["@raze__log__0_4_0//:log".to_owned()],
            ..empty_deps()
        },
    }];
    let file_outputs = render_crates_for_test(vec![lib]);
    let crate_build_contents = extract_contents_matching_path(
        &file_outputs,
        "./some_render_prefix/vendor/test-library-1.1.1/BUILD",
    );

    assert!(crate_build_contents.contains("\"@raze__log__0_4_0//:log\""));
    assert!(!crate_build_contents.contains("select({"));
}

#[test]
fn unsupported_conditional_dependencies_are_dropped() {
    let mut lib = dummy_library_crate();
    lib.targeted_deps = vec![cargo_raze::context::CrateTargetedDepContext {
        target: "cfg(target_os = \"redox\")".to_owned(),
        deps: CrateDependencyContext {
            dependencies: vec!["@raze__redox_syscall__0_1_0//:syscall".to_owned()],
            ..empty_deps()
        },
    }];
    let file_outputs = render_crates_for_test(vec![lib]);
    let crate_build_contents = extract_contents_matching_path(
        &file_outputs,
        "./some_render_prefix/vendor/test-library-1.1.1/BUILD",
    );

    assert!(!crate_build_contents.contains("redox_syscall"));
}

#[test]
fn build_script_target_wires_build_script_rule() {
    let mut lib = dummy_library_crate();
    lib.build_script_target = Some(BuildableTarget {
        name: "build-script-build".to_owned(),
        kind: "custom-build".to_owned(),
        path: "build.rs".to_owned(),
        edition: "2015".to_owned(),
    });
    let file_outputs = render_crates_for_test(vec![lib]);
    let crate_build_contents = extract_contents_matching_path(
        &file_outputs,
        "./some_render_prefix/vendor/test-library-1.1.1/BUILD",
    );

    assert!(crate_build_contents.contains("rust_build_script("));
    assert!(crate_build_contents.contains("\":build_script\""));
}

#[test]
fn rendered_crate_contains_features_and_license() {
    let renderer = BazelRenderer::new();
    let planned = dummy_planned_build(Vec::new());
    let contents = renderer.render_crate(&planned.workspace_context, &dummy_library_crate());

    assert!(contents.contains("Generated build targets for test-library-1.1.1"));
    assert!(contents.contains("License: no license"));
    assert!(contents.contains("\"feature1\""));
    assert!(contents.contains("\"feature2\""));
    assert!(contents.contains("name = \"test_library\""));
}

#[test]
fn missing_additional_file_error_attributes_crate() {
    let render_result = BazelRenderer::new().render_planned_build(
        &dummy_render_details("BUILD"),
        &dummy_planned_build(vec![CrateContext {
            raze_settings: CrateSettings {
                additional_build_file: Some("non-existent-file".into()),
            },
            ..dummy_library_crate()
        }]),
        &Vec::new(),
    );

    match render_result {
        Err(cargo_raze::errors::RazeError::Rendering {
            crate_name_opt,
            message,
        }) => {
            assert_eq!(crate_name_opt, Some("test-library".to_owned()));
            assert!(message.contains("failed to read additional_build_file"));
            assert!(message.contains("non-existent-file"));
        }
        other => panic!("expected a rendering error, got {:?}", other),
    }
}

#[test]
fn remote_crate_body_matches_vendor_body() {
    let renderer = BazelRenderer::new();
    let planned = dummy_planned_build(Vec::new());
    let lib = dummy_library_crate();
    assert_eq!(
        renderer.render_crate(&planned.workspace_context, &lib),
        renderer.render_remote_crate(&planned.workspace_context, &lib)
    );
    let aliases = renderer.render_aliases(&planned.workspace_context, &vec![lib]);
    let remote_aliases = renderer.render_remote_aliases(
        &planned.workspace_context,
        &vec![dummy_library_crate()],
    );
    assert_eq!(aliases, remote_aliases);
}

#[test]
fn aliased_dependencies_are_preserved_verbatim() {
    let mut lib = dummy_library_crate();
    lib.default_deps.aliased_dependencies = vec![cargo_raze::context::DependencyAlias {
        target: "@raze__futures__0_3_0//:futures".to_owned(),
        alias: "futures03".to_owned(),
    }];
    let file_outputs = render_crates_for_test(vec![lib]);
    let crate_build_contents = extract_contents_matching_path(
        &file_outputs,
        "./some_render_prefix/vendor/test-library-1.1.1/BUILD",
    );

    assert!(crate_build_contents.contains("aliases = {"));
    assert!(crate_build_contents
        .contains("\"@raze__futures__0_3_0//:futures\": \"futures03\""));
}
