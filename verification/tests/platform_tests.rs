//! Tests of the platform resolver: expression classification, matching
//! triple extraction, whitelist filtering, and label generation.

use cargo_raze::errors::RazeError;
use cargo_raze::platform::filter_bazel_triples;
use cargo_raze::platform::generate_bazel_conditions;
use cargo_raze::platform::get_matching_bazel_triples;
use cargo_raze::platform::get_platform_by_triple;
use cargo_raze::platform::is_bazel_supported_platform;
use cargo_raze::platform::is_workspace_root;
use cargo_raze::platform::supported_platform_triples;

#[test]
fn detect_bazel_platforms() {
    assert_eq!(
        is_bazel_supported_platform(&"cfg(not(fuchsia))".to_string()),
        (true, true)
    );
    assert_eq!(
        is_bazel_supported_platform(&"cfg(not(target_os = \"redox\"))".to_string()),
        (true, true)
    );
    assert_eq!(
        is_bazel_supported_platform(&"cfg(unix)".to_string()),
        (true, false)
    );
    assert_eq!(
        is_bazel_supported_platform(&"cfg(not(windows))".to_string()),
        (true, false)
    );
    assert_eq!(
        is_bazel_supported_platform(&"cfg(target = \"x86_64-apple-darwin\")".to_string()),
        (true, false)
    );
    assert_eq!(
        is_bazel_supported_platform(&"x86_64-apple-darwin".to_string()),
        (true, false)
    );
    assert_eq!(
        is_bazel_supported_platform(&"unknown-unknown-unknown".to_string()),
        (false, false)
    );
    assert_eq!(
        is_bazel_supported_platform(&"cfg(foo)".to_string()),
        (false, false)
    );
    assert_eq!(
        is_bazel_supported_platform(&"cfg(target_os = \"redox\")".to_string()),
        (false, false)
    );
}

#[test]
fn all_supported_platform_triples_unwrap() {
    for platform in supported_platform_triples().iter() {
        get_platform_by_triple(platform.triple.as_str()).unwrap();
    }
}

#[test]
fn generate_condition_strings() {
    assert_eq!(
        generate_bazel_conditions(&vec![
            "aarch64-unknown-linux-gnu".to_string(),
            "aarch64-apple-ios".to_string(),
        ])
        .unwrap(),
        vec![
            "@io_bazel_rules_rust//rust/platform:aarch64-apple-ios".to_string(),
            "@io_bazel_rules_rust//rust/platform:aarch64-unknown-linux-gnu".to_string(),
        ]
    );

    assert_eq!(
        generate_bazel_conditions(&vec!["aarch64-unknown-linux-gnu".to_string()]).unwrap(),
        vec!["@io_bazel_rules_rust//rust/platform:aarch64-unknown-linux-gnu".to_string()]
    );

    assert!(generate_bazel_conditions(&vec![
        "aarch64-unknown-linux-gnu".to_string(),
        "unknown-unknown-unknown".to_string(),
    ])
    .is_err());

    assert!(generate_bazel_conditions(&vec!["unknown-unknown-unknown".to_string()]).is_err());

    assert!(generate_bazel_conditions(&vec![
        "foo".to_string(),
        "bar".to_string(),
        "baz".to_string()
    ])
    .is_err());
}

#[test]
fn condition_failure_names_first_offending_triple() {
    let result = generate_bazel_conditions(&vec![
        "x86_64-unknown-linux-gnu".to_string(),
        "not-a-triple".to_string(),
        "also-not-a-triple".to_string(),
    ]);
    match result {
        Err(RazeError::Validation { message }) => {
            assert_eq!(message, "Not a triple: 'not-a-triple'");
        }
        other => panic!("expected a validation error, got {:?}", other),
    }
}

#[test]
fn matching_triples_for_unix_family() {
    let triples = get_matching_bazel_triples(&"cfg(unix)".to_string()).unwrap();
    // every catalog triple except the two windows ones and the bare-metal
    // wasm triple
    assert_eq!(triples.len(), 15);
    assert!(triples.contains(&"x86_64-apple-darwin".to_string()));
    assert!(triples.contains(&"aarch64-linux-android".to_string()));
    assert!(!triples.contains(&"i686-pc-windows-gnu".to_string()));
    assert!(!triples.contains(&"x86_64-pc-windows-gnu".to_string()));
    assert!(!triples.contains(&"wasm32-unknown-unknown".to_string()));
}

#[test]
fn matching_triples_for_bare_triple() {
    let triples = get_matching_bazel_triples(&"x86_64-apple-darwin".to_string()).unwrap();
    assert_eq!(triples, vec!["x86_64-apple-darwin".to_string()]);
}

#[test]
fn matching_triples_fails_on_malformed_expression() {
    let result = get_matching_bazel_triples(&"cfg(not(".to_string());
    match result {
        Err(RazeError::Parse { message }) => {
            assert_eq!(message, "unable to parse target expression");
        }
        other => panic!("expected a parse error, got {:?}", other),
    }
}

#[test]
fn matching_triples_empty_for_unknown_flag() {
    let triples = get_matching_bazel_triples(&"cfg(foo)".to_string()).unwrap();
    assert!(triples.is_empty());
}

#[test]
fn filter_triples_empty_whitelist_is_no_op() {
    let mut triples = vec![
        "x86_64-unknown-linux-gnu".to_string(),
        "aarch64-apple-ios".to_string(),
    ];
    let whitelist: Vec<String> = Vec::new();
    filter_bazel_triples(&mut triples, &whitelist);
    assert_eq!(
        triples,
        vec![
            "x86_64-unknown-linux-gnu".to_string(),
            "aarch64-apple-ios".to_string(),
        ]
    );
}

#[test]
fn filter_triples_retains_and_sorts() {
    let mut triples = vec![
        "x86_64-unknown-linux-gnu".to_string(),
        "aarch64-apple-ios".to_string(),
        "i686-pc-windows-gnu".to_string(),
    ];
    let whitelist = vec![
        "i686-pc-windows-gnu".to_string(),
        "x86_64-unknown-linux-gnu".to_string(),
    ];
    filter_bazel_triples(&mut triples, &whitelist);
    assert_eq!(
        triples,
        vec![
            "i686-pc-windows-gnu".to_string(),
            "x86_64-unknown-linux-gnu".to_string(),
        ]
    );
}

#[test]
fn filter_triples_is_idempotent() {
    let whitelist = vec![
        "i686-pc-windows-gnu".to_string(),
        "x86_64-unknown-linux-gnu".to_string(),
    ];
    let mut triples = vec![
        "x86_64-unknown-linux-gnu".to_string(),
        "aarch64-apple-ios".to_string(),
        "i686-pc-windows-gnu".to_string(),
    ];
    filter_bazel_triples(&mut triples, &whitelist);
    let once = triples.clone();
    filter_bazel_triples(&mut triples, &whitelist);
    assert_eq!(triples, once);
}

#[test]
fn workspace_root_detected_by_entry_names() {
    let entries = vec!["WORKSPACE.bazel".to_string(), "src".to_string()];
    assert!(is_workspace_root(&entries));
    let entries = vec!["WORKSPACE".to_string()];
    assert!(is_workspace_root(&entries));
    let entries = vec!["Cargo.toml".to_string(), "src".to_string()];
    assert!(!is_workspace_root(&entries));
    let entries: Vec<String> = Vec::new();
    assert!(!is_workspace_root(&entries));
}

#[test]
fn unknown_triple_is_not_in_catalog() {
    assert!(get_platform_by_triple("unknown-unknown-unknown").is_none());
    let known = get_platform_by_triple("x86_64-unknown-linux-gnu").unwrap();
    assert_eq!(known.triple, "x86_64-unknown-linux-gnu");
}
