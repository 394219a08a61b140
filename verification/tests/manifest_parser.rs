use vlz_core::declarations::{
    declarations_for_resolved_package, index_manifest_declarations, manifest_merge_key, resolve_declarations_for_packages,
    ParsedDependency,
};
use vlz_core::declmap::DeclMap;
use vlz_core::model::{
    dedupe_sort_declarations, DeclarationKind, Package, PackageDeclarationLocation, PYPI_ECOSYSTEM,
};
use vlz_core::resolve::{
    direct_only_result, format_direct_only_warning, format_multi_lock_warning,
    require_transitive_or_fallback, skip_package_manager_reason, DependencyGraph, ResolutionDepth,
    ResolveContext, ResolverError, DIRECT_ONLY_REASON_BENCHMARK,
    DIRECT_ONLY_REASON_FALLBACK_ON_FAILURE, DIRECT_ONLY_REASON_OFFLINE,
    FR_022_TRANSITIVE_ERROR_MESSAGE,
};
use vlz_core::scan::{scan_toml_lock_stanzas, scan_toml_section_deps};

fn pkg(name: &str, version: &str) -> Package {
    Package {
        name: name.to_string(),
        version: version.to_string(),
        ecosystem: Some(PYPI_ECOSYSTEM.to_string()),
    }
}

fn parsed(name: &str, version: &str, path: &str, line: u32) -> ParsedDependency {
    ParsedDependency {
        package: pkg(name, version),
        path: path.to_string(),
        start_line: line,
        end_line: None,
        kind: DeclarationKind::Manifest,
    }
}

#[test]
fn manifest_merge_matches_constraint_to_pinned_version() {
    let parsed = vec![parsed("requests", "any", "pyproject.toml", 5)];
    let index = index_manifest_declarations(&parsed);
    let resolved = pkg("requests", "2.31.0");
    let decls = declarations_for_resolved_package(&resolved, &index, &DeclMap::new());
    assert_eq!(decls.len(), 1);
    assert_eq!(decls[0].start_line, 5);
    assert_eq!(decls[0].kind, DeclarationKind::Manifest);
}

#[test]
fn merge_reports_manifest_and_lock() {
    let parsed = vec![parsed("requests", ">=2.0", "pyproject.toml", 5)];
    let index = index_manifest_declarations(&parsed);
    let resolved = pkg("requests", "2.31.0");
    let mut lock = DeclMap::new();
    lock.insert(
        resolved.clone(),
        vec![PackageDeclarationLocation::new("poetry.lock", 42, None, DeclarationKind::Lockfile).unwrap()],
    );
    let decls = declarations_for_resolved_package(&resolved, &index, &lock);
    assert_eq!(decls.len(), 2);
    assert_eq!(decls[0].kind, DeclarationKind::Manifest);
    assert_eq!(decls[1].kind, DeclarationKind::Lockfile);
}

#[test]
fn dedupe_identical_declarations() {
    let mut decls = vec![
        PackageDeclarationLocation::new("Cargo.toml", 10, None, DeclarationKind::Manifest).unwrap(),
        PackageDeclarationLocation::new("Cargo.toml", 10, None, DeclarationKind::Manifest).unwrap(),
    ];
    dedupe_sort_declarations(&mut decls);
    assert_eq!(decls.len(), 1);
}

#[test]
fn dedupe_sorts_manifest_before_lock_then_by_path_and_line() {
    let mut decls = vec![
        PackageDeclarationLocation::new("poetry.lock", 3, None, DeclarationKind::Lockfile).unwrap(),
        PackageDeclarationLocation::new("pyproject.toml", 9, None, DeclarationKind::Manifest).unwrap(),
        PackageDeclarationLocation::new("pyproject.toml", 2, Some(4), DeclarationKind::Manifest).unwrap(),
        PackageDeclarationLocation::new("a.toml", 7, None, DeclarationKind::Manifest).unwrap(),
    ];
    dedupe_sort_declarations(&mut decls);
    let order: Vec<(&str, u32)> = decls.iter().map(|d| (d.path.as_str(), d.start_line)).collect();
    assert_eq!(
        order,
        vec![("a.toml", 7), ("pyproject.toml", 2), ("pyproject.toml", 9), ("poetry.lock", 3)]
    );
}

#[test]
fn declaration_location_rejects_empty_path_zero_line_and_inverted_range() {
    assert!(PackageDeclarationLocation::new("", 1, None, DeclarationKind::Manifest).is_none());
    assert!(PackageDeclarationLocation::new("a", 0, None, DeclarationKind::Manifest).is_none());
    assert!(PackageDeclarationLocation::new("a", 5, Some(4), DeclarationKind::Manifest).is_none());
    assert!(PackageDeclarationLocation::new("a", 5, Some(5), DeclarationKind::Manifest).is_some());
}

#[test]
fn resolve_declarations_leaves_out_packages_without_declarations() {
    let graph = DependencyGraph {
        packages: vec![],
        manifest_path: None,
        parsed_dependencies: vec![parsed("requests", "*", "pyproject.toml", 3)],
    };
    let packages = vec![pkg("requests", "2.31.0"), pkg("idna", "3.4")];
    let map = resolve_declarations_for_packages(&packages, &graph, &DeclMap::new());
    assert_eq!(map.len(), 1);
    let decls = map.get(&pkg("requests", "2.31.0")).unwrap();
    assert_eq!(decls[0].path, "pyproject.toml");
    assert!(map.get(&pkg("idna", "3.4")).is_none());
}

#[test]
fn skip_package_manager_reason_offline() {
    let ctx = ResolveContext {
        skip_pip_resolution: true,
        benchmark_mode: false,
        ..Default::default()
    };
    assert_eq!(skip_package_manager_reason(&ctx), Some(DIRECT_ONLY_REASON_OFFLINE));
}

#[test]
fn skip_package_manager_reason_benchmark() {
    let ctx = ResolveContext {
        skip_pip_resolution: true,
        benchmark_mode: true,
        ..Default::default()
    };
    assert_eq!(skip_package_manager_reason(&ctx), Some(DIRECT_ONLY_REASON_BENCHMARK));
}

#[test]
fn skip_package_manager_reason_normal_scan() {
    let ctx = ResolveContext::default();
    assert_eq!(skip_package_manager_reason(&ctx), None);
}

#[test]
fn direct_only_result_sets_depth_and_reason() {
    let packages = vec![Package {
        name: "foo".to_string(),
        version: "1.0".to_string(),
        ecosystem: None,
    }];
    let result = direct_only_result(packages.clone(), DIRECT_ONLY_REASON_OFFLINE);
    assert_eq!(result.packages, packages);
    assert_eq!(result.depth, ResolutionDepth::DirectOnly);
    assert_eq!(result.direct_only_reason, Some(DIRECT_ONLY_REASON_OFFLINE));
}

fn sample_graph() -> DependencyGraph {
    DependencyGraph {
        packages: vec![Package {
            name: "foo".to_string(),
            version: "1.0".to_string(),
            ecosystem: None,
        }],
        manifest_path: None,
        parsed_dependencies: vec![],
    }
}

#[test]
fn require_transitive_or_fallback_exits_fr022() {
    let graph = sample_graph();
    let ctx = ResolveContext::default();
    let err = require_transitive_or_fallback(&graph, &ctx, None).unwrap_err();
    assert!(err.message().contains(FR_022_TRANSITIVE_ERROR_MESSAGE), "got: {}", err.message());
}

#[test]
fn require_transitive_or_fallback_with_cause_chains() {
    let graph = sample_graph();
    let ctx = ResolveContext::default();
    let inner = ResolverError::Resolve("cargo failed".to_string());
    let err = require_transitive_or_fallback(&graph, &ctx, Some(inner)).unwrap_err();
    assert!(err.message().contains(FR_022_TRANSITIVE_ERROR_MESSAGE));
    match err {
        ResolverError::ResolveWithCause { cause, .. } => {
            assert_eq!(cause.message(), "Resolve error: cargo failed");
        }
        other => panic!("unexpected error: {}", other.message()),
    }
}

#[test]
fn require_transitive_or_fallback_allows_direct_only_when_flag_set() {
    let graph = sample_graph();
    let ctx = ResolveContext {
        allow_direct_only_fallback: true,
        ..Default::default()
    };
    let result = require_transitive_or_fallback(&graph, &ctx, None).unwrap();
    assert_eq!(result.depth, ResolutionDepth::DirectOnly);
    assert_eq!(result.direct_only_reason, Some(DIRECT_ONLY_REASON_FALLBACK_ON_FAILURE));
}

#[test]
fn require_transitive_or_fallback_empty_graph_still_exits_fr022() {
    let graph = DependencyGraph::default();
    let ctx = ResolveContext {
        allow_direct_only_fallback: true,
        ..Default::default()
    };
    let err = require_transitive_or_fallback(&graph, &ctx, None).unwrap_err();
    assert!(err.message().contains(FR_022_TRANSITIVE_ERROR_MESSAGE));
}

#[test]
fn direct_only_warning_names_manifest_reason_and_hint() {
    assert_eq!(
        format_direct_only_warning("requirements.txt", DIRECT_ONLY_REASON_OFFLINE),
        "vlz warning: Only direct dependencies were scanned for requirements.txt (offline mode). \
         Add an adjacent lock file for transitive coverage. See `man vlz` or docs/FAQ.md."
    );
}

#[test]
fn multi_lock_warning_joins_lock_names() {
    assert_eq!(
        format_multi_lock_warning("app", &["poetry.lock".to_string(), "uv.lock".to_string()]),
        "vlz warning: Multiple lock files in app were scanned and packages merged: poetry.lock, uv.lock. \
         Keep one canonical lock file for clarity. See `man vlz` or docs/FAQ.md."
    );
}

#[test]
fn scan_poetry_lock_stanzas() {
    let content = r#"
[[package]]
name = "requests"
version = "2.31.0"

[[package]]
name = "httpx"
version = "0.25.0"
"#;
    let stanzas = scan_toml_lock_stanzas(content, "[[package]]", "PyPI");
    assert_eq!(stanzas.len(), 2);
    assert_eq!(stanzas[0].start_line, 2);
    assert_eq!(stanzas[0].package.name, "requests");
    assert_eq!(stanzas[0].package.version, "2.31.0");
}

#[test]
fn scan_cargo_toml_deps() {
    let content = r#"
[dependencies]
serde = "1.0"
tokio = { version = "1.0", features = ["full"] }
"#;
    let deps = scan_toml_section_deps(content, &["dependencies"], "crates.io");
    assert_eq!(deps.len(), 2);
    assert_eq!(deps[0], (3, "serde".to_string(), "1.0".to_string()));
}

#[test]
fn manifest_merge_key_lowercases_names_and_keeps_ecosystem() {
    let key = manifest_merge_key(&Package {
        name: "PyYAML".to_string(),
        version: "6.0".to_string(),
        ecosystem: Some(PYPI_ECOSYSTEM.to_string()),
    });
    assert_eq!(key.name, "pyyaml");
    assert_eq!(key.ecosystem.as_deref(), Some(PYPI_ECOSYSTEM));
}
