use vlz_core::model::{
    AffectedEvent, AffectedRange, AffectedRangeType, CveRecord, DeclarationKind, Package, PackageDeclarationLocation, CRATES_IO_ECOSYSTEM, NPM_ECOSYSTEM,
    PYPI_ECOSYSTEM,
};
use vlz_core::plan::plan_upgrade_for_finding;
use vlz_core::remediate::{
    bun_update_argv, cargo_update_argv, is_allowlisted_cargo_package_name,
    is_allowlisted_npm_package_name, is_allowlisted_pypi_package_name,
    is_allowlisted_version_operand, npm_install_argv, pnpm_update_argv, poetry_add_argv,
    remediation_apply_strategy_for_finding, require_allowlisted_npm_operands, uv_add_argv,
    yarn_lock_flavor_of_contents, yarn_remediate_argv, yarn_up_argv, ApplyStrategy, BunRemediator,
    CargoRemediator, DependencyKind, NpmRemediator, PnpmRemediator, PythonRemediator,
    RemediationError, UpgradePlanConfidence, YarnLockFlavor, YarnRemediator, BUN_BIN_NAME,
    BUN_LOCK_FILE_NAME, CARGO_BIN_NAME, MIN_FIXED_VERSION_UNKNOWN, NPM_BIN_NAME,
    NPM_IGNORE_SCRIPTS_FLAG, NPM_PACKAGE_LOCK_ONLY_FLAG, PNPM_BIN_NAME, PNPM_LOCK_FILE_NAME,
    POETRY_BIN_NAME, POETRY_LOCK_FILE_NAME, PYLOCK_TOML_FILE_NAME, UV_BIN_NAME, UV_LOCK_FILE_NAME,
    YARN_BIN_NAME, YARN_LOCK_FILE_NAME,
};

fn lock_decl(path: &str) -> PackageDeclarationLocation {
    PackageDeclarationLocation {
        path: path.to_string(),
        start_line: 1,
        end_line: None,
        kind: DeclarationKind::Lockfile,
    }
}

fn manifest_decl(path: &str) -> PackageDeclarationLocation {
    PackageDeclarationLocation {
        path: path.to_string(),
        start_line: 1,
        end_line: None,
        kind: DeclarationKind::Manifest,
    }
}

fn pkg(ecosystem: &str, name: &str) -> Package {
    Package {
        name: name.to_string(),
        version: "1.0.0".to_string(),
        ecosystem: Some(ecosystem.to_string()),
    }
}

#[test]
fn enum_as_str_covers_all_variants() {
    assert_eq!(UpgradePlanConfidence::High.as_str(), "high");
    assert_eq!(UpgradePlanConfidence::Unknown.as_str(), "unknown");
    assert_eq!(ApplyStrategy::Unavailable.as_str(), "unavailable");
    assert_eq!(ApplyStrategy::Npm.as_str(), "npm");
    assert_eq!(ApplyStrategy::Cargo.as_str(), "cargo");
    assert_eq!(ApplyStrategy::Python.as_str(), "python");
    assert_eq!(ApplyStrategy::Yarn.as_str(), "yarn");
    assert_eq!(ApplyStrategy::Pnpm.as_str(), "pnpm");
    assert_eq!(ApplyStrategy::Bun.as_str(), "bun");
    assert_eq!(ApplyStrategy::Go.as_str(), "go");
    assert_eq!(ApplyStrategy::RubyGems.as_str(), "ruby_gems");
    assert_eq!(ApplyStrategy::Gradle.as_str(), "gradle");
    assert_eq!(ApplyStrategy::Maven.as_str(), "maven");
    assert_eq!(DependencyKind::Direct.as_str(), "direct");
    assert_eq!(DependencyKind::Transitive.as_str(), "transitive");
    assert_eq!(DependencyKind::Unknown.as_str(), "unknown");
}

#[test]
fn strategy_selects_npm_for_package_lock_and_shrinkwrap() {
    let package = pkg(NPM_ECOSYSTEM, "left-pad");
    assert_eq!(
        remediation_apply_strategy_for_finding(&package, "2.0.0", &[lock_decl("package-lock.json")]),
        ApplyStrategy::Npm
    );
    assert_eq!(
        remediation_apply_strategy_for_finding(&package, "2.0.0", &[lock_decl("nested/npm-shrinkwrap.json")]),
        ApplyStrategy::Npm
    );
}

#[test]
fn strategy_selects_cargo_for_cargo_lock() {
    let package = pkg(CRATES_IO_ECOSYSTEM, "serde");
    assert_eq!(
        remediation_apply_strategy_for_finding(&package, "1.0.200", &[lock_decl("Cargo.lock")]),
        ApplyStrategy::Cargo
    );
}

#[test]
fn strategy_selects_yarn_pnpm_bun_when_no_npm_lock() {
    let package = pkg(NPM_ECOSYSTEM, "left-pad");
    assert_eq!(
        remediation_apply_strategy_for_finding(&package, "2.0.0", &[lock_decl(YARN_LOCK_FILE_NAME)]),
        ApplyStrategy::Yarn
    );
    assert_eq!(
        remediation_apply_strategy_for_finding(&package, "2.0.0", &[lock_decl(PNPM_LOCK_FILE_NAME)]),
        ApplyStrategy::Pnpm
    );
    assert_eq!(
        remediation_apply_strategy_for_finding(&package, "2.0.0", &[lock_decl(BUN_LOCK_FILE_NAME)]),
        ApplyStrategy::Bun
    );
    assert_eq!(
        remediation_apply_strategy_for_finding(
            &package,
            "2.0.0",
            &[lock_decl(YARN_LOCK_FILE_NAME), lock_decl("package-lock.json")],
        ),
        ApplyStrategy::Npm
    );
}

#[test]
fn strategy_selects_python_for_poetry_uv_pylock_unavailable() {
    let package = pkg(PYPI_ECOSYSTEM, "requests");
    assert_eq!(
        remediation_apply_strategy_for_finding(&package, "2.32.0", &[lock_decl(POETRY_LOCK_FILE_NAME)]),
        ApplyStrategy::Python
    );
    assert_eq!(
        remediation_apply_strategy_for_finding(&package, "2.32.0", &[lock_decl(UV_LOCK_FILE_NAME)]),
        ApplyStrategy::Python
    );
    assert_eq!(
        remediation_apply_strategy_for_finding(&package, "2.32.0", &[lock_decl(PYLOCK_TOML_FILE_NAME)]),
        ApplyStrategy::Unavailable
    );
    assert_eq!(
        remediation_apply_strategy_for_finding(&package, "2.32.0", &[lock_decl("pylock.dev.toml")]),
        ApplyStrategy::Unavailable
    );
}

#[test]
fn strategy_unavailable_without_supported_lock_or_unknown_fixed() {
    let npm = pkg(NPM_ECOSYSTEM, "left-pad");
    let cargo = pkg(CRATES_IO_ECOSYSTEM, "serde");
    let other = pkg("Maven", "guava");
    assert_eq!(
        remediation_apply_strategy_for_finding(&npm, MIN_FIXED_VERSION_UNKNOWN, &[lock_decl("package-lock.json")]),
        ApplyStrategy::Unavailable
    );
    assert_eq!(
        remediation_apply_strategy_for_finding(&npm, "2.0.0", &[manifest_decl("package.json")]),
        ApplyStrategy::Unavailable
    );
    assert_eq!(
        remediation_apply_strategy_for_finding(&cargo, "1.0.0", &[lock_decl("Cargo.toml")]),
        ApplyStrategy::Unavailable
    );
    assert_eq!(
        remediation_apply_strategy_for_finding(&other, "2.0.0", &[lock_decl("package-lock.json")]),
        ApplyStrategy::Unavailable
    );
    let pypi = pkg(PYPI_ECOSYSTEM, "requests");
    assert_eq!(
        remediation_apply_strategy_for_finding(&pypi, "2.0.0", &[lock_decl("Pipfile.lock")]),
        ApplyStrategy::Unavailable
    );
}

#[test]
fn strategy_matches_ecosystem_ignoring_ascii_case() {
    let package = pkg("NPM", "left-pad");
    assert_eq!(
        remediation_apply_strategy_for_finding(&package, "2.0.0", &[lock_decl("package-lock.json")]),
        ApplyStrategy::Npm
    );
}

#[test]
fn allowlist_helpers_accept_scoped_npm_and_reject_bad_versions() {
    assert!(is_allowlisted_npm_package_name("@scope/pkg"));
    assert!(!is_allowlisted_npm_package_name("@scope"));
    assert!(!is_allowlisted_npm_package_name(""));
    assert!(is_allowlisted_cargo_package_name("serde_json"));
    assert!(!is_allowlisted_cargo_package_name("-x"));
    assert!(is_allowlisted_version_operand("1.2.3-beta+meta"));
    assert!(!is_allowlisted_version_operand("-1"));
    assert!(!is_allowlisted_version_operand("1;rm"));
}

#[test]
fn allowlist_limits_and_pypi_names() {
    assert!(is_allowlisted_pypi_package_name("zope.interface"));
    assert!(!is_allowlisted_pypi_package_name(".hidden"));
    assert!(!is_allowlisted_cargo_package_name(&"a".repeat(65)));
    assert!(is_allowlisted_cargo_package_name(&"a".repeat(64)));
    assert!(!is_allowlisted_npm_package_name(".dot"));
    assert!(!is_allowlisted_npm_package_name("a b"));
}

#[test]
fn operand_rejection_names_both_operands() {
    match require_allowlisted_npm_operands("left-pad", "1;rm") {
        Err(RemediationError::InvalidOperand(m)) => {
            assert_eq!(m, "npm package/version not allowlisted: left-pad@1;rm")
        }
        other => panic!("unexpected: {:?}", other),
    }
    assert!(require_allowlisted_npm_operands("left-pad", "2.0.0").is_ok());
}

#[test]
fn remediation_error_messages() {
    assert_eq!(
        RemediationError::MissingPackageManager("npm".to_string()).message(),
        "required package manager 'npm' is not available on PATH"
    );
    assert_eq!(
        RemediationError::CommandFailed {
            strategy: "cargo".to_string(),
            message: "exit 1".to_string()
        }
        .message(),
        "remediation command failed (cargo): exit 1"
    );
    assert_eq!(
        RemediationError::Io(std::io::Error::new(std::io::ErrorKind::Other, "disk full")).message(),
        "IO error: disk full"
    );
}

#[test]
fn default_constructors_use_standard_bin_names() {
    assert_eq!(NpmRemediator::new().bin, NPM_BIN_NAME);
    assert_eq!(NpmRemediator::default().bin, NPM_BIN_NAME);
    assert_eq!(CargoRemediator::new().bin, CARGO_BIN_NAME);
    assert_eq!(CargoRemediator::default().bin, CARGO_BIN_NAME);
    assert_eq!(YarnRemediator::new().bin, YARN_BIN_NAME);
    assert_eq!(PnpmRemediator::new().bin, PNPM_BIN_NAME);
    assert_eq!(BunRemediator::new().bin, BUN_BIN_NAME);
    assert_eq!(PythonRemediator::new().poetry_bin, POETRY_BIN_NAME);
    assert_eq!(PythonRemediator::new().uv_bin, UV_BIN_NAME);
    assert_eq!(NpmRemediator::new().strategy(), ApplyStrategy::Npm);
    assert_eq!(CargoRemediator::new().strategy(), ApplyStrategy::Cargo);
    assert_eq!(PythonRemediator::new().strategy(), ApplyStrategy::Python);
    assert_eq!(YarnRemediator::new().strategy(), ApplyStrategy::Yarn);
    assert_eq!(PnpmRemediator::new().strategy(), ApplyStrategy::Pnpm);
    assert_eq!(BunRemediator::new().strategy(), ApplyStrategy::Bun);
}

#[test]
fn with_bin_overrides_executable() {
    assert_eq!(NpmRemediator::with_bin("/stub/npm".to_string()).bin, "/stub/npm");
    let py = PythonRemediator::with_uv_bin("/stub/uv".to_string());
    assert_eq!(py.uv_bin, "/stub/uv");
    assert_eq!(py.poetry_bin, POETRY_BIN_NAME);
}

#[test]
fn strategy_selects_python_yarn_pnpm_bun_locks() {
    let py = pkg(PYPI_ECOSYSTEM, "requests");
    assert_eq!(
        remediation_apply_strategy_for_finding(&py, "2.32.0", &[lock_decl(POETRY_LOCK_FILE_NAME)]),
        ApplyStrategy::Python
    );
    assert_eq!(
        remediation_apply_strategy_for_finding(&py, "2.32.0", &[lock_decl(UV_LOCK_FILE_NAME)]),
        ApplyStrategy::Python
    );
    let npm = pkg(NPM_ECOSYSTEM, "left-pad");
    assert_eq!(
        remediation_apply_strategy_for_finding(&npm, "2.0.0", &[lock_decl(PNPM_LOCK_FILE_NAME)]),
        ApplyStrategy::Pnpm
    );
    assert_eq!(
        remediation_apply_strategy_for_finding(&npm, "2.0.0", &[lock_decl(BUN_LOCK_FILE_NAME)]),
        ApplyStrategy::Bun
    );
}

#[test]
fn npm_install_argv_builder_is_stable() {
    assert_eq!(
        npm_install_argv(NPM_BIN_NAME, "left-pad", "2.0.0", DependencyKind::Direct, false),
        vec![
            NPM_BIN_NAME.to_string(),
            "install".to_string(),
            NPM_IGNORE_SCRIPTS_FLAG.to_string(),
            NPM_PACKAGE_LOCK_ONLY_FLAG.to_string(),
            "--".to_string(),
            "left-pad@2.0.0".to_string(),
        ]
    );
}

#[test]
fn argv_builders_for_each_manager() {
    assert_eq!(
        npm_install_argv("npm", "a", "1", DependencyKind::Transitive, true),
        vec!["npm", "install", "--package-lock-only", "--no-save", "--", "a@1"]
    );
    assert_eq!(
        cargo_update_argv("cargo", "serde", "1.0.200"),
        vec!["cargo", "update", "--package", "serde", "--precise", "1.0.200"]
    );
    assert_eq!(poetry_add_argv("poetry", "req", "2"), vec!["poetry", "add", "req@2", "--lock"]);
    assert_eq!(uv_add_argv("uv", "req", "2"), vec!["uv", "add", "req==2", "--no-sync"]);
    assert_eq!(
        yarn_remediate_argv("yarn", "a", "1", YarnLockFlavor::Classic, false),
        vec!["yarn", "upgrade", "a@1", "--ignore-scripts"]
    );
    assert_eq!(yarn_up_argv("yarn", "a", "1", false), vec!["yarn", "up", "a@1", "--mode=skip-build"]);
    assert_eq!(yarn_up_argv("yarn", "a", "1", true), vec!["yarn", "up", "a@1"]);
    assert_eq!(pnpm_update_argv("pnpm", "a", "1"), vec!["pnpm", "update", "a@1", "--lockfile-only"]);
    assert_eq!(bun_update_argv("bun", "a", "1", false), vec!["bun", "update", "a@1", "--ignore-scripts"]);
}

#[test]
fn yarn_flavor_from_lock_contents() {
    assert_eq!(
        yarn_lock_flavor_of_contents("# THIS IS AN AUTOGENERATED FILE.\n# yarn lockfile v1\n"),
        YarnLockFlavor::Classic
    );
    assert_eq!(yarn_lock_flavor_of_contents("__metadata:\n  version: 6\n"), YarnLockFlavor::Berry);
}

fn empty_decl(kind: DeclarationKind) -> PackageDeclarationLocation {
    PackageDeclarationLocation {
        path: "Cargo.toml".to_string(),
        start_line: 1,
        end_line: None,
        kind,
    }
}

fn cve_with_ranges(id: &str, affected_ranges: Vec<AffectedRange>) -> CveRecord {
    CveRecord {
        id: id.to_string(),
        cvss_version: None,
        description: "desc".to_string(),
        reachable: None,
        advisory_symbols: vec![],
        evidence: vec![],
        symbol_usage: None,
        affected_ranges,
    }
}

fn cve_with_fixed(id: &str, range_type: AffectedRangeType, fixed: Option<&str>) -> CveRecord {
    let mut events = vec![];
    if let Some(fixed) = fixed {
        events.push(AffectedEvent {
            fixed: Some(fixed.to_string()),
            ..Default::default()
        });
    }
    let affected_ranges = if events.is_empty() {
        vec![]
    } else {
        vec![AffectedRange {
            range_type,
            events,
            package_name: None,
            ecosystem: None,
        }]
    };
    cve_with_ranges(id, affected_ranges)
}

fn cve_with_events(id: &str, range_type: AffectedRangeType, events: Vec<AffectedEvent>) -> CveRecord {
    cve_with_ranges(
        id,
        vec![AffectedRange {
            range_type,
            events,
            package_name: None,
            ecosystem: None,
        }],
    )
}

fn introduced(v: &str) -> AffectedEvent {
    AffectedEvent {
        introduced: Some(v.to_string()),
        ..Default::default()
    }
}

fn fixed(v: &str) -> AffectedEvent {
    AffectedEvent {
        fixed: Some(v.to_string()),
        ..Default::default()
    }
}

fn rand_multi_interval_cve() -> CveRecord {
    cve_with_events(
        "RUSTSEC-2026-0097",
        AffectedRangeType::Semver,
        vec![
            introduced("0.7.0"),
            fixed("0.8.6"),
            introduced("0.9.0"),
            fixed("0.9.3"),
            introduced("0.10.0"),
            fixed("0.10.1"),
        ],
    )
}

fn versioned(name: &str, version: &str, ecosystem: &str) -> Package {
    Package {
        name: name.to_string(),
        version: version.to_string(),
        ecosystem: Some(ecosystem.to_string()),
    }
}

#[test]
fn plan_unknown_when_no_fixed_events() {
    let pkg = versioned("requests", "2.31.0", "npm");
    let decls = vec![empty_decl(DeclarationKind::Manifest)];
    let cves = vec![cve_with_fixed("CVE-1", AffectedRangeType::Ecosystem, None)];
    let plan = plan_upgrade_for_finding(&pkg, &decls, &cves);
    assert_eq!(plan.minimal_fixed_version, MIN_FIXED_VERSION_UNKNOWN);
    assert_eq!(plan.dependency_kind, DependencyKind::Direct);
    assert_eq!(plan.confidence, UpgradePlanConfidence::Unknown);
    assert_eq!(plan.apply_strategy, ApplyStrategy::Unavailable);
}

#[test]
fn plan_uses_max_fixed_version_ecosystem() {
    let pkg = versioned("requests", "0.5.0", "npm");
    let decls = vec![empty_decl(DeclarationKind::Manifest)];
    let cves = vec![
        cve_with_fixed("CVE-1", AffectedRangeType::Ecosystem, Some("1.0.0")),
        cve_with_fixed("CVE-2", AffectedRangeType::Ecosystem, Some("2.0.0")),
    ];
    let plan = plan_upgrade_for_finding(&pkg, &decls, &cves);
    assert_eq!(plan.minimal_fixed_version, "2.0.0");
    assert_eq!(plan.confidence, UpgradePlanConfidence::High);
}

#[test]
fn plan_picks_covering_interval_for_rand_shaped_advisory() {
    let decls = vec![lock_decl("Cargo.lock")];
    let cves = vec![rand_multi_interval_cve()];

    let on_09 = versioned("rand", "0.9.2", CRATES_IO_ECOSYSTEM);
    let plan = plan_upgrade_for_finding(&on_09, &decls, &cves);
    assert_eq!(plan.minimal_fixed_version, "0.9.3");
    assert_eq!(plan.apply_strategy, ApplyStrategy::Cargo);
    assert_eq!(plan.confidence, UpgradePlanConfidence::High);

    let on_08 = versioned("rand", "0.8.5", CRATES_IO_ECOSYSTEM);
    assert_eq!(plan_upgrade_for_finding(&on_08, &decls, &cves).minimal_fixed_version, "0.8.6");

    let on_10 = versioned("rand", "0.10.0", CRATES_IO_ECOSYSTEM);
    assert_eq!(plan_upgrade_for_finding(&on_10, &decls, &cves).minimal_fixed_version, "0.10.1");
}

#[test]
fn plan_multi_interval_npm_package_same_shape() {
    let pkg = versioned("left-pad", "0.9.2", NPM_ECOSYSTEM);
    let decls = vec![lock_decl("package-lock.json")];
    let cves = vec![rand_multi_interval_cve()];
    let plan = plan_upgrade_for_finding(&pkg, &decls, &cves);
    assert_eq!(plan.minimal_fixed_version, "0.9.3");
    assert_eq!(plan.apply_strategy, ApplyStrategy::Npm);
}

#[test]
fn plan_unknown_when_covering_last_affected_has_no_fixed() {
    let pkg = versioned("foo", "1.0.0", "npm");
    let decls = vec![empty_decl(DeclarationKind::Manifest)];
    let cves = vec![cve_with_events(
        "CVE-1",
        AffectedRangeType::Ecosystem,
        vec![
            introduced("0"),
            AffectedEvent {
                last_affected: Some("1.2.3".to_string()),
                ..Default::default()
            },
        ],
    )];
    let plan = plan_upgrade_for_finding(&pkg, &decls, &cves);
    assert_eq!(plan.minimal_fixed_version, MIN_FIXED_VERSION_UNKNOWN);
    assert_eq!(plan.confidence, UpgradePlanConfidence::Unknown);
}

#[test]
fn plan_unknown_when_installed_version_unparsable() {
    let pkg = versioned("foo", "any", "npm");
    let decls = vec![empty_decl(DeclarationKind::Manifest)];
    let cves = vec![cve_with_fixed("CVE-1", AffectedRangeType::Ecosystem, Some("1.2.3"))];
    let plan = plan_upgrade_for_finding(&pkg, &decls, &cves);
    assert_eq!(plan.minimal_fixed_version, MIN_FIXED_VERSION_UNKNOWN);
    assert_eq!(plan.confidence, UpgradePlanConfidence::Unknown);
}

#[test]
fn plan_uses_semver_fixed_versions() {
    let pkg = versioned("foo", "1.0.0", "pypi");
    let decls = vec![empty_decl(DeclarationKind::Manifest)];
    let cves = vec![
        cve_with_fixed("CVE-1", AffectedRangeType::Semver, Some("1.2.3")),
        cve_with_fixed("CVE-2", AffectedRangeType::Semver, Some("1.2.4")),
    ];
    let plan = plan_upgrade_for_finding(&pkg, &decls, &cves);
    assert_eq!(plan.minimal_fixed_version, "1.2.4");
    assert_eq!(plan.confidence, UpgradePlanConfidence::High);
}

#[test]
fn plan_returns_unknown_on_unparsable_fixed() {
    let pkg = versioned("foo", "1.0.0", "npm");
    let decls = vec![empty_decl(DeclarationKind::Manifest)];
    let cves = vec![cve_with_fixed("CVE-1", AffectedRangeType::Ecosystem, Some("not-a-version"))];
    let plan = plan_upgrade_for_finding(&pkg, &decls, &cves);
    assert_eq!(plan.minimal_fixed_version, MIN_FIXED_VERSION_UNKNOWN);
    assert_eq!(plan.confidence, UpgradePlanConfidence::Unknown);
}

#[test]
fn plan_ignores_git_ranges_for_fixed() {
    let pkg = versioned("foo", "1.0.0", "npm");
    let decls = vec![empty_decl(DeclarationKind::Lockfile)];
    let cves = vec![cve_with_fixed("CVE-1", AffectedRangeType::Git, Some("deadbeef"))];
    let plan = plan_upgrade_for_finding(&pkg, &decls, &cves);
    assert_eq!(plan.dependency_kind, DependencyKind::Transitive);
    assert_eq!(plan.minimal_fixed_version, MIN_FIXED_VERSION_UNKNOWN);
    assert_eq!(plan.confidence, UpgradePlanConfidence::Unknown);
}

#[test]
fn plan_unknown_dependency_kind_without_declarations() {
    let pkg = versioned("foo", "1.0.0", "npm");
    let cves = vec![cve_with_fixed("CVE-1", AffectedRangeType::Ecosystem, Some("1.2.3"))];
    let plan = plan_upgrade_for_finding(&pkg, &[], &cves);
    assert_eq!(plan.dependency_kind, DependencyKind::Unknown);
    assert_eq!(plan.minimal_fixed_version, "1.2.3");
    assert_eq!(plan.confidence, UpgradePlanConfidence::Unknown);
}

#[test]
fn plan_accepts_v_prefixed_semver() {
    let pkg = versioned("foo", "1.0.0", "npm");
    let decls = vec![empty_decl(DeclarationKind::Manifest)];
    let cves = vec![cve_with_fixed("CVE-1", AffectedRangeType::Semver, Some("v2.0.0"))];
    let plan = plan_upgrade_for_finding(&pkg, &decls, &cves);
    assert_eq!(plan.minimal_fixed_version, "2.0.0");
    assert_eq!(plan.confidence, UpgradePlanConfidence::High);
}

#[test]
fn plan_sets_npm_and_cargo_apply_strategy_from_lockfiles() {
    let npm_pkg = versioned("left-pad", "1.0.0", NPM_ECOSYSTEM);
    let npm_decls = vec![lock_decl("package-lock.json")];
    let npm_plan = plan_upgrade_for_finding(
        &npm_pkg,
        &npm_decls,
        &[cve_with_fixed("CVE-1", AffectedRangeType::Ecosystem, Some("2.0.0"))],
    );
    assert_eq!(npm_plan.apply_strategy, ApplyStrategy::Npm);
    assert_eq!(npm_plan.dependency_kind, DependencyKind::Transitive);
    assert_eq!(npm_plan.confidence, UpgradePlanConfidence::High);

    let cargo_pkg = versioned("serde", "1.0.0", CRATES_IO_ECOSYSTEM);
    let cargo_decls = vec![lock_decl("Cargo.lock")];
    let cargo_plan = plan_upgrade_for_finding(
        &cargo_pkg,
        &cargo_decls,
        &[cve_with_fixed("CVE-2", AffectedRangeType::Semver, Some("1.0.200"))],
    );
    assert_eq!(cargo_plan.apply_strategy, ApplyStrategy::Cargo);
    assert_eq!(cargo_plan.minimal_fixed_version, "1.0.200");
}

#[test]
fn plan_skips_interval_below_introduced() {
    // Installed below the only interval: no covering fix, so unknown.
    let pkg = versioned("foo", "0.1.0", "npm");
    let decls = vec![empty_decl(DeclarationKind::Manifest)];
    let cves = vec![cve_with_events(
        "CVE-1",
        AffectedRangeType::Semver,
        vec![introduced("1.0.0"), fixed("1.5.0")],
    )];
    let plan = plan_upgrade_for_finding(&pkg, &decls, &cves);
    assert_eq!(plan.minimal_fixed_version, MIN_FIXED_VERSION_UNKNOWN);
    assert_eq!(plan.confidence, UpgradePlanConfidence::Unknown);
}

#[test]
fn plan_last_affected_below_installed_is_not_covering() {
    let pkg = versioned("foo", "2.0.0", "npm");
    let decls = vec![empty_decl(DeclarationKind::Manifest)];
    let cves = vec![
        cve_with_events(
            "CVE-1",
            AffectedRangeType::Ecosystem,
            vec![
                introduced("0"),
                AffectedEvent {
                    last_affected: Some("1.2.3".to_string()),
                    ..Default::default()
                },
            ],
        ),
        cve_with_fixed("CVE-2", AffectedRangeType::Ecosystem, Some("2.1.0")),
    ];
    let plan = plan_upgrade_for_finding(&pkg, &decls, &cves);
    assert_eq!(plan.minimal_fixed_version, "2.1.0");
    assert_eq!(plan.confidence, UpgradePlanConfidence::High);
}
