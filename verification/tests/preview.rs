use vlz_core::model::{DeclarationKind, PackageDeclarationLocation};
use vlz_core::preview::{apply_gate, command_failed, join_path, yarn_lock_unreadable, LockSurvey};
use vlz_core::remediate::{
    bun_update_argv, cargo_update_argv, npm_install_argv, pnpm_update_argv, poetry_add_argv,
    uv_add_argv, yarn_lock_flavor_of_contents, yarn_remediate_argv, yarn_up_argv, ApplyStrategy,
    BunRemediator, CargoRemediator, DependencyKind, NpmRemediator, PnpmRemediator,
    PythonRemediator, RemediationContext, RemediationError, YarnLockFlavor, YarnRemediator,
    BUN_IGNORE_SCRIPTS_FLAG, BUN_LOCK_FILE_NAME, CARGO_BIN_NAME, CARGO_LOCK_FILE_NAME,
    MIN_FIXED_VERSION_UNKNOWN, NPM_BIN_NAME, NPM_IGNORE_SCRIPTS_FLAG, NPM_LOCKFILE_PACKAGE_LOCK_JSON,
    NPM_MANIFEST_FILE_NAME, NPM_NO_SAVE_FLAG, PNPM_LOCK_FILE_NAME, POETRY_BIN_NAME,
    POETRY_LOCK_FILE_NAME, UV_BIN_NAME, UV_LOCK_FILE_NAME, YARN_BERRY_SKIP_BUILD_FLAG,
    YARN_CLASSIC_IGNORE_SCRIPTS_FLAG, YARN_LOCK_FILE_NAME,
};

const ROOT: &str = "/work/project";

fn lock_decl(path: &str) -> PackageDeclarationLocation {
    PackageDeclarationLocation {
        path: path.to_string(),
        start_line: 1,
        end_line: None,
        kind: DeclarationKind::Lockfile,
    }
}

fn manifest_decl(path: &str) -> PackageDeclarationLocation {
    PackageDeclarationLocation {
        path: path.to_string(),
        start_line: 1,
        end_line: None,
        kind: DeclarationKind::Manifest,
    }
}

/// Every declared lock resolves to `dir` with its manifest beside it.
fn resolved(dir: &str, n: usize) -> LockSurvey {
    LockSurvey {
        workdirs: vec![Some(dir.to_string()); n],
        manifest_present: vec![true; n],
    }
}

/// No declared lock resolves under the scan root.
fn unresolved(n: usize) -> LockSurvey {
    LockSurvey {
        workdirs: vec![None; n],
        manifest_present: vec![false; n],
    }
}

fn ctx<'a>(
    decls: &'a [PackageDeclarationLocation],
    name: &'a str,
    version: &'a str,
    kind: DependencyKind,
    scripts: bool,
    offline: bool,
) -> RemediationContext<'a> {
    RemediationContext {
        scan_root: ROOT,
        declarations: decls,
        package_name: name,
        target_version: version,
        dependency_kind: kind,
        allow_dependency_code_execution: scripts,
        offline,
    }
}

#[test]
fn npm_preview_matches_allowlisted_argv_and_ignore_scripts_gate() {
    let decls = [lock_decl("package-lock.json")];
    let rem = NpmRemediator::new();
    let preview = rem
        .preview(&ctx(&decls, "left-pad", "2.0.0", DependencyKind::Transitive, false, false), &resolved(ROOT, 1))
        .expect("preview");
    assert_eq!(preview.strategy, ApplyStrategy::Npm);
    assert_eq!(
        preview.argv,
        npm_install_argv(NPM_BIN_NAME, "left-pad", "2.0.0", DependencyKind::Transitive, false)
    );
    assert!(preview.argv.iter().any(|a| a == NPM_IGNORE_SCRIPTS_FLAG));
    assert!(preview.argv.contains(&NPM_NO_SAVE_FLAG.to_string()));
    assert_eq!(preview.files, vec![format!("{ROOT}/{NPM_LOCKFILE_PACKAGE_LOCK_JSON}")]);
    assert_eq!(preview.workdir, ROOT);

    let with_scripts = rem
        .preview(&ctx(&decls, "left-pad", "2.0.0", DependencyKind::Direct, true, true), &resolved(ROOT, 1))
        .expect("offline preview still works");
    assert!(!with_scripts.argv.iter().any(|a| a == NPM_IGNORE_SCRIPTS_FLAG));
    assert!(with_scripts.files.contains(&format!("{ROOT}/{NPM_MANIFEST_FILE_NAME}")));
}

#[test]
fn cargo_preview_matches_allowlisted_argv() {
    let decls = [lock_decl("Cargo.lock")];
    let preview = CargoRemediator::new()
        .preview(&ctx(&decls, "serde", "1.0.200", DependencyKind::Direct, false, false), &resolved(ROOT, 1))
        .expect("preview");
    assert_eq!(preview.argv, cargo_update_argv(CARGO_BIN_NAME, "serde", "1.0.200"));
    assert_eq!(preview.files, vec![format!("{ROOT}/{CARGO_LOCK_FILE_NAME}")]);
}

#[test]
fn yarn_classic_uses_upgrade_and_ignore_scripts() {
    let decls = [lock_decl(YARN_LOCK_FILE_NAME)];
    let rem = YarnRemediator::with_bin("/work/bin/yarn-classic".to_string());
    let c = ctx(&decls, "left-pad", "1.3.0", DependencyKind::Direct, false, false);
    let dir = rem.preview_lock_dir(&c, &resolved(ROOT, 1)).expect("lock dir");
    let flavor = yarn_lock_flavor_of_contents("# THIS IS AN AUTOGENERATED FILE.\n# yarn lockfile v1\n");
    assert_eq!(flavor, YarnLockFlavor::Classic);
    let preview = rem.preview_with_flavor(&c, dir, flavor);
    assert_eq!(
        preview.argv,
        yarn_remediate_argv("/work/bin/yarn-classic", "left-pad", "1.3.0", YarnLockFlavor::Classic, false)
    );
    assert!(preview.argv.contains(&"upgrade".to_string()));
    assert!(preview.argv.iter().any(|a| a == YARN_CLASSIC_IGNORE_SCRIPTS_FLAG));
}

#[test]
fn yarn_bun_scripts_gate_and_path_confinement() {
    let decls = [lock_decl(YARN_LOCK_FILE_NAME)];
    let rem = YarnRemediator::with_bin("/work/bin/yarn-ok".to_string());
    let c = ctx(&decls, "left-pad", "1.3.0", DependencyKind::Direct, true, false);
    let dir = rem.preview_lock_dir(&c, &resolved(ROOT, 1)).expect("lock dir");
    let with_scripts = rem.preview_with_flavor(&c, dir, YarnLockFlavor::Berry);
    assert!(!with_scripts.argv.iter().any(|a| a == YARN_BERRY_SKIP_BUILD_FLAG));

    let outside = [lock_decl("/elsewhere/yarn.lock")];
    let err = rem
        .preview_lock_dir(&ctx(&outside, "left-pad", "1.3.0", DependencyKind::Direct, false, false), &unresolved(1))
        .unwrap_err();
    assert!(matches!(err, RemediationError::UnsupportedLockLayout(_)));

    let bun_decls = [lock_decl(BUN_LOCK_FILE_NAME)];
    let bun = BunRemediator::with_bin("/work/bin/bun-ok".to_string());
    let bun_scripts = bun
        .preview(&ctx(&bun_decls, "left-pad", "2.0.0", DependencyKind::Direct, true, false), &resolved(ROOT, 1))
        .expect("bun with scripts");
    assert!(!bun_scripts.argv.iter().any(|a| a == BUN_IGNORE_SCRIPTS_FLAG));
    let bun_outside = [lock_decl("/elsewhere/bun.lock")];
    let err = bun
        .preview(&ctx(&bun_outside, "left-pad", "2.0.0", DependencyKind::Direct, false, false), &unresolved(1))
        .unwrap_err();
    assert!(matches!(err, RemediationError::UnsupportedLockLayout(_)));
}

#[test]
fn poetry_refuses_transitive_apply() {
    let decls = [lock_decl(POETRY_LOCK_FILE_NAME)];
    let rem = PythonRemediator::with_poetry_bin("/work/bin/poetry-ok".to_string());
    let err = rem
        .preview(&ctx(&decls, "requests", "2.32.0", DependencyKind::Transitive, false, false), &resolved(ROOT, 1))
        .unwrap_err();
    assert!(matches!(err, RemediationError::UnsupportedLockLayout(_)));
}

#[test]
fn npm_apply_rejects_unknown_offline_missing_bin_and_lock() {
    let decls = [lock_decl("package-lock.json")];
    let rem = NpmRemediator::with_bin("/work/bin/npm-ok".to_string());
    let survey = resolved(ROOT, 1);

    apply_gate(false, true, NPM_BIN_NAME).expect("gate open");
    let err = rem
        .preview(&ctx(&decls, "left-pad", MIN_FIXED_VERSION_UNKNOWN, DependencyKind::Direct, false, false), &survey)
        .unwrap_err();
    assert!(matches!(err, RemediationError::TargetVersionUnknown));

    let err = apply_gate(true, true, NPM_BIN_NAME).unwrap_err();
    assert!(matches!(err, RemediationError::OfflineBlocked));

    let manifest_only = [manifest_decl("package.json")];
    let err = rem
        .preview(&ctx(&manifest_only, "left-pad", "2.0.0", DependencyKind::Direct, false, false), &resolved(ROOT, 1))
        .unwrap_err();
    assert!(matches!(err, RemediationError::UnsupportedLockLayout(_)));

    let err = apply_gate(false, false, NPM_BIN_NAME).unwrap_err();
    assert!(matches!(err, RemediationError::MissingPackageManager(ref n) if n == NPM_BIN_NAME));
}

#[test]
fn cargo_apply_rejects_unknown_offline_missing_bin_and_lock() {
    let decls = [lock_decl("Cargo.lock")];
    let rem = CargoRemediator::with_bin("/work/bin/cargo-ok".to_string());
    let err = rem
        .preview(&ctx(&decls, "serde", MIN_FIXED_VERSION_UNKNOWN, DependencyKind::Direct, false, false), &resolved(ROOT, 1))
        .unwrap_err();
    assert!(matches!(err, RemediationError::TargetVersionUnknown));
    assert!(matches!(apply_gate(true, true, CARGO_BIN_NAME).unwrap_err(), RemediationError::OfflineBlocked));
    let manifest_only = [manifest_decl("Cargo.toml")];
    let err = rem
        .preview(&ctx(&manifest_only, "serde", "1.0.200", DependencyKind::Direct, false, false), &resolved(ROOT, 1))
        .unwrap_err();
    assert!(matches!(err, RemediationError::UnsupportedLockLayout(_)));
    let err = apply_gate(false, false, CARGO_BIN_NAME).unwrap_err();
    assert!(matches!(err, RemediationError::MissingPackageManager(ref n) if n == CARGO_BIN_NAME));
}

#[test]
fn npm_apply_rejects_lock_path_outside_scan_root() {
    let rem = NpmRemediator::with_bin("/work/bin/npm-ok".to_string());
    for path in ["/elsewhere/package-lock.json", "../outside/package-lock.json"] {
        let decls = [lock_decl(path)];
        let err = rem
            .preview(&ctx(&decls, "left-pad", "2.0.0", DependencyKind::Direct, false, false), &unresolved(1))
            .unwrap_err();
        assert!(matches!(err, RemediationError::UnsupportedLockLayout(_)));
    }
}

#[test]
fn npm_apply_rejects_missing_sibling_manifest() {
    let decls = [lock_decl("package-lock.json")];
    let survey = LockSurvey {
        workdirs: vec![Some(ROOT.to_string())],
        manifest_present: vec![false],
    };
    let err = NpmRemediator::with_bin("/work/bin/npm-ok".to_string())
        .preview(&ctx(&decls, "left-pad", "2.0.0", DependencyKind::Direct, false, false), &survey)
        .unwrap_err();
    assert!(matches!(err, RemediationError::UnsupportedLockLayout(_)));
}

#[test]
fn npm_and_cargo_apply_reject_invalid_operands() {
    let npm_decls = [lock_decl("package-lock.json")];
    let err = NpmRemediator::with_bin("/work/bin/npm-ok".to_string())
        .preview(&ctx(&npm_decls, "-evil", "2.0.0", DependencyKind::Direct, false, false), &resolved(ROOT, 1))
        .unwrap_err();
    assert!(matches!(err, RemediationError::InvalidOperand(_)));
    let cargo_decls = [lock_decl("Cargo.lock")];
    let cargo = CargoRemediator::with_bin("/work/bin/cargo-ok".to_string());
    let err = cargo
        .preview(&ctx(&cargo_decls, "-evil", "1.0.0", DependencyKind::Direct, false, false), &resolved(ROOT, 1))
        .unwrap_err();
    assert!(matches!(err, RemediationError::InvalidOperand(_)));
    let err = cargo
        .preview(&ctx(&cargo_decls, "serde", "--precise", DependencyKind::Direct, false, false), &resolved(ROOT, 1))
        .unwrap_err();
    assert!(matches!(err, RemediationError::InvalidOperand(_)));
}

#[test]
fn appendix_b_preview_apply_and_offline_guards() {
    let poetry_decls = [lock_decl(POETRY_LOCK_FILE_NAME)];
    let rem = PythonRemediator::with_poetry_bin("/work/bin/poetry-ok".to_string());
    let c = ctx(&poetry_decls, "requests", "2.32.0", DependencyKind::Direct, false, false);
    let preview = rem.preview(&c, &resolved(ROOT, 1)).expect("poetry preview");
    assert_eq!(preview.argv, poetry_add_argv("/work/bin/poetry-ok", "requests", "2.32.0"));
    assert_eq!(
        preview.files,
        vec![format!("{ROOT}/{POETRY_LOCK_FILE_NAME}"), format!("{ROOT}/pyproject.toml")]
    );
    let (tool, name) = rem.apply_tool(&c, &resolved(ROOT, 1)).expect("tool");
    assert_eq!((tool.as_str(), name), ("/work/bin/poetry-ok", POETRY_BIN_NAME));
    assert!(matches!(apply_gate(true, true, POETRY_BIN_NAME).unwrap_err(), RemediationError::OfflineBlocked));

    let yarn_decls = [lock_decl(YARN_LOCK_FILE_NAME)];
    let yarn_rem = YarnRemediator::with_bin("/work/bin/yarn-ok".to_string());
    let yc = ctx(&yarn_decls, "left-pad", "1.3.0", DependencyKind::Direct, false, false);
    let dir = yarn_rem.preview_lock_dir(&yc, &resolved(ROOT, 1)).expect("lock dir");
    let flavor = yarn_lock_flavor_of_contents("__metadata:\n  version: 8\n");
    let yarn_preview = yarn_rem.preview_with_flavor(&yc, dir, flavor);
    assert_eq!(yarn_preview.argv, yarn_up_argv("/work/bin/yarn-ok", "left-pad", "1.3.0", false));
    assert!(yarn_preview.argv.iter().any(|a| a == YARN_BERRY_SKIP_BUILD_FLAG));

    let uv_decls = [lock_decl(UV_LOCK_FILE_NAME)];
    let uv_rem = PythonRemediator::with_uv_bin("/work/bin/uv-ok".to_string());
    let uc = ctx(&uv_decls, "requests", "2.32.0", DependencyKind::Direct, false, false);
    let uv_preview = uv_rem.preview(&uc, &resolved(ROOT, 1)).expect("uv preview");
    assert_eq!(uv_preview.argv, uv_add_argv("/work/bin/uv-ok", "requests", "2.32.0"));
    let (tool, name) = uv_rem.apply_tool(&uc, &resolved(ROOT, 1)).expect("tool");
    assert_eq!((tool.as_str(), name), ("/work/bin/uv-ok", UV_BIN_NAME));

    let pnpm_decls = [lock_decl(PNPM_LOCK_FILE_NAME)];
    let pnpm = PnpmRemediator::with_bin("/work/bin/pnpm-ok".to_string());
    let pnpm_preview = pnpm
        .preview(&ctx(&pnpm_decls, "left-pad", "2.0.0", DependencyKind::Direct, false, false), &resolved(ROOT, 1))
        .expect("pnpm preview");
    assert_eq!(pnpm_preview.argv, pnpm_update_argv("/work/bin/pnpm-ok", "left-pad", "2.0.0"));
    let err = pnpm
        .preview(&ctx(&pnpm_decls, "left-pad", "2.0.0", DependencyKind::Transitive, false, false), &resolved(ROOT, 1))
        .unwrap_err();
    assert!(matches!(err, RemediationError::UnsupportedLockLayout(_)));

    let bun_decls = [lock_decl(BUN_LOCK_FILE_NAME)];
    let bun = BunRemediator::with_bin("/work/bin/bun-ok".to_string());
    let bun_preview = bun
        .preview(&ctx(&bun_decls, "left-pad", "2.0.0", DependencyKind::Direct, false, false), &resolved(ROOT, 1))
        .expect("bun preview");
    assert_eq!(bun_preview.argv, bun_update_argv("/work/bin/bun-ok", "left-pad", "2.0.0", false));
    assert!(bun_preview.argv.iter().any(|a| a == BUN_IGNORE_SCRIPTS_FLAG));
    let err = bun
        .preview(&ctx(&bun_decls, "left-pad", "2.0.0", DependencyKind::Transitive, false, false), &resolved(ROOT, 1))
        .unwrap_err();
    assert!(matches!(err, RemediationError::UnsupportedLockLayout(_)));
}

#[test]
fn lock_paths_join_with_one_separator() {
    assert_eq!(join_path("/a/b", "Cargo.lock"), "/a/b/Cargo.lock");
    assert_eq!(join_path("/a/b/", "Cargo.lock"), "/a/b/Cargo.lock");
    assert_eq!(join_path("", "Cargo.lock"), "Cargo.lock");
}

#[test]
fn lock_read_and_command_failures_carry_their_text() {
    match yarn_lock_unreadable("permission denied") {
        RemediationError::UnsupportedLockLayout(m) => {
            assert_eq!(m, "unable to read yarn.lock for dialect detection: permission denied")
        }
        other => panic!("unexpected {other:?}"),
    }
    match command_failed("npm", "  npm ERR! boom\n") {
        RemediationError::CommandFailed { strategy, message } => {
            assert_eq!(strategy, "npm");
            assert_eq!(message, "npm ERR! boom");
        }
        other => panic!("unexpected {other:?}"),
    }
}
