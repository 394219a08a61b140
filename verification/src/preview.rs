//! Remediation previews: which lock file a package manager would update,
//! where it would run, which files it would change and the exact argv, from
//! what the caller found on disk about the declared locks.
use vstd::prelude::*;
use vstd::string::*;

use crate::matching::string_views;
use crate::model::{DeclarationKind, PackageDeclarationLocation};
use crate::paths::file_name_str;
use crate::remediate::{
    basename_is, bun_update_argv, cargo_name_ok, cargo_update_argv, lock_basename_eq,
    npm_install_argv, npm_install_argv_spec, npm_name_ok, operand_rejection, pnpm_update_argv,
    poetry_add_argv, pypi_name_ok, refuse_transitive_manifest_mutation,
    require_allowlisted_cargo_operands, require_allowlisted_npm_operands,
    require_allowlisted_pypi_operands, uv_add_argv, version_operand_ok, yarn_argv_spec,
    yarn_remediate_argv, ApplyStrategy, POETRY_LOCK_FLAG, UV_NO_SYNC_FLAG, POETRY_BIN_NAME, UV_BIN_NAME, BunRemediator, CargoRemediator, DependencyKind,
    NpmRemediator, PnpmRemediator, PythonRemediator, RemediationContext, RemediationError,
    RemediationPreview, YarnLockFlavor, YarnRemediator, BUN_IGNORE_SCRIPTS_FLAG,
    BUN_LOCK_FILE_NAME, CARGO_LOCK_FILE_NAME, CARGO_MANIFEST_FILE_NAME,
    MIN_FIXED_VERSION_UNKNOWN, NPM_LOCKFILE_NPM_SHRINKWRAP_JSON, NPM_LOCKFILE_PACKAGE_LOCK_JSON,
    NPM_MANIFEST_FILE_NAME, PNPM_LOCKFILE_ONLY_FLAG, PNPM_LOCK_FILE_NAME, POETRY_LOCK_FILE_NAME,
    PYTHON_MANIFEST_FILE_NAME, UV_LOCK_FILE_NAME, YARN_LOCK_FILE_NAME,
};

verus! {

/// What the caller found on disk for each declaration of a remediation
/// context (by position): the working directory of the declared lock when it
/// resolves under the scan root, and whether the package manager's manifest
/// is a file next to it.
pub struct LockSurvey {
    pub workdirs: Vec<Option<String>>,
    pub manifest_present: Vec<bool>,
}

/// Which lock files a package manager works from.
#[derive(Debug, Clone, Copy, PartialEq, Eq, Structural)]
pub enum LockKind {
    /// `package-lock.json` or `npm-shrinkwrap.json`.
    Npm,
    Cargo,
    Yarn,
    Pnpm,
    Bun,
    /// `poetry.lock` or `uv.lock`.
    Python,
}

/// A path names a lock of the kind.
pub open spec fn lock_kind_matches(kind: LockKind, path: Seq<char>) -> bool {
    match kind {
        LockKind::Npm => basename_is(path, NPM_LOCKFILE_PACKAGE_LOCK_JSON@) || basename_is(
            path,
            NPM_LOCKFILE_NPM_SHRINKWRAP_JSON@,
        ),
        LockKind::Cargo => basename_is(path, CARGO_LOCK_FILE_NAME@),
        LockKind::Yarn => basename_is(path, YARN_LOCK_FILE_NAME@),
        LockKind::Pnpm => basename_is(path, PNPM_LOCK_FILE_NAME@),
        LockKind::Bun => basename_is(path, BUN_LOCK_FILE_NAME@),
        LockKind::Python => basename_is(path, POETRY_LOCK_FILE_NAME@) || basename_is(path, UV_LOCK_FILE_NAME@),
    }
}

fn lock_kind_matches_exec(kind: LockKind, path: &str) -> (r: bool)
    ensures
        r == lock_kind_matches(kind, path@),
{
    match kind {
        LockKind::Npm => lock_basename_eq(path, NPM_LOCKFILE_PACKAGE_LOCK_JSON) || lock_basename_eq(
            path,
            NPM_LOCKFILE_NPM_SHRINKWRAP_JSON,
        ),
        LockKind::Cargo => lock_basename_eq(path, CARGO_LOCK_FILE_NAME),
        LockKind::Yarn => lock_basename_eq(path, YARN_LOCK_FILE_NAME),
        LockKind::Pnpm => lock_basename_eq(path, PNPM_LOCK_FILE_NAME),
        LockKind::Bun => lock_basename_eq(path, BUN_LOCK_FILE_NAME),
        LockKind::Python => lock_basename_eq(path, POETRY_LOCK_FILE_NAME) || lock_basename_eq(
            path,
            UV_LOCK_FILE_NAME,
        ),
    }
}

/// The surveyed working directory of declaration `k`.
pub open spec fn survey_dir(workdirs: Seq<Option<String>>, k: int) -> Option<Seq<char>> {
    if 0 <= k < workdirs.len() {
        match workdirs[k] {
            Some(d) => Some(d@),
            None => None,
        }
    } else {
        None
    }
}

/// The manifest was found next to the lock of declaration `k`.
pub open spec fn survey_present(present: Seq<bool>, k: int) -> bool {
    0 <= k < present.len() && present[k]
}

/// Declaration `k` is a lock of the kind.
pub open spec fn lock_decl(decls: Seq<PackageDeclarationLocation>, kind: LockKind, k: int) -> bool {
    0 <= k < decls.len() && decls[k].kind == DeclarationKind::Lockfile && lock_kind_matches(kind, decls[k].path@)
}

/// The first lock of the kind, from position `k` on, whose working
/// directory resolves under the scan root.
pub open spec fn first_lock_from(
    decls: Seq<PackageDeclarationLocation>,
    workdirs: Seq<Option<String>>,
    kind: LockKind,
    k: int,
) -> Option<int>
    decreases decls.len() - k,
{
    if k < 0 || k >= decls.len() {
        None
    } else if lock_decl(decls, kind, k) && survey_dir(workdirs, k) is Some {
        Some(k)
    } else {
        first_lock_from(decls, workdirs, kind, k + 1)
    }
}

/// The first lock of the kind, from position `k` on, resolved or not.
pub open spec fn first_decl_from(decls: Seq<PackageDeclarationLocation>, kind: LockKind, k: int) -> Option<int>
    decreases decls.len() - k,
{
    if k < 0 || k >= decls.len() {
        None
    } else if lock_decl(decls, kind, k) {
        Some(k)
    } else {
        first_decl_from(decls, kind, k + 1)
    }
}

proof fn lemma_first_lock_from(
    decls: Seq<PackageDeclarationLocation>,
    workdirs: Seq<Option<String>>,
    kind: LockKind,
    k: int,
)
    requires
        0 <= k,
    ensures
        first_lock_from(decls, workdirs, kind, k) matches Some(j) ==> k <= j < decls.len() && lock_decl(
            decls,
            kind,
            j,
        ) && survey_dir(workdirs, j) is Some,
    decreases decls.len() - k,
{
    if k < decls.len() && !(lock_decl(decls, kind, k) && survey_dir(workdirs, k) is Some) {
        lemma_first_lock_from(decls, workdirs, kind, k + 1);
    }
}

proof fn lemma_first_decl_from(decls: Seq<PackageDeclarationLocation>, kind: LockKind, k: int)
    requires
        0 <= k,
    ensures
        first_decl_from(decls, kind, k) matches Some(j) ==> k <= j < decls.len() && lock_decl(decls, kind, j),
    decreases decls.len() - k,
{
    if k < decls.len() && !lock_decl(decls, kind, k) {
        lemma_first_decl_from(decls, kind, k + 1);
    }
}

/// `name` under directory `dir` (`Path::join` of a plain file name).
pub open spec fn joined_path(dir: Seq<char>, name: Seq<char>) -> Seq<char> {
    if dir.len() == 0 || dir.last() == '/' {
        dir + name
    } else {
        dir + "/"@ + name
    }
}

/// `name` under directory `dir`.
pub fn join_path(dir: &str, name: &str) -> (r: String)
    ensures
        r@ == joined_path(dir@, name@),
{
    proof {
        reveal_strlit("/");
    }
    let n = dir.unicode_len();
    let mut r = String::from_str(dir);
    if !(n == 0 || dir.get_char(n - 1) == '/') {
        r.append("/");
    }
    r.append(name);
    r
}

/// The first lock of the kind whose working directory resolves under the
/// scan root, with that directory.
pub fn first_lock<'a>(decls: &[PackageDeclarationLocation], survey: &'a LockSurvey, kind: LockKind) -> (r: Option<
    (usize, &'a str),
>)
    ensures
        match first_lock_from(decls@, survey.workdirs@, kind, 0) {
            Some(k) => r matches Some((k2, d)) && k2 == k && survey_dir(survey.workdirs@, k) == Some(d@),
            None => r is None,
        },
        r matches Some((k, _)) ==> k < decls@.len() && lock_decl(decls@, kind, k as int),
{
    proof {
        lemma_first_lock_from(decls@, survey.workdirs@, kind, 0);
    }
    let mut i: usize = 0;
    while i < decls.len()
        invariant
            i <= decls.len(),
            first_lock_from(decls@, survey.workdirs@, kind, i as int) == first_lock_from(
                decls@,
                survey.workdirs@,
                kind,
                0,
            ),
        decreases decls.len() - i,
    {
        let d = &decls[i];
        if d.kind == DeclarationKind::Lockfile && lock_kind_matches_exec(kind, d.path.as_str()) {
            if i < survey.workdirs.len() {
                match &survey.workdirs[i] {
                    Some(dir) => {
                        return Some((i, dir.as_str()));
                    },
                    None => {},
                }
            }
        }
        i = i + 1;
    }
    None
}

/// The first lock of the kind, resolved or not.
pub fn first_decl(decls: &[PackageDeclarationLocation], kind: LockKind) -> (r: Option<usize>)
    ensures
        match first_decl_from(decls@, kind, 0) {
            Some(k) => r matches Some(k2) && k2 == k && 0 <= k < decls@.len(),
            None => r is None,
        },
{
    proof {
        lemma_first_decl_from(decls@, kind, 0);
    }
    let mut i: usize = 0;
    while i < decls.len()
        invariant
            i <= decls.len(),
            first_decl_from(decls@, kind, i as int) == first_decl_from(decls@, kind, 0),
        decreases decls.len() - i,
    {
        let d = &decls[i];
        if d.kind == DeclarationKind::Lockfile && lock_kind_matches_exec(kind, d.path.as_str()) {
            return Some(i);
        }
        i = i + 1;
    }
    None
}

/// A preview outcome as the specifications describe it.
pub enum PreviewView {
    TargetVersionUnknown,
    InvalidOperand(Seq<char>),
    UnsupportedLockLayout(Seq<char>),
    /// The strategy, working directory, files and argv.
    Planned(ApplyStrategy, Seq<char>, Seq<Seq<char>>, Seq<Seq<char>>),
    Other,
}

/// The view of a preview result.
pub open spec fn preview_view(r: Result<RemediationPreview, RemediationError>) -> PreviewView {
    match r {
        Ok(p) => PreviewView::Planned(p.strategy, p.workdir@, string_views(p.files@), string_views(p.argv@)),
        Err(RemediationError::TargetVersionUnknown) => PreviewView::TargetVersionUnknown,
        Err(RemediationError::InvalidOperand(m)) => PreviewView::InvalidOperand(m@),
        Err(RemediationError::UnsupportedLockLayout(m)) => PreviewView::UnsupportedLockLayout(m@),
        Err(_) => PreviewView::Other,
    }
}

/// Operand rules of the package managers.
#[derive(Debug, Clone, Copy, PartialEq, Eq, Structural)]
pub enum OperandRules {
    Npm,
    Cargo,
    PyPI,
}

/// The operands pass the rules.
pub open spec fn operands_ok(rules: OperandRules, name: Seq<char>, version: Seq<char>) -> bool {
    version_operand_ok(version) && match rules {
        OperandRules::Npm => npm_name_ok(name),
        OperandRules::Cargo => cargo_name_ok(name),
        OperandRules::PyPI => pypi_name_ok(name),
    }
}

/// Label of the operand rules in rejections.
pub open spec fn rules_label(rules: OperandRules) -> Seq<char> {
    match rules {
        OperandRules::Npm => "npm"@,
        OperandRules::Cargo => "cargo"@,
        OperandRules::PyPI => "PyPI"@,
    }
}

/// The checks every preview makes before choosing a lock: a known target
/// version, allowlisted operands, and (for strategies that rewrite the
/// manifest) a direct dependency. `None` when all pass.
pub open spec fn preview_gate(
    target: Seq<char>,
    name: Seq<char>,
    rules: OperandRules,
    kind: DependencyKind,
    refuse_transitive: Option<Seq<char>>,
) -> Option<PreviewView> {
    if target == MIN_FIXED_VERSION_UNKNOWN@ {
        Some(PreviewView::TargetVersionUnknown)
    } else if !operands_ok(rules, name, target) {
        Some(PreviewView::InvalidOperand(operand_rejection(rules_label(rules), name, target)))
    } else if refuse_transitive is Some && kind == DependencyKind::Transitive {
        Some(
            PreviewView::UnsupportedLockLayout(
                refuse_transitive.unwrap()
                    + " cannot apply transitive upgrades without promoting the package to a direct dependency"@,
            ),
        )
    } else {
        None
    }
}

/// The message for a missing manifest next to the lock.
pub open spec fn missing_sibling(manifest: Seq<char>) -> Seq<char> {
    "missing sibling "@ + manifest + " next to lockfile"@
}

/// The lock a preview works from: the first lock of the kind that
/// resolves, provided its manifest sits next to it; else the layout error.
pub open spec fn located_lock(
    decls: Seq<PackageDeclarationLocation>,
    survey: LockSurvey,
    kind: LockKind,
    not_found: Seq<char>,
    manifest: Seq<char>,
) -> Result<(int, Seq<char>), Seq<char>> {
    match first_lock_from(decls, survey.workdirs@, kind, 0) {
        None => Err(not_found),
        Some(k) => if survey_present(survey.manifest_present@, k) {
            Ok((k, survey_dir(survey.workdirs@, k).unwrap()))
        } else {
            Err(missing_sibling(manifest))
        },
    }
}

fn gate(ctx: &RemediationContext<'_>, rules: OperandRules, refuse: Option<&str>) -> (r: Result<(), RemediationError>)
    ensures
        match preview_gate(
            ctx.target_version@,
            ctx.package_name@,
            rules,
            ctx.dependency_kind,
            match refuse {
                Some(s) => Some(s@),
                None => None,
            },
        ) {
            Some(v) => r matches Err(e) && preview_view(Err(e)) == v,
            None => r is Ok,
        },
{
    if crate::text::str_eq(ctx.target_version, MIN_FIXED_VERSION_UNKNOWN) {
        return Err(RemediationError::TargetVersionUnknown);
    }
    let ops = match rules {
        OperandRules::Npm => require_allowlisted_npm_operands(ctx.package_name, ctx.target_version),
        OperandRules::Cargo => require_allowlisted_cargo_operands(ctx.package_name, ctx.target_version),
        OperandRules::PyPI => require_allowlisted_pypi_operands(ctx.package_name, ctx.target_version),
    };
    match ops {
        Err(e) => {
            return Err(e);
        },
        Ok(()) => {},
    }
    match refuse {
        Some(label) => refuse_transitive_manifest_mutation(ctx, label),
        None => Ok(()),
    }
}

fn locate(
    ctx: &RemediationContext<'_>,
    survey: &LockSurvey,
    kind: LockKind,
    not_found: &str,
    manifest: &str,
) -> (r: Result<(usize, String), RemediationError>)
    ensures
        match located_lock(ctx.declarations@, *survey, kind, not_found@, manifest@) {
            Ok((k, d)) => r matches Ok((k2, d2)) && k2 == k && d2@ == d,
            Err(m) => r matches Err(e) && preview_view(Err(e)) == PreviewView::UnsupportedLockLayout(m),
        },
        r matches Ok((k, _)) ==> k < ctx.declarations@.len() && lock_decl(ctx.declarations@, kind, k as int),
{
    match first_lock(ctx.declarations, survey, kind) {
        None => Err(RemediationError::UnsupportedLockLayout(String::from_str(not_found))),
        Some((k, dir)) => {
            if k < survey.manifest_present.len() && survey.manifest_present[k] {
                Ok((k, String::from_str(dir)))
            } else {
                let mut m = String::from_str("missing sibling ");
                m.append(manifest);
                m.append(" next to lockfile");
                Err(RemediationError::UnsupportedLockLayout(m))
            }
        },
    }
}

/// The files a JavaScript package manager changes: its lock, and the
/// manifest for a direct dependency.
pub open spec fn js_files(dir: Seq<char>, lock: Seq<char>, kind: DependencyKind) -> Seq<Seq<char>> {
    seq![joined_path(dir, lock)] + if kind == DependencyKind::Direct {
        seq![joined_path(dir, NPM_MANIFEST_FILE_NAME@)]
    } else {
        Seq::empty()
    }
}

/// The files a JavaScript package manager changes.
pub fn js_lock_preview_files(lock_dir: &str, lock_name: &str, dependency_kind: DependencyKind) -> (r: Vec<String>)
    ensures
        string_views(r@) == js_files(lock_dir@, lock_name@, dependency_kind),
{
    let mut files: Vec<String> = Vec::new();
    files.push(join_path(lock_dir, lock_name));
    if dependency_kind == DependencyKind::Direct {
        files.push(join_path(lock_dir, NPM_MANIFEST_FILE_NAME));
    }
    assert(string_views(files@) =~= js_files(lock_dir@, lock_name@, dependency_kind));
    files
}

/// Layout error when no npm lock resolves.
pub const NPM_LOCK_NOT_FOUND: &'static str = "supported npm lockfile not found under scan root (need package-lock.json or npm-shrinkwrap.json)";

/// Layout error when no `Cargo.lock` resolves.
pub const CARGO_LOCK_NOT_FOUND: &'static str = "Cargo.lock not found under scan root";

/// Layout error when no Python lock resolves.
pub const PYTHON_LOCK_NOT_FOUND: &'static str = "supported Python lockfile not found under scan root (need poetry.lock or uv.lock)";

/// Layout error when no `yarn.lock` resolves.
pub const YARN_LOCK_NOT_FOUND: &'static str = "yarn.lock not found under scan root";

/// Layout error when no `pnpm-lock.yaml` resolves.
pub const PNPM_LOCK_NOT_FOUND: &'static str = "pnpm-lock.yaml not found under scan root";

/// Layout error when no `bun.lock` resolves.
pub const BUN_LOCK_NOT_FOUND: &'static str = "bun.lock not found under scan root";

/// The npm lock file to change: the first npm lock declaration, under its
/// resolved directory, when it resolves; else `package-lock.json` under the
/// chosen directory.
pub open spec fn npm_lock_path(decls: Seq<PackageDeclarationLocation>, survey: LockSurvey, dir: Seq<char>) -> Seq<char> {
    match first_decl_from(decls, LockKind::Npm, 0) {
        Some(k0) => match survey_dir(survey.workdirs@, k0) {
            Some(d0) => match crate::paths::file_name_of(decls[k0].path@) {
                Some(n) => joined_path(d0, n),
                None => joined_path(d0, NPM_LOCKFILE_PACKAGE_LOCK_JSON@),
            },
            None => joined_path(dir, NPM_LOCKFILE_PACKAGE_LOCK_JSON@),
        },
        None => joined_path(dir, NPM_LOCKFILE_PACKAGE_LOCK_JSON@),
    }
}

/// The npm preview: gated operands, the first resolving npm lock with a
/// `package.json` next to it, its lock (and, for a direct dependency, the
/// manifest), and the npm install argv.
pub open spec fn npm_preview(bin: Seq<char>, ctx: RemediationContext, survey: LockSurvey) -> PreviewView {
    match preview_gate(ctx.target_version@, ctx.package_name@, OperandRules::Npm, ctx.dependency_kind, None) {
        Some(v) => v,
        None => match located_lock(ctx.declarations@, survey, LockKind::Npm, NPM_LOCK_NOT_FOUND@, NPM_MANIFEST_FILE_NAME@) {
            Err(m) => PreviewView::UnsupportedLockLayout(m),
            Ok((k, dir)) => PreviewView::Planned(
                ApplyStrategy::Npm,
                dir,
                seq![npm_lock_path(ctx.declarations@, survey, dir)] + if ctx.dependency_kind == DependencyKind::Direct {
                    seq![joined_path(dir, NPM_MANIFEST_FILE_NAME@)]
                } else {
                    Seq::empty()
                },
                npm_install_argv_spec(
                    bin,
                    ctx.package_name@,
                    ctx.target_version@,
                    ctx.dependency_kind,
                    ctx.allow_dependency_code_execution,
                ),
            ),
        },
    }
}

fn file_name_or(path: &str, default: &str) -> (r: String)
    ensures
        r@ == match crate::paths::file_name_of(path@) {
            Some(n) => n,
            None => default@,
        },
{
    match file_name_str(path) {
        Some(n) => n,
        None => String::from_str(default),
    }
}

impl NpmRemediator {
    /// Preview the npm remediation from the surveyed locks.
    pub fn preview(&self, ctx: &RemediationContext<'_>, survey: &LockSurvey) -> (r: Result<RemediationPreview, RemediationError>)
        ensures
            preview_view(r) == npm_preview(self.bin@, *ctx, *survey),
    {
        gate(ctx, OperandRules::Npm, None)?;
        let (k, lock_dir) = locate(ctx, survey, LockKind::Npm, NPM_LOCK_NOT_FOUND, NPM_MANIFEST_FILE_NAME)?;
        let lock_path = match first_decl(ctx.declarations, LockKind::Npm) {
            Some(k0) => {
                let resolved = if k0 < survey.workdirs.len() {
                    match &survey.workdirs[k0] {
                        Some(d0) => Some(d0.as_str()),
                        None => None,
                    }
                } else {
                    None
                };
                match resolved {
                    Some(d0) => {
                        let name = file_name_or(ctx.declarations[k0].path.as_str(), NPM_LOCKFILE_PACKAGE_LOCK_JSON);
                        join_path(d0, name.as_str())
                    },
                    None => join_path(lock_dir.as_str(), NPM_LOCKFILE_PACKAGE_LOCK_JSON),
                }
            },
            None => join_path(lock_dir.as_str(), NPM_LOCKFILE_PACKAGE_LOCK_JSON),
        };
        assert(lock_path@ == npm_lock_path(ctx.declarations@, *survey, lock_dir@));
        let mut files: Vec<String> = Vec::new();
        files.push(lock_path);
        if ctx.dependency_kind == DependencyKind::Direct {
            files.push(join_path(lock_dir.as_str(), NPM_MANIFEST_FILE_NAME));
        }
        let argv = npm_install_argv(
            self.bin.as_str(),
            ctx.package_name,
            ctx.target_version,
            ctx.dependency_kind,
            ctx.allow_dependency_code_execution,
        );
        let p = RemediationPreview { strategy: ApplyStrategy::Npm, workdir: lock_dir, files, argv };
        proof {
            let dir = p.workdir@;
            assert(string_views(p.files@) =~= seq![npm_lock_path(ctx.declarations@, *survey, dir)] + if ctx.dependency_kind
                == DependencyKind::Direct {
                seq![joined_path(dir, NPM_MANIFEST_FILE_NAME@)]
            } else {
                Seq::empty()
            });
        }
        Ok(p)
    }
}

/// The Cargo preview: gated operands, the first resolving `Cargo.lock`
/// with a `Cargo.toml` next to it, that lock, and the cargo update argv.
pub open spec fn cargo_preview(bin: Seq<char>, ctx: RemediationContext, survey: LockSurvey) -> PreviewView {
    match preview_gate(ctx.target_version@, ctx.package_name@, OperandRules::Cargo, ctx.dependency_kind, None) {
        Some(v) => v,
        None => match located_lock(ctx.declarations@, survey, LockKind::Cargo, CARGO_LOCK_NOT_FOUND@, CARGO_MANIFEST_FILE_NAME@) {
            Err(m) => PreviewView::UnsupportedLockLayout(m),
            Ok((k, dir)) => PreviewView::Planned(
                ApplyStrategy::Cargo,
                dir,
                seq![joined_path(dir, CARGO_LOCK_FILE_NAME@)],
                seq![bin, "update"@, "--package"@, ctx.package_name@, "--precise"@, ctx.target_version@],
            ),
        },
    }
}

impl CargoRemediator {
    /// Preview the Cargo remediation from the surveyed locks.
    pub fn preview(&self, ctx: &RemediationContext<'_>, survey: &LockSurvey) -> (r: Result<RemediationPreview, RemediationError>)
        ensures
            preview_view(r) == cargo_preview(self.bin@, *ctx, *survey),
    {
        gate(ctx, OperandRules::Cargo, None)?;
        let (k, lock_dir) = locate(ctx, survey, LockKind::Cargo, CARGO_LOCK_NOT_FOUND, CARGO_MANIFEST_FILE_NAME)?;
        let mut files: Vec<String> = Vec::new();
        files.push(join_path(lock_dir.as_str(), CARGO_LOCK_FILE_NAME));
        assert(string_views(files@) =~= seq![joined_path(lock_dir@, CARGO_LOCK_FILE_NAME@)]);
        let argv = cargo_update_argv(self.bin.as_str(), ctx.package_name, ctx.target_version);
        Ok(RemediationPreview { strategy: ApplyStrategy::Cargo, workdir: lock_dir, files, argv })
    }
}

/// The Python preview: gated operands and direct dependency, the first
/// resolving `poetry.lock` or `uv.lock` with a `pyproject.toml` next to it,
/// that lock (and the manifest for a direct dependency), and the poetry or
/// uv argv for that lock.
pub open spec fn python_preview(poetry: Seq<char>, uv: Seq<char>, ctx: RemediationContext, survey: LockSurvey) -> PreviewView {
    match preview_gate(ctx.target_version@, ctx.package_name@, OperandRules::PyPI, ctx.dependency_kind, Some("python"@)) {
        Some(v) => v,
        None => match located_lock(ctx.declarations@, survey, LockKind::Python, PYTHON_LOCK_NOT_FOUND@, PYTHON_MANIFEST_FILE_NAME@) {
            Err(m) => PreviewView::UnsupportedLockLayout(m),
            Ok((k, dir)) => {
                let is_poetry = basename_is(ctx.declarations@[k].path@, POETRY_LOCK_FILE_NAME@);
                let lock = if is_poetry {
                    POETRY_LOCK_FILE_NAME@
                } else {
                    UV_LOCK_FILE_NAME@
                };
                PreviewView::Planned(
                    ApplyStrategy::Python,
                    dir,
                    seq![joined_path(dir, lock)] + if ctx.dependency_kind == DependencyKind::Direct {
                        seq![joined_path(dir, PYTHON_MANIFEST_FILE_NAME@)]
                    } else {
                        Seq::empty()
                    },
                    if is_poetry {
                        seq![poetry, "add"@, ctx.package_name@ + "@"@ + ctx.target_version@, POETRY_LOCK_FLAG@]
                    } else {
                        seq![uv, "add"@, ctx.package_name@ + "=="@ + ctx.target_version@, UV_NO_SYNC_FLAG@]
                    },
                )
            },
        },
    }
}

impl PythonRemediator {
    /// Preview the Python remediation from the surveyed locks.
    pub fn preview(&self, ctx: &RemediationContext<'_>, survey: &LockSurvey) -> (r: Result<RemediationPreview, RemediationError>)
        ensures
            preview_view(r) == python_preview(self.poetry_bin@, self.uv_bin@, *ctx, *survey),
    {
        gate(ctx, OperandRules::PyPI, Some("python"))?;
        let (k, lock_dir) = locate(ctx, survey, LockKind::Python, PYTHON_LOCK_NOT_FOUND, PYTHON_MANIFEST_FILE_NAME)?;
        let is_poetry = lock_basename_eq(ctx.declarations[k].path.as_str(), POETRY_LOCK_FILE_NAME);
        let lock_name = if is_poetry {
            POETRY_LOCK_FILE_NAME
        } else {
            UV_LOCK_FILE_NAME
        };
        let mut files: Vec<String> = Vec::new();
        files.push(join_path(lock_dir.as_str(), lock_name));
        if ctx.dependency_kind == DependencyKind::Direct {
            files.push(join_path(lock_dir.as_str(), PYTHON_MANIFEST_FILE_NAME));
        }
        let argv = if is_poetry {
            poetry_add_argv(self.poetry_bin.as_str(), ctx.package_name, ctx.target_version)
        } else {
            uv_add_argv(self.uv_bin.as_str(), ctx.package_name, ctx.target_version)
        };
        proof {
            assert(string_views(files@) =~= seq![joined_path(lock_dir@, lock_name@)] + if ctx.dependency_kind
                == DependencyKind::Direct {
                seq![joined_path(lock_dir@, PYTHON_MANIFEST_FILE_NAME@)]
            } else {
                Seq::empty()
            });
        }
        Ok(RemediationPreview { strategy: ApplyStrategy::Python, workdir: lock_dir, files, argv })
    }

    /// The package manager an apply would run: poetry for a `poetry.lock`,
    /// uv otherwise (the first resolving Python lock decides), as its path
    /// and its name.
    pub fn apply_tool(&self, ctx: &RemediationContext<'_>, survey: &LockSurvey) -> (r: Result<(String, &'static str), RemediationError>)
        ensures
            match first_lock_from(ctx.declarations@, survey.workdirs@, LockKind::Python, 0) {
                None => (r matches Err(RemediationError::UnsupportedLockLayout(m)) && m@ == PYTHON_LOCK_NOT_FOUND@),
                Some(k) => r matches Ok((path, name)) && if basename_is(ctx.declarations@[k].path@, POETRY_LOCK_FILE_NAME@) {
                    path@ == self.poetry_bin@ && name@ == POETRY_BIN_NAME@
                } else {
                    path@ == self.uv_bin@ && name@ == UV_BIN_NAME@
                },
            },
    {
        match first_lock(ctx.declarations, survey, LockKind::Python) {
            None => Err(RemediationError::UnsupportedLockLayout(String::from_str(PYTHON_LOCK_NOT_FOUND))),
            Some((k, _)) => {
                if lock_basename_eq(ctx.declarations[k].path.as_str(), POETRY_LOCK_FILE_NAME) {
                    Ok((String::from_str(self.poetry_bin.as_str()), POETRY_BIN_NAME))
                } else {
                    Ok((String::from_str(self.uv_bin.as_str()), UV_BIN_NAME))
                }
            },
        }
    }
}

/// The directory of the lock of a JavaScript package manager, once its
/// operands and dependency kind are accepted.
pub open spec fn js_lock_dir(label: Seq<char>, kind: LockKind, not_found: Seq<char>, ctx: RemediationContext, survey: LockSurvey) -> Result<Seq<char>, PreviewView> {
    match preview_gate(ctx.target_version@, ctx.package_name@, OperandRules::Npm, ctx.dependency_kind, Some(label)) {
        Some(v) => Err(v),
        None => match located_lock(ctx.declarations@, survey, kind, not_found, NPM_MANIFEST_FILE_NAME@) {
            Err(m) => Err(PreviewView::UnsupportedLockLayout(m)),
            Ok((k, dir)) => Ok(dir),
        },
    }
}

fn js_lock_dir_exec(
    ctx: &RemediationContext<'_>,
    survey: &LockSurvey,
    label: &str,
    kind: LockKind,
    not_found: &str,
) -> (r: Result<String, RemediationError>)
    ensures
        match js_lock_dir(label@, kind, not_found@, *ctx, *survey) {
            Ok(dir) => r matches Ok(d) && d@ == dir,
            Err(v) => r matches Err(e) && preview_view(Err(e)) == v,
        },
{
    gate(ctx, OperandRules::Npm, Some(label))?;
    let (_, dir) = locate(ctx, survey, kind, not_found, NPM_MANIFEST_FILE_NAME)?;
    Ok(dir)
}

/// A preview that failed, or the planned strategy, directory, files and argv.
pub open spec fn js_preview(
    dir: Result<Seq<char>, PreviewView>,
    strategy: ApplyStrategy,
    lock: Seq<char>,
    kind: DependencyKind,
    argv: Seq<Seq<char>>,
) -> PreviewView {
    match dir {
        Err(v) => v,
        Ok(d) => PreviewView::Planned(strategy, d, js_files(d, lock, kind), argv),
    }
}

impl YarnRemediator {
    /// The directory of the `yarn.lock` a Yarn remediation works from (its
    /// dialect is read from that lock before the preview is completed).
    pub fn preview_lock_dir(&self, ctx: &RemediationContext<'_>, survey: &LockSurvey) -> (r: Result<String, RemediationError>)
        ensures
            match js_lock_dir("yarn"@, LockKind::Yarn, YARN_LOCK_NOT_FOUND@, *ctx, *survey) {
                Ok(dir) => r matches Ok(d) && d@ == dir,
                Err(v) => r matches Err(e) && preview_view(Err(e)) == v,
            },
    {
        js_lock_dir_exec(ctx, survey, "yarn", LockKind::Yarn, YARN_LOCK_NOT_FOUND)
    }

    /// Complete the Yarn preview for the lock directory and the dialect of
    /// its `yarn.lock`.
    pub fn preview_with_flavor(&self, ctx: &RemediationContext<'_>, lock_dir: String, flavor: YarnLockFlavor) -> (r: RemediationPreview)
        ensures
            preview_view(Ok(r)) == PreviewView::Planned(
                ApplyStrategy::Yarn,
                lock_dir@,
                js_files(lock_dir@, YARN_LOCK_FILE_NAME@, ctx.dependency_kind),
                yarn_argv_spec(
                    self.bin@,
                    ctx.package_name@,
                    ctx.target_version@,
                    flavor,
                    ctx.allow_dependency_code_execution,
                ),
            ),
    {
        let files = js_lock_preview_files(lock_dir.as_str(), YARN_LOCK_FILE_NAME, ctx.dependency_kind);
        let argv = yarn_remediate_argv(
            self.bin.as_str(),
            ctx.package_name,
            ctx.target_version,
            flavor,
            ctx.allow_dependency_code_execution,
        );
        RemediationPreview { strategy: ApplyStrategy::Yarn, workdir: lock_dir, files, argv }
    }
}

/// The layout error when the Yarn lock cannot be read to find its dialect.
pub fn yarn_lock_unreadable(error: &str) -> (r: RemediationError)
    ensures
        preview_view(Err(r)) == PreviewView::UnsupportedLockLayout(
            "unable to read yarn.lock for dialect detection: "@ + error@,
        ),
{
    let mut m = String::from_str("unable to read yarn.lock for dialect detection: ");
    m.append(error);
    RemediationError::UnsupportedLockLayout(m)
}

impl PnpmRemediator {
    /// Preview the pnpm remediation from the surveyed locks.
    pub fn preview(&self, ctx: &RemediationContext<'_>, survey: &LockSurvey) -> (r: Result<RemediationPreview, RemediationError>)
        ensures
            preview_view(r) == js_preview(
                js_lock_dir("pnpm"@, LockKind::Pnpm, PNPM_LOCK_NOT_FOUND@, *ctx, *survey),
                ApplyStrategy::Pnpm,
                PNPM_LOCK_FILE_NAME@,
                ctx.dependency_kind,
                seq![self.bin@, "update"@, ctx.package_name@ + "@"@ + ctx.target_version@, PNPM_LOCKFILE_ONLY_FLAG@],
            ),
    {
        let lock_dir = js_lock_dir_exec(ctx, survey, "pnpm", LockKind::Pnpm, PNPM_LOCK_NOT_FOUND)?;
        let files = js_lock_preview_files(lock_dir.as_str(), PNPM_LOCK_FILE_NAME, ctx.dependency_kind);
        let argv = pnpm_update_argv(self.bin.as_str(), ctx.package_name, ctx.target_version);
        Ok(RemediationPreview { strategy: ApplyStrategy::Pnpm, workdir: lock_dir, files, argv })
    }
}

impl BunRemediator {
    /// Preview the bun remediation from the surveyed locks.
    pub fn preview(&self, ctx: &RemediationContext<'_>, survey: &LockSurvey) -> (r: Result<RemediationPreview, RemediationError>)
        ensures
            preview_view(r) == js_preview(
                js_lock_dir("bun"@, LockKind::Bun, BUN_LOCK_NOT_FOUND@, *ctx, *survey),
                ApplyStrategy::Bun,
                BUN_LOCK_FILE_NAME@,
                ctx.dependency_kind,
                seq![self.bin@, "update"@, ctx.package_name@ + "@"@ + ctx.target_version@] + if ctx.allow_dependency_code_execution {
                    Seq::<Seq<char>>::empty()
                } else {
                    seq![BUN_IGNORE_SCRIPTS_FLAG@]
                },
            ),
    {
        let lock_dir = js_lock_dir_exec(ctx, survey, "bun", LockKind::Bun, BUN_LOCK_NOT_FOUND)?;
        let files = js_lock_preview_files(lock_dir.as_str(), BUN_LOCK_FILE_NAME, ctx.dependency_kind);
        let argv = bun_update_argv(
            self.bin.as_str(),
            ctx.package_name,
            ctx.target_version,
            ctx.allow_dependency_code_execution,
        );
        Ok(RemediationPreview { strategy: ApplyStrategy::Bun, workdir: lock_dir, files, argv })
    }
}

/// The checks before an apply runs a package manager: not offline, and the
/// package manager available.
pub fn apply_gate(offline: bool, bin_available: bool, bin_name: &str) -> (r: Result<(), RemediationError>)
    ensures
        offline ==> r matches Err(RemediationError::OfflineBlocked),
        !offline && !bin_available ==> (r matches Err(RemediationError::MissingPackageManager(n)) && n@ == bin_name@),
        !offline && bin_available ==> r is Ok,
{
    if offline {
        return Err(RemediationError::OfflineBlocked);
    }
    if !bin_available {
        return Err(RemediationError::MissingPackageManager(String::from_str(bin_name)));
    }
    Ok(())
}

/// The failure of a package manager run: its name and trimmed error output.
pub fn command_failed(strategy: &str, stderr: &str) -> (r: RemediationError)
    ensures
        r matches RemediationError::CommandFailed { strategy: s, message: m } && s@ == strategy@ && m@
            == crate::text::trim(stderr@),
{
    RemediationError::CommandFailed {
        strategy: String::from_str(strategy),
        message: crate::text::trim_string(stderr),
    }
}

} // verus!
