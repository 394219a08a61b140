//! Remediation planning vocabulary and the checks shared by preview and
//! apply: which package manager can apply a fix, which package names and
//! versions may be handed to it, and the exact argv it is run with.
use vstd::prelude::*;

use crate::matching::{string_views, utf8_len, utf8_len_exceeds};
use crate::model::{
    DeclarationKind, Package, PackageDeclarationLocation, CRATES_IO_ECOSYSTEM, NPM_ECOSYSTEM,
    PYPI_ECOSYSTEM,
};
use crate::paths::{file_name_of, file_name_str};
use crate::text::{
    chars_of, contains_vec, eq_ignore_ascii_case, is_ascii_alnum, lower_seq, split_once,
    split_once_vec, str_eq,
};

verus! {

/// Minimal fixed version when none could be computed.
pub const MIN_FIXED_VERSION_UNKNOWN: &'static str = "unknown";

/// npm lockfile basename.
pub const NPM_LOCKFILE_PACKAGE_LOCK_JSON: &'static str = "package-lock.json";

/// npm shrinkwrap lockfile basename.
pub const NPM_LOCKFILE_NPM_SHRINKWRAP_JSON: &'static str = "npm-shrinkwrap.json";

pub const YARN_LOCK_FILE_NAME: &'static str = "yarn.lock";

pub const PNPM_LOCK_FILE_NAME: &'static str = "pnpm-lock.yaml";

pub const BUN_LOCK_FILE_NAME: &'static str = "bun.lock";

pub const CARGO_LOCK_FILE_NAME: &'static str = "Cargo.lock";

pub const POETRY_LOCK_FILE_NAME: &'static str = "poetry.lock";

pub const UV_LOCK_FILE_NAME: &'static str = "uv.lock";

pub const PYLOCK_TOML_FILE_NAME: &'static str = "pylock.toml";

pub const NPM_MANIFEST_FILE_NAME: &'static str = "package.json";

pub const CARGO_MANIFEST_FILE_NAME: &'static str = "Cargo.toml";

pub const PYTHON_MANIFEST_FILE_NAME: &'static str = "pyproject.toml";

pub const NPM_BIN_NAME: &'static str = "npm";

pub const YARN_BIN_NAME: &'static str = "yarn";

pub const PNPM_BIN_NAME: &'static str = "pnpm";

pub const BUN_BIN_NAME: &'static str = "bun";

pub const CARGO_BIN_NAME: &'static str = "cargo";

pub const POETRY_BIN_NAME: &'static str = "poetry";

pub const UV_BIN_NAME: &'static str = "uv";

pub const NPM_IGNORE_SCRIPTS_FLAG: &'static str = "--ignore-scripts";

pub const BUN_IGNORE_SCRIPTS_FLAG: &'static str = "--ignore-scripts";

pub const YARN_CLASSIC_IGNORE_SCRIPTS_FLAG: &'static str = "--ignore-scripts";

pub const YARN_BERRY_SKIP_BUILD_FLAG: &'static str = "--mode=skip-build";

pub const YARN_CLASSIC_UPGRADE_SUBCOMMAND: &'static str = "upgrade";

pub const YARN_BERRY_UP_SUBCOMMAND: &'static str = "up";

/// First-line marker of a Yarn Classic (v1) lockfile.
pub const YARN_CLASSIC_LOCKFILE_MARKER: &'static str = "yarn lockfile v1";

pub const NPM_PACKAGE_LOCK_ONLY_FLAG: &'static str = "--package-lock-only";

pub const NPM_NO_SAVE_FLAG: &'static str = "--no-save";

pub const PNPM_LOCKFILE_ONLY_FLAG: &'static str = "--lockfile-only";

pub const POETRY_LOCK_FLAG: &'static str = "--lock";

pub const UV_NO_SYNC_FLAG: &'static str = "--no-sync";

/// Upgrade plan confidence for a planned remediation.
#[derive(Debug, Clone, Copy, PartialEq, Eq, Structural)]
pub enum UpgradePlanConfidence {
    High,
    Unknown,
}

impl UpgradePlanConfidence {
    pub fn as_str(self) -> (r: &'static str)
        ensures
            r@ == match self {
                UpgradePlanConfidence::High => "high"@,
                UpgradePlanConfidence::Unknown => "unknown"@,
            },
    {
        match self {
            UpgradePlanConfidence::High => "high",
            UpgradePlanConfidence::Unknown => "unknown",
        }
    }
}

/// Planned apply strategy for a finding-level upgrade plan.
#[derive(Debug, Clone, Copy, PartialEq, Eq, Structural)]
pub enum ApplyStrategy {
    Unavailable,
    Npm,
    Cargo,
    Python,
    Yarn,
    Pnpm,
    Bun,
    Go,
    RubyGems,
    Gradle,
    Maven,
}

impl ApplyStrategy {
    pub fn as_str(self) -> (r: &'static str)
        ensures
            r@ == match self {
                ApplyStrategy::Unavailable => "unavailable"@,
                ApplyStrategy::Npm => "npm"@,
                ApplyStrategy::Cargo => "cargo"@,
                ApplyStrategy::Python => "python"@,
                ApplyStrategy::Yarn => "yarn"@,
                ApplyStrategy::Pnpm => "pnpm"@,
                ApplyStrategy::Bun => "bun"@,
                ApplyStrategy::Go => "go"@,
                ApplyStrategy::RubyGems => "ruby_gems"@,
                ApplyStrategy::Gradle => "gradle"@,
                ApplyStrategy::Maven => "maven"@,
            },
    {
        match self {
            ApplyStrategy::Unavailable => "unavailable",
            ApplyStrategy::Npm => "npm",
            ApplyStrategy::Cargo => "cargo",
            ApplyStrategy::Python => "python",
            ApplyStrategy::Yarn => "yarn",
            ApplyStrategy::Pnpm => "pnpm",
            ApplyStrategy::Bun => "bun",
            ApplyStrategy::Go => "go",
            ApplyStrategy::RubyGems => "ruby_gems",
            ApplyStrategy::Gradle => "gradle",
            ApplyStrategy::Maven => "maven",
        }
    }
}

/// Where the vulnerable dependency is declared.
#[derive(Debug, Clone, Copy, PartialEq, Eq, Structural)]
pub enum DependencyKind {
    Direct,
    Transitive,
    Unknown,
}

impl DependencyKind {
    pub fn as_str(self) -> (r: &'static str)
        ensures
            r@ == match self {
                DependencyKind::Direct => "direct"@,
                DependencyKind::Transitive => "transitive"@,
                DependencyKind::Unknown => "unknown"@,
            },
    {
        match self {
            DependencyKind::Direct => "direct",
            DependencyKind::Transitive => "transitive",
            DependencyKind::Unknown => "unknown",
        }
    }
}

/// Finding-level upgrade plan.
#[derive(Debug, Clone, PartialEq, Eq)]
pub struct UpgradePlan {
    /// Minimal fixed version that clears every advisory, or `unknown`.
    pub minimal_fixed_version: String,
    pub dependency_kind: DependencyKind,
    pub apply_strategy: ApplyStrategy,
    pub confidence: UpgradePlanConfidence,
}

/// Yarn lockfile dialect (Classic v1 vs Berry).
#[derive(Debug, Clone, Copy, PartialEq, Eq, Structural)]
pub enum YarnLockFlavor {
    Classic,
    Berry,
}

/// Yarn dialect of a lockfile from its contents: Classic when the v1 marker
/// occurs, Berry otherwise.
pub fn yarn_lock_flavor_of_contents(text: &str) -> (r: YarnLockFlavor)
    ensures
        r == if crate::text::contains_sub(text@, YARN_CLASSIC_LOCKFILE_MARKER@) {
            YarnLockFlavor::Classic
        } else {
            YarnLockFlavor::Berry
        },
{
    let t = chars_of(text);
    let m = chars_of(YARN_CLASSIC_LOCKFILE_MARKER);
    if contains_vec(t.as_slice(), m.as_slice()) {
        YarnLockFlavor::Classic
    } else {
        YarnLockFlavor::Berry
    }
}

/// Error of a remediation preview or apply.
#[derive(Debug)]
pub enum RemediationError {
    TargetVersionUnknown,
    OfflineBlocked,
    MissingPackageManager(String),
    UnsupportedLockLayout(String),
    InvalidOperand(String),
    CommandFailed { strategy: String, message: String },
    Io(std::io::Error),
}

/// Text of an I/O error (`Display` of `std::io::Error`).
#[verifier::external_body]
fn io_error_text(e: &std::io::Error) -> String {
    e.to_string()
}

impl RemediationError {
    /// The text the error displays (for an I/O error, the text of the error
    /// itself follows the prefix).
    pub fn message(&self) -> (r: String)
        ensures
            match self {
                RemediationError::TargetVersionUnknown => r@
                    == "remediation requires a supported target version (not unknown)"@,
                RemediationError::OfflineBlocked => r@
                    == "offline mode blocks remediation application (needs package manager network access)"@,
                RemediationError::MissingPackageManager(s) => r@ == "required package manager '"@ + s@
                    + "' is not available on PATH"@,
                RemediationError::UnsupportedLockLayout(s) => r@
                    == "remediation not supported for lock/manifest layout: "@ + s@,
                RemediationError::InvalidOperand(s) => r@
                    == "remediation package or version is not allowlisted: "@ + s@,
                RemediationError::CommandFailed { strategy, message } => r@
                    == "remediation command failed ("@ + strategy@ + "): "@ + message@,
                RemediationError::Io(_) => crate::text::starts_with(r@, "IO error: "@),
            },
    {
        match self {
            RemediationError::TargetVersionUnknown => String::from_str(
                "remediation requires a supported target version (not unknown)",
            ),
            RemediationError::OfflineBlocked => String::from_str(
                "offline mode blocks remediation application (needs package manager network access)",
            ),
            RemediationError::MissingPackageManager(s) => {
                let mut r = String::from_str("required package manager '");
                r.append(s.as_str());
                r.append("' is not available on PATH");
                r
            },
            RemediationError::UnsupportedLockLayout(s) => {
                let mut r = String::from_str("remediation not supported for lock/manifest layout: ");
                r.append(s.as_str());
                r
            },
            RemediationError::InvalidOperand(s) => {
                let mut r = String::from_str("remediation package or version is not allowlisted: ");
                r.append(s.as_str());
                r
            },
            RemediationError::CommandFailed { strategy, message } => {
                let mut r = String::from_str("remediation command failed (");
                r.append(strategy.as_str());
                r.append("): ");
                r.append(message.as_str());
                r
            },
            RemediationError::Io(e) => {
                let mut r = String::from_str("IO error: ");
                let ghost prefix = r@;
                let t = io_error_text(e);
                r.append(t.as_str());
                assert(r@.subrange(0, prefix.len() as int) =~= prefix);
                r
            },
        }
    }
}

/// Inputs required to preview or apply one planned remediation.
#[derive(Debug, Clone)]
pub struct RemediationContext<'a> {
    pub scan_root: &'a str,
    pub declarations: &'a [PackageDeclarationLocation],
    pub package_name: &'a str,
    pub target_version: &'a str,
    pub dependency_kind: DependencyKind,
    /// When false, strategies that can run lifecycle scripts add skip flags.
    pub allow_dependency_code_execution: bool,
    pub offline: bool,
}

/// Dry-run preview of the files and argv a remediator would use.
#[derive(Debug, Clone, PartialEq, Eq)]
pub struct RemediationPreview {
    pub strategy: ApplyStrategy,
    /// Absolute working directory for the package-manager command.
    pub workdir: String,
    /// Absolute paths the remediator intends to change.
    pub files: Vec<String>,
    /// Full argv including the program name as `argv[0]`.
    pub argv: Vec<String>,
}

/// The strategies that rewrite the manifest refuse transitive upgrades.
pub fn refuse_transitive_manifest_mutation(ctx: &RemediationContext<'_>, strategy: &str) -> (r: Result<
    (),
    RemediationError,
>)
    ensures
        ctx.dependency_kind == DependencyKind::Transitive ==> (r matches Err(
            RemediationError::UnsupportedLockLayout(m),
        ) && m@ == strategy@
            + " cannot apply transitive upgrades without promoting the package to a direct dependency"@),
        ctx.dependency_kind != DependencyKind::Transitive ==> r is Ok,
{
    if ctx.dependency_kind == DependencyKind::Transitive {
        let mut m = String::from_str(strategy);
        m.append(
            " cannot apply transitive upgrades without promoting the package to a direct dependency",
        );
        return Err(RemediationError::UnsupportedLockLayout(m));
    }
    Ok(())
}

/// A part of an npm name: non-empty, not starting with `.` or `-`, made of
/// ASCII letters, digits, `-`, `_` and `.`.
pub open spec fn npm_part_ok(s: Seq<char>) -> bool {
    &&& s.len() > 0
    &&& s[0] != '.'
    &&& s[0] != '-'
    &&& forall|i: int|
        0 <= i < s.len() ==> is_ascii_alnum(#[trigger] s[i]) || s[i] == '-' || s[i] == '_' || s[i]
            == '.'
}

/// Allowlisted npm package name (optionally `@scope/name`), at most 214 bytes.
pub open spec fn npm_name_ok(name: Seq<char>) -> bool {
    &&& name.len() > 0
    &&& utf8_len(name) <= 214
    &&& if name[0] == '@' {
        match split_once(name.drop_first(), '/') {
            Some((scope, pkg)) => npm_part_ok(scope) && npm_part_ok(pkg),
            None => false,
        }
    } else {
        npm_part_ok(name)
    }
}

fn npm_part_ok_exec(s: &[char]) -> (r: bool)
    ensures
        r == npm_part_ok(s@),
{
    if s.len() == 0 || s[0] == '.' || s[0] == '-' {
        return false;
    }
    let mut i: usize = 0;
    while i < s.len()
        invariant
            i <= s.len(),
            forall|k: int|
                0 <= k < i ==> is_ascii_alnum(#[trigger] s@[k]) || s@[k] == '-' || s@[k] == '_'
                    || s@[k] == '.',
        decreases s.len() - i,
    {
        let c = s[i];
        if !(crate::text::is_alnum(c) || c == '-' || c == '_' || c == '.') {
            return false;
        }
        i = i + 1;
    }
    true
}

/// Allowlisted npm package name (optionally scoped) for argv operands.
pub fn is_allowlisted_npm_package_name(name: &str) -> (r: bool)
    ensures
        r == npm_name_ok(name@),
{
    let v = chars_of(name);
    if v.len() == 0 || utf8_len_exceeds(v.as_slice(), 214) {
        return false;
    }
    if v[0] == '@' {
        let rest = crate::text::sub_vec(v.as_slice(), 1, v.len());
        assert(rest@ =~= v@.drop_first());
        match split_once_vec(rest.as_slice(), '/') {
            Some((scope, pkg)) => npm_part_ok_exec(scope.as_slice()) && npm_part_ok_exec(pkg.as_slice()),
            None => false,
        }
    } else {
        npm_part_ok_exec(v.as_slice())
    }
}

/// Allowlisted crates.io package name: at most 64 bytes, no leading `-`,
/// ASCII letters, digits, `-` and `_` only.
pub open spec fn cargo_name_ok(name: Seq<char>) -> bool {
    &&& name.len() > 0
    &&& utf8_len(name) <= 64
    &&& name[0] != '-'
    &&& forall|i: int|
        0 <= i < name.len() ==> is_ascii_alnum(#[trigger] name[i]) || name[i] == '-' || name[i]
            == '_'
}

/// Allowlisted crates.io package name for `cargo update --package`.
pub fn is_allowlisted_cargo_package_name(name: &str) -> (r: bool)
    ensures
        r == cargo_name_ok(name@),
{
    let v = chars_of(name);
    if v.len() == 0 || utf8_len_exceeds(v.as_slice(), 64) || v[0] == '-' {
        return false;
    }
    let mut i: usize = 0;
    while i < v.len()
        invariant
            i <= v.len(),
            v@ == name@,
            forall|k: int|
                0 <= k < i ==> is_ascii_alnum(#[trigger] v@[k]) || v@[k] == '-' || v@[k] == '_',
        decreases v.len() - i,
    {
        let c = v[i];
        if !(crate::text::is_alnum(c) || c == '-' || c == '_') {
            return false;
        }
        i = i + 1;
    }
    true
}

/// Characters that may never appear in a version operand.
pub open spec fn operand_forbidden(c: char) -> bool {
    c == ' ' || c == '\t' || c == '\n' || c == '\r' || c == ';' || c == '|' || c == '&' || c == '$'
        || c == '`'
}

/// Allowlisted version operand: at most 128 bytes, no leading `-`, no
/// whitespace or shell metacharacters, ASCII letters, digits, `.`, `-`, `_`
/// and `+` only.
pub open spec fn version_operand_ok(v: Seq<char>) -> bool {
    &&& v.len() > 0
    &&& utf8_len(v) <= 128
    &&& v[0] != '-'
    &&& forall|i: int| 0 <= i < v.len() ==> !operand_forbidden(#[trigger] v[i])
    &&& forall|i: int|
        0 <= i < v.len() ==> is_ascii_alnum(#[trigger] v[i]) || v[i] == '.' || v[i] == '-' || v[i]
            == '_' || v[i] == '+'
}

/// Allowlisted version operand (no leading dash, whitespace or shell
/// metacharacters).
pub fn is_allowlisted_version_operand(version: &str) -> (r: bool)
    ensures
        r == version_operand_ok(version@),
{
    let v = chars_of(version);
    if v.len() == 0 || utf8_len_exceeds(v.as_slice(), 128) || v[0] == '-' {
        return false;
    }
    let mut i: usize = 0;
    while i < v.len()
        invariant
            i <= v.len(),
            v@ == version@,
            forall|k: int| 0 <= k < i ==> !operand_forbidden(#[trigger] v@[k]),
            forall|k: int|
                0 <= k < i ==> is_ascii_alnum(#[trigger] v@[k]) || v@[k] == '.' || v@[k] == '-'
                    || v@[k] == '_' || v@[k] == '+',
        decreases v.len() - i,
    {
        let c = v[i];
        if c == ' ' || c == '\t' || c == '\n' || c == '\r' || c == ';' || c == '|' || c == '&' || c
            == '$' || c == '`' {
            assert(operand_forbidden(version@[i as int]));
            return false;
        }
        if !(crate::text::is_alnum(c) || c == '.' || c == '-' || c == '_' || c == '+') {
            return false;
        }
        i = i + 1;
    }
    true
}

/// Allowlisted PyPI package name: at most 128 bytes, no leading `-` or `.`,
/// ASCII letters, digits, `-`, `_` and `.` only.
pub open spec fn pypi_name_ok(name: Seq<char>) -> bool {
    &&& name.len() > 0
    &&& utf8_len(name) <= 128
    &&& name[0] != '-'
    &&& name[0] != '.'
    &&& forall|i: int|
        0 <= i < name.len() ==> is_ascii_alnum(#[trigger] name[i]) || name[i] == '-' || name[i]
            == '_' || name[i] == '.'
}

/// Allowlisted PyPI package name (alphanumerics, `-`, `_`, `.`).
pub fn is_allowlisted_pypi_package_name(name: &str) -> (r: bool)
    ensures
        r == pypi_name_ok(name@),
{
    let v = chars_of(name);
    if v.len() == 0 || utf8_len_exceeds(v.as_slice(), 128) || v[0] == '-' || v[0] == '.' {
        return false;
    }
    let mut i: usize = 0;
    while i < v.len()
        invariant
            i <= v.len(),
            v@ == name@,
            forall|k: int|
                0 <= k < i ==> is_ascii_alnum(#[trigger] v@[k]) || v@[k] == '-' || v@[k] == '_'
                    || v@[k] == '.',
        decreases v.len() - i,
    {
        let c = v[i];
        if !(crate::text::is_alnum(c) || c == '-' || c == '_' || c == '.') {
            return false;
        }
        i = i + 1;
    }
    true
}

/// Text naming a rejected operand pair: `<label> package/version not
/// allowlisted: <name>@<version>`.
pub open spec fn operand_rejection(label: Seq<char>, name: Seq<char>, version: Seq<char>) -> Seq<char> {
    label + " package/version not allowlisted: "@ + name + "@"@ + version
}

fn operand_error(label: &str, package_name: &str, target_version: &str) -> (r: RemediationError)
    ensures
        r matches RemediationError::InvalidOperand(m) && m@ == operand_rejection(
            label@,
            package_name@,
            target_version@,
        ),
{
    let mut m = String::from_str(label);
    m.append(" package/version not allowlisted: ");
    m.append(package_name);
    m.append("@");
    m.append(target_version);
    RemediationError::InvalidOperand(m)
}

/// Both npm operands are allowlisted, or the rejection.
pub fn require_allowlisted_npm_operands(package_name: &str, target_version: &str) -> (r: Result<
    (),
    RemediationError,
>)
    ensures
        npm_name_ok(package_name@) && version_operand_ok(target_version@) <==> r is Ok,
        r is Err ==> (r matches Err(RemediationError::InvalidOperand(m)) && m@ == operand_rejection(
            "npm"@,
            package_name@,
            target_version@,
        )),
{
    if is_allowlisted_npm_package_name(package_name) && is_allowlisted_version_operand(
        target_version,
    ) {
        Ok(())
    } else {
        Err(operand_error("npm", package_name, target_version))
    }
}

/// Both cargo operands are allowlisted, or the rejection.
pub fn require_allowlisted_cargo_operands(package_name: &str, target_version: &str) -> (r: Result<
    (),
    RemediationError,
>)
    ensures
        cargo_name_ok(package_name@) && version_operand_ok(target_version@) <==> r is Ok,
        r is Err ==> (r matches Err(RemediationError::InvalidOperand(m)) && m@ == operand_rejection(
            "cargo"@,
            package_name@,
            target_version@,
        )),
{
    if is_allowlisted_cargo_package_name(package_name) && is_allowlisted_version_operand(
        target_version,
    ) {
        Ok(())
    } else {
        Err(operand_error("cargo", package_name, target_version))
    }
}

/// Both PyPI operands are allowlisted, or the rejection.
pub fn require_allowlisted_pypi_operands(package_name: &str, target_version: &str) -> (r: Result<
    (),
    RemediationError,
>)
    ensures
        pypi_name_ok(package_name@) && version_operand_ok(target_version@) <==> r is Ok,
        r is Err ==> (r matches Err(RemediationError::InvalidOperand(m)) && m@ == operand_rejection(
            "PyPI"@,
            package_name@,
            target_version@,
        )),
{
    if is_allowlisted_pypi_package_name(package_name) && is_allowlisted_version_operand(
        target_version,
    ) {
        Ok(())
    } else {
        Err(operand_error("PyPI", package_name, target_version))
    }
}

/// The file name of `path` is `expected`.
pub open spec fn basename_is(path: Seq<char>, expected: Seq<char>) -> bool {
    file_name_of(path) == Some(expected)
}

/// Whether the file name of `path` is `expected`.
pub fn lock_basename_eq(path: &str, expected: &str) -> (r: bool)
    ensures
        r == basename_is(path@, expected@),
{
    match file_name_str(path) {
        Some(n) => str_eq(n.as_str(), expected),
        None => false,
    }
}

/// Some lock file declaration is named `name`.
pub open spec fn has_lock_named(decls: Seq<PackageDeclarationLocation>, name: Seq<char>) -> bool {
    exists|i: int|
        0 <= i < decls.len() && decls[i].kind == DeclarationKind::Lockfile && basename_is(
            #[trigger] decls[i].path@,
            name,
        )
}

/// Whether some lock file declaration is named `name`.
pub fn declaration_has_lock(declarations: &[PackageDeclarationLocation], name: &str) -> (r: bool)
    ensures
        r == has_lock_named(declarations@, name@),
{
    let mut i: usize = 0;
    while i < declarations.len()
        invariant
            i <= declarations.len(),
            forall|k: int|
                0 <= k < i ==> !(declarations@[k].kind == DeclarationKind::Lockfile && basename_is(
                    #[trigger] declarations@[k].path@,
                    name@,
                )),
        decreases declarations.len() - i,
    {
        if declarations[i].kind == DeclarationKind::Lockfile && lock_basename_eq(
            declarations[i].path.as_str(),
            name,
        ) {
            return true;
        }
        i = i + 1;
    }
    false
}

/// Where remediation can be applied: the vulnerability ecosystem and the
/// lock files used for resolution decide. npm prefers npm locks, then
/// yarn, pnpm, bun; crates.io needs `Cargo.lock`; PyPI needs `poetry.lock`
/// or `uv.lock`; an unknown fixed version is never applied.
pub open spec fn apply_strategy_spec(
    ecosystem: Option<Seq<char>>,
    fixed: Seq<char>,
    decls: Seq<PackageDeclarationLocation>,
) -> ApplyStrategy {
    if fixed == MIN_FIXED_VERSION_UNKNOWN@ {
        ApplyStrategy::Unavailable
    } else {
        match ecosystem {
            Some(e) => if lower_seq(e) == lower_seq(NPM_ECOSYSTEM@) {
                if has_lock_named(decls, NPM_LOCKFILE_PACKAGE_LOCK_JSON@) || has_lock_named(
                    decls,
                    NPM_LOCKFILE_NPM_SHRINKWRAP_JSON@,
                ) {
                    ApplyStrategy::Npm
                } else if has_lock_named(decls, YARN_LOCK_FILE_NAME@) {
                    ApplyStrategy::Yarn
                } else if has_lock_named(decls, PNPM_LOCK_FILE_NAME@) {
                    ApplyStrategy::Pnpm
                } else if has_lock_named(decls, BUN_LOCK_FILE_NAME@) {
                    ApplyStrategy::Bun
                } else {
                    ApplyStrategy::Unavailable
                }
            } else if lower_seq(e) == lower_seq(CRATES_IO_ECOSYSTEM@) {
                if has_lock_named(decls, CARGO_LOCK_FILE_NAME@) {
                    ApplyStrategy::Cargo
                } else {
                    ApplyStrategy::Unavailable
                }
            } else if lower_seq(e) == lower_seq(PYPI_ECOSYSTEM@) {
                if has_lock_named(decls, POETRY_LOCK_FILE_NAME@) || has_lock_named(
                    decls,
                    UV_LOCK_FILE_NAME@,
                ) {
                    ApplyStrategy::Python
                } else {
                    ApplyStrategy::Unavailable
                }
            } else {
                ApplyStrategy::Unavailable
            },
            None => ApplyStrategy::Unavailable,
        }
    }
}

/// Where remediation of a finding can be applied.
pub fn remediation_apply_strategy_for_finding(
    package: &Package,
    minimal_fixed_version: &str,
    declarations: &[PackageDeclarationLocation],
) -> (r: ApplyStrategy)
    ensures
        r == apply_strategy_spec(package@.ecosystem, minimal_fixed_version@, declarations@),
{
    if str_eq(minimal_fixed_version, MIN_FIXED_VERSION_UNKNOWN) {
        return ApplyStrategy::Unavailable;
    }
    match &package.ecosystem {
        Some(e) => {
            if eq_ignore_ascii_case(e.as_str(), NPM_ECOSYSTEM) {
                if declaration_has_lock(declarations, NPM_LOCKFILE_PACKAGE_LOCK_JSON)
                    || declaration_has_lock(declarations, NPM_LOCKFILE_NPM_SHRINKWRAP_JSON) {
                    ApplyStrategy::Npm
                } else if declaration_has_lock(declarations, YARN_LOCK_FILE_NAME) {
                    ApplyStrategy::Yarn
                } else if declaration_has_lock(declarations, PNPM_LOCK_FILE_NAME) {
                    ApplyStrategy::Pnpm
                } else if declaration_has_lock(declarations, BUN_LOCK_FILE_NAME) {
                    ApplyStrategy::Bun
                } else {
                    ApplyStrategy::Unavailable
                }
            } else if eq_ignore_ascii_case(e.as_str(), CRATES_IO_ECOSYSTEM) {
                if declaration_has_lock(declarations, CARGO_LOCK_FILE_NAME) {
                    ApplyStrategy::Cargo
                } else {
                    ApplyStrategy::Unavailable
                }
            } else if eq_ignore_ascii_case(e.as_str(), PYPI_ECOSYSTEM) {
                if declaration_has_lock(declarations, POETRY_LOCK_FILE_NAME) || declaration_has_lock(
                    declarations,
                    UV_LOCK_FILE_NAME,
                ) {
                    ApplyStrategy::Python
                } else {
                    ApplyStrategy::Unavailable
                }
            } else {
                ApplyStrategy::Unavailable
            }
        },
        None => ApplyStrategy::Unavailable,
    }
}

fn push_arg(v: &mut Vec<String>, a: &str)
    ensures
        string_views(final(v)@) == string_views(old(v)@).push(a@),
{
    let ghost before = v@;
    v.push(String::from_str(a));
    assert(string_views(v@) =~= string_views(before).push(a@));
}

fn joined(a: &str, sep: &str, b: &str) -> (r: String)
    ensures
        r@ == a@ + sep@ + b@,
{
    let mut r = String::from_str(a);
    r.append(sep);
    r.append(b);
    r
}

fn push_owned(v: &mut Vec<String>, a: String)
    ensures
        string_views(final(v)@) == string_views(old(v)@).push(a@),
{
    let ghost before = v@;
    let ghost av = a@;
    v.push(a);
    assert(string_views(v@) =~= string_views(before).push(av));
}

/// argv of `npm install` for one package.
pub open spec fn npm_install_argv_spec(
    bin: Seq<char>,
    name: Seq<char>,
    version: Seq<char>,
    kind: DependencyKind,
    allow_code: bool,
) -> Seq<Seq<char>> {
    seq![bin, "install"@] + (if !allow_code {
        seq![NPM_IGNORE_SCRIPTS_FLAG@]
    } else {
        Seq::empty()
    }) + seq![NPM_PACKAGE_LOCK_ONLY_FLAG@] + (if kind == DependencyKind::Transitive {
        seq![NPM_NO_SAVE_FLAG@]
    } else {
        Seq::empty()
    }) + seq!["--"@, name + "@"@ + version]
}

/// Build the npm install argv shared by preview and apply.
pub fn npm_install_argv(
    bin: &str,
    package_name: &str,
    target_version: &str,
    dependency_kind: DependencyKind,
    allow_dependency_code_execution: bool,
) -> (r: Vec<String>)
    ensures
        string_views(r@) == npm_install_argv_spec(
            bin@,
            package_name@,
            target_version@,
            dependency_kind,
            allow_dependency_code_execution,
        ),
{
    let mut argv: Vec<String> = Vec::new();
    push_arg(&mut argv, bin);
    push_arg(&mut argv, "install");
    if !allow_dependency_code_execution {
        push_arg(&mut argv, NPM_IGNORE_SCRIPTS_FLAG);
    }
    push_arg(&mut argv, NPM_PACKAGE_LOCK_ONLY_FLAG);
    if dependency_kind == DependencyKind::Transitive {
        push_arg(&mut argv, NPM_NO_SAVE_FLAG);
    }
    push_arg(&mut argv, "--");
    push_owned(&mut argv, joined(package_name, "@", target_version));
    assert(string_views(argv@) =~= npm_install_argv_spec(
        bin@,
        package_name@,
        target_version@,
        dependency_kind,
        allow_dependency_code_execution,
    ));
    argv
}

/// Build the cargo update argv shared by preview and apply.
pub fn cargo_update_argv(bin: &str, package_name: &str, target_version: &str) -> (r: Vec<String>)
    ensures
        string_views(r@) == seq![
            bin@,
            "update"@,
            "--package"@,
            package_name@,
            "--precise"@,
            target_version@,
        ],
{
    let mut argv: Vec<String> = Vec::new();
    push_arg(&mut argv, bin);
    push_arg(&mut argv, "update");
    push_arg(&mut argv, "--package");
    push_arg(&mut argv, package_name);
    push_arg(&mut argv, "--precise");
    push_arg(&mut argv, target_version);
    assert(string_views(argv@) =~= seq![
        bin@,
        "update"@,
        "--package"@,
        package_name@,
        "--precise"@,
        target_version@,
    ]);
    argv
}

/// Build the poetry add argv shared by preview and apply.
pub fn poetry_add_argv(bin: &str, package_name: &str, target_version: &str) -> (r: Vec<String>)
    ensures
        string_views(r@) == seq![
            bin@,
            "add"@,
            package_name@ + "@"@ + target_version@,
            POETRY_LOCK_FLAG@,
        ],
{
    let mut argv: Vec<String> = Vec::new();
    push_arg(&mut argv, bin);
    push_arg(&mut argv, "add");
    push_owned(&mut argv, joined(package_name, "@", target_version));
    push_arg(&mut argv, POETRY_LOCK_FLAG);
    assert(string_views(argv@) =~= seq![
        bin@,
        "add"@,
        package_name@ + "@"@ + target_version@,
        POETRY_LOCK_FLAG@,
    ]);
    argv
}

/// Build the uv add argv shared by preview and apply; `--no-sync` keeps it
/// to the lock and manifest update.
pub fn uv_add_argv(bin: &str, package_name: &str, target_version: &str) -> (r: Vec<String>)
    ensures
        string_views(r@) == seq![
            bin@,
            "add"@,
            package_name@ + "=="@ + target_version@,
            UV_NO_SYNC_FLAG@,
        ],
{
    let mut argv: Vec<String> = Vec::new();
    push_arg(&mut argv, bin);
    push_arg(&mut argv, "add");
    push_owned(&mut argv, joined(package_name, "==", target_version));
    push_arg(&mut argv, UV_NO_SYNC_FLAG);
    assert(string_views(argv@) =~= seq![
        bin@,
        "add"@,
        package_name@ + "=="@ + target_version@,
        UV_NO_SYNC_FLAG@,
    ]);
    argv
}

/// argv of a Yarn upgrade for one package.
pub open spec fn yarn_argv_spec(
    bin: Seq<char>,
    name: Seq<char>,
    version: Seq<char>,
    flavor: YarnLockFlavor,
    allow_code: bool,
) -> Seq<Seq<char>> {
    seq![
        bin,
        match flavor {
            YarnLockFlavor::Classic => YARN_CLASSIC_UPGRADE_SUBCOMMAND@,
            YarnLockFlavor::Berry => YARN_BERRY_UP_SUBCOMMAND@,
        },
        name + "@"@ + version,
    ] + if allow_code {
        Seq::empty()
    } else {
        match flavor {
            YarnLockFlavor::Classic => seq![YARN_CLASSIC_IGNORE_SCRIPTS_FLAG@],
            YarnLockFlavor::Berry => seq![YARN_BERRY_SKIP_BUILD_FLAG@],
        }
    }
}

/// Build the Yarn argv shared by preview and apply.
pub fn yarn_remediate_argv(
    bin: &str,
    package_name: &str,
    target_version: &str,
    flavor: YarnLockFlavor,
    allow_dependency_code_execution: bool,
) -> (r: Vec<String>)
    ensures
        string_views(r@) == yarn_argv_spec(
            bin@,
            package_name@,
            target_version@,
            flavor,
            allow_dependency_code_execution,
        ),
{
    let subcommand = match flavor {
        YarnLockFlavor::Classic => YARN_CLASSIC_UPGRADE_SUBCOMMAND,
        YarnLockFlavor::Berry => YARN_BERRY_UP_SUBCOMMAND,
    };
    let mut argv: Vec<String> = Vec::new();
    push_arg(&mut argv, bin);
    push_arg(&mut argv, subcommand);
    push_owned(&mut argv, joined(package_name, "@", target_version));
    if !allow_dependency_code_execution {
        match flavor {
            YarnLockFlavor::Classic => {
                push_arg(&mut argv, YARN_CLASSIC_IGNORE_SCRIPTS_FLAG);
            },
            YarnLockFlavor::Berry => {
                push_arg(&mut argv, YARN_BERRY_SKIP_BUILD_FLAG);
            },
        }
    }
    assert(string_views(argv@) =~= yarn_argv_spec(
        bin@,
        package_name@,
        target_version@,
        flavor,
        allow_dependency_code_execution,
    ));
    argv
}

/// Berry `yarn up` argv.
pub fn yarn_up_argv(
    bin: &str,
    package_name: &str,
    target_version: &str,
    allow_dependency_code_execution: bool,
) -> (r: Vec<String>)
    ensures
        string_views(r@) == yarn_argv_spec(
            bin@,
            package_name@,
            target_version@,
            YarnLockFlavor::Berry,
            allow_dependency_code_execution,
        ),
{
    yarn_remediate_argv(
        bin,
        package_name,
        target_version,
        YarnLockFlavor::Berry,
        allow_dependency_code_execution,
    )
}

/// Build the pnpm update argv shared by preview and apply.
pub fn pnpm_update_argv(bin: &str, package_name: &str, target_version: &str) -> (r: Vec<String>)
    ensures
        string_views(r@) == seq![
            bin@,
            "update"@,
            package_name@ + "@"@ + target_version@,
            PNPM_LOCKFILE_ONLY_FLAG@,
        ],
{
    let mut argv: Vec<String> = Vec::new();
    push_arg(&mut argv, bin);
    push_arg(&mut argv, "update");
    push_owned(&mut argv, joined(package_name, "@", target_version));
    push_arg(&mut argv, PNPM_LOCKFILE_ONLY_FLAG);
    assert(string_views(argv@) =~= seq![
        bin@,
        "update"@,
        package_name@ + "@"@ + target_version@,
        PNPM_LOCKFILE_ONLY_FLAG@,
    ]);
    argv
}

/// Build the bun update argv shared by preview and apply.
pub fn bun_update_argv(
    bin: &str,
    package_name: &str,
    target_version: &str,
    allow_dependency_code_execution: bool,
) -> (r: Vec<String>)
    ensures
        string_views(r@) == seq![bin@, "update"@, package_name@ + "@"@ + target_version@] + if allow_dependency_code_execution {
            Seq::<Seq<char>>::empty()
        } else {
            seq![BUN_IGNORE_SCRIPTS_FLAG@]
        },
{
    let mut argv: Vec<String> = Vec::new();
    push_arg(&mut argv, bin);
    push_arg(&mut argv, "update");
    push_owned(&mut argv, joined(package_name, "@", target_version));
    if !allow_dependency_code_execution {
        push_arg(&mut argv, BUN_IGNORE_SCRIPTS_FLAG);
    }
    assert(string_views(argv@) =~= seq![bin@, "update"@, package_name@ + "@"@ + target_version@]
        + if allow_dependency_code_execution {
        Seq::<Seq<char>>::empty()
    } else {
        seq![BUN_IGNORE_SCRIPTS_FLAG@]
    });
    argv
}

/// Applies npm remediation by invoking
/// `npm install --ignore-scripts --package-lock-only -- <name>@<version>`.
#[derive(Debug, Clone)]
pub struct NpmRemediator {
    pub bin: String,
}

impl NpmRemediator {
    /// The apply strategy this remediator handles.
    pub fn strategy(&self) -> (r: ApplyStrategy)
        ensures
            r == ApplyStrategy::Npm,
    {
        ApplyStrategy::Npm
    }

    pub fn new() -> (r: Self)
        ensures
            r.bin@ == NPM_BIN_NAME@,
    {
        NpmRemediator { bin: String::from_str(NPM_BIN_NAME) }
    }

    /// Override the npm executable path.
    pub fn with_bin(bin: String) -> (r: Self)
        ensures
            r.bin == bin,
    {
        NpmRemediator { bin }
    }
}

impl Default for NpmRemediator {
    fn default() -> (r: Self)
        ensures
            r.bin@ == NPM_BIN_NAME@,
    {
        NpmRemediator::new()
    }
}

/// Applies Cargo remediation by invoking
/// `cargo update --package <name> --precise <version>`.
#[derive(Debug, Clone)]
pub struct CargoRemediator {
    pub bin: String,
}

impl CargoRemediator {
    /// The apply strategy this remediator handles.
    pub fn strategy(&self) -> (r: ApplyStrategy)
        ensures
            r == ApplyStrategy::Cargo,
    {
        ApplyStrategy::Cargo
    }

    pub fn new() -> (r: Self)
        ensures
            r.bin@ == CARGO_BIN_NAME@,
    {
        CargoRemediator { bin: String::from_str(CARGO_BIN_NAME) }
    }

    /// Override the cargo executable path.
    pub fn with_bin(bin: String) -> (r: Self)
        ensures
            r.bin == bin,
    {
        CargoRemediator { bin }
    }
}

impl Default for CargoRemediator {
    fn default() -> (r: Self)
        ensures
            r.bin@ == CARGO_BIN_NAME@,
    {
        CargoRemediator::new()
    }
}

/// Applies Python remediation via poetry (`poetry.lock`) or uv (`uv.lock`).
#[derive(Debug, Clone)]
pub struct PythonRemediator {
    pub poetry_bin: String,
    pub uv_bin: String,
}

impl PythonRemediator {
    /// The apply strategy this remediator handles.
    pub fn strategy(&self) -> (r: ApplyStrategy)
        ensures
            r == ApplyStrategy::Python,
    {
        ApplyStrategy::Python
    }

    pub fn new() -> (r: Self)
        ensures
            r.poetry_bin@ == POETRY_BIN_NAME@,
            r.uv_bin@ == UV_BIN_NAME@,
    {
        PythonRemediator {
            poetry_bin: String::from_str(POETRY_BIN_NAME),
            uv_bin: String::from_str(UV_BIN_NAME),
        }
    }

    /// Override the poetry executable path.
    pub fn with_poetry_bin(bin: String) -> (r: Self)
        ensures
            r.poetry_bin == bin,
            r.uv_bin@ == UV_BIN_NAME@,
    {
        PythonRemediator { poetry_bin: bin, uv_bin: String::from_str(UV_BIN_NAME) }
    }

    /// Override the uv executable path.
    pub fn with_uv_bin(bin: String) -> (r: Self)
        ensures
            r.poetry_bin@ == POETRY_BIN_NAME@,
            r.uv_bin == bin,
    {
        PythonRemediator { poetry_bin: String::from_str(POETRY_BIN_NAME), uv_bin: bin }
    }
}

impl Default for PythonRemediator {
    fn default() -> (r: Self)
        ensures
            r.poetry_bin@ == POETRY_BIN_NAME@,
            r.uv_bin@ == UV_BIN_NAME@,
    {
        PythonRemediator::new()
    }
}

/// Applies Yarn remediation (`yarn upgrade` on Classic, `yarn up` on Berry).
#[derive(Debug, Clone)]
pub struct YarnRemediator {
    pub bin: String,
}

impl YarnRemediator {
    /// The apply strategy this remediator handles.
    pub fn strategy(&self) -> (r: ApplyStrategy)
        ensures
            r == ApplyStrategy::Yarn,
    {
        ApplyStrategy::Yarn
    }

    pub fn new() -> (r: Self)
        ensures
            r.bin@ == YARN_BIN_NAME@,
    {
        YarnRemediator { bin: String::from_str(YARN_BIN_NAME) }
    }

    /// Override the yarn executable path.
    pub fn with_bin(bin: String) -> (r: Self)
        ensures
            r.bin == bin,
    {
        YarnRemediator { bin }
    }
}

impl Default for YarnRemediator {
    fn default() -> (r: Self)
        ensures
            r.bin@ == YARN_BIN_NAME@,
    {
        YarnRemediator::new()
    }
}

/// Applies pnpm remediation (`pnpm update --lockfile-only`).
#[derive(Debug, Clone)]
pub struct PnpmRemediator {
    pub bin: String,
}

impl PnpmRemediator {
    /// The apply strategy this remediator handles.
    pub fn strategy(&self) -> (r: ApplyStrategy)
        ensures
            r == ApplyStrategy::Pnpm,
    {
        ApplyStrategy::Pnpm
    }

    pub fn new() -> (r: Self)
        ensures
            r.bin@ == PNPM_BIN_NAME@,
    {
        PnpmRemediator { bin: String::from_str(PNPM_BIN_NAME) }
    }

    /// Override the pnpm executable path.
    pub fn with_bin(bin: String) -> (r: Self)
        ensures
            r.bin == bin,
    {
        PnpmRemediator { bin }
    }
}

impl Default for PnpmRemediator {
    fn default() -> (r: Self)
        ensures
            r.bin@ == PNPM_BIN_NAME@,
    {
        PnpmRemediator::new()
    }
}

/// Applies bun remediation (`bun update`).
#[derive(Debug, Clone)]
pub struct BunRemediator {
    pub bin: String,
}

impl BunRemediator {
    /// The apply strategy this remediator handles.
    pub fn strategy(&self) -> (r: ApplyStrategy)
        ensures
            r == ApplyStrategy::Bun,
    {
        ApplyStrategy::Bun
    }

    pub fn new() -> (r: Self)
        ensures
            r.bin@ == BUN_BIN_NAME@,
    {
        BunRemediator { bin: String::from_str(BUN_BIN_NAME) }
    }

    /// Override the bun executable path.
    pub fn with_bin(bin: String) -> (r: Self)
        ensures
            r.bin == bin,
    {
        BunRemediator { bin }
    }
}

impl Default for BunRemediator {
    fn default() -> (r: Self)
        ensures
            r.bin@ == BUN_BIN_NAME@,
    {
        BunRemediator::new()
    }
}

} // verus!
