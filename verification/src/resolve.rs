//! Resolution results, resolver errors and the direct-only fallback rules
//! applied when transitive dependency resolution is not possible.
use vstd::prelude::*;

use crate::declarations::ParsedDependency;
use crate::model::{Package, PackageView};
use crate::text::{join_seqs, join_strings};

verus! {

/// `std::io::Error`, carried opaquely in error values.
#[verifier::external_type_specification]
#[verifier::external_body]
pub struct ExIoError(std::io::Error);

/// Shown after the manifest path and reason in direct-only warnings.
pub const DIRECT_ONLY_WARNING_REMEDIATION: &'static str =
    "Add an adjacent lock file for transitive coverage.";

/// Documentation pointer appended to every direct-only warning.
pub const DIRECT_ONLY_WARNING_DOC_HINT: &'static str = "See `man vlz` or docs/FAQ.md.";

/// Direct-only reason when `--offline` is active.
pub const DIRECT_ONLY_REASON_OFFLINE: &'static str = "offline mode";

/// Direct-only reason when `--benchmark` is active.
pub const DIRECT_ONLY_REASON_BENCHMARK: &'static str = "benchmark mode";

/// Direct-only reason when transitive resolution could not be performed.
pub const DIRECT_ONLY_REASON_UNAVAILABLE: &'static str = "transitive resolution unavailable";

/// Message of the error raised when transitive resolution is mandatory and failed.
pub const FR_022_TRANSITIVE_ERROR_MESSAGE: &'static str = "Unable to detect transitive dependencies. Try installing the package manager or generate a lock file before running vlz.";

/// Direct-only reason when `allow_direct_only_fallback` is enabled.
pub const DIRECT_ONLY_REASON_FALLBACK_ON_FAILURE: &'static str =
    "transitive resolution failed; direct-only fallback enabled";

/// Error raised while parsing a manifest.
#[derive(Debug)]
pub enum ParserError {
    Parse(String),
    /// I/O error when reading the manifest; the source is kept for verbose output.
    Io(std::io::Error),
    Other(String),
}

impl ParserError {
    /// The text the error displays.
    pub open spec fn message_spec(&self) -> Seq<char> {
        match self {
            ParserError::Parse(s) => "Parse error: "@ + s@,
            ParserError::Io(_) => "IO error reading manifest"@,
            ParserError::Other(s) => s@,
        }
    }

    /// The text the error displays.
    pub fn message(&self) -> (r: String)
        ensures
            r@ == self.message_spec(),
    {
        match self {
            ParserError::Parse(s) => {
                let mut r = String::from_str("Parse error: ");
                r.append(s.as_str());
                r
            },
            ParserError::Io(_) => String::from_str("IO error reading manifest"),
            ParserError::Other(s) => String::from_str(s.as_str()),
        }
    }
}

/// Error raised while resolving a dependency graph.
#[derive(Debug)]
pub enum ResolverError {
    Resolve(String),
    /// Transitive resolution failed after a nested resolver step.
    ResolveWithCause { message: String, cause: Box<ResolverError> },
    /// I/O or subprocess error during resolution; the source is kept.
    Io(std::io::Error),
    Other(String),
}

impl ResolverError {
    /// The text the error displays.
    pub open spec fn message_spec(&self) -> Seq<char> {
        match self {
            ResolverError::Resolve(s) => "Resolve error: "@ + s@,
            ResolverError::ResolveWithCause { message, .. } => "Resolve error: "@ + message@,
            ResolverError::Io(_) => "IO error during resolution"@,
            ResolverError::Other(s) => s@,
        }
    }

    /// The text the error displays.
    pub fn message(&self) -> (r: String)
        ensures
            r@ == self.message_spec(),
    {
        match self {
            ResolverError::Resolve(s) => {
                let mut r = String::from_str("Resolve error: ");
                r.append(s.as_str());
                r
            },
            ResolverError::ResolveWithCause { message, .. } => {
                let mut r = String::from_str("Resolve error: ");
                r.append(message.as_str());
                r
            },
            ResolverError::Io(_) => String::from_str("IO error during resolution"),
            ResolverError::Other(s) => String::from_str(s.as_str()),
        }
    }
}

/// Scan-time context passed to resolvers.
#[derive(Debug, Clone)]
pub struct ResolveContext {
    /// Do not remove the ephemeral venv after the scan.
    pub keep_ephemeral_venv: bool,
    /// Skip pip resolution entirely (`--offline` or `--benchmark` mode).
    pub skip_pip_resolution: bool,
    /// True when `--benchmark` is active.
    pub benchmark_mode: bool,
    /// Allow pip operations that may execute local project or dependency build
    /// code (secure default: false).
    pub allow_dependency_code_execution: bool,
    /// When true, transitive-resolution failures fall back to a direct-only
    /// scan with a warning instead of a hard error.
    pub allow_direct_only_fallback: bool,
    /// When non-empty, only discover/merge listed Python lock file basenames.
    pub python_lock_files: Vec<String>,
}

impl Default for ResolveContext {
    fn default() -> (r: Self)
        ensures
            !r.keep_ephemeral_venv,
            !r.skip_pip_resolution,
            !r.benchmark_mode,
            !r.allow_dependency_code_execution,
            !r.allow_direct_only_fallback,
            r.python_lock_files@.len() == 0,
    {
        ResolveContext {
            keep_ephemeral_venv: false,
            skip_pip_resolution: false,
            benchmark_mode: false,
            allow_dependency_code_execution: false,
            allow_direct_only_fallback: false,
            python_lock_files: Vec::new(),
        }
    }
}

/// Whether resolution produced a full transitive tree or direct deps only.
#[derive(Debug, Clone, Copy, PartialEq, Eq, Structural)]
pub enum ResolutionDepth {
    Transitive,
    DirectOnly,
}

impl Default for ResolutionDepth {
    fn default() -> (r: Self)
        ensures
            r == ResolutionDepth::Transitive,
    {
        ResolutionDepth::Transitive
    }
}

/// Result of dependency resolution including depth metadata.
#[derive(Debug, Clone)]
pub struct ResolveResult {
    pub packages: Vec<Package>,
    pub depth: ResolutionDepth,
    /// Set when `depth == DirectOnly` (e.g. `"offline mode"`).
    pub direct_only_reason: Option<&'static str>,
    /// When non-empty, attribution uses these paths per package instead of the
    /// discovered entry point path (e.g. adjacent lock file sources).
    pub package_source_paths: Vec<(Package, Vec<String>)>,
    /// Lock files merged during adjacent resolution; used for multi-lock warnings.
    pub resolved_lock_paths: Vec<String>,
}

/// A dependency graph: the packages a manifest names, where it lives, and the
/// declaration lines the parser saw.
#[derive(Debug, Clone)]
pub struct DependencyGraph {
    pub packages: Vec<Package>,
    /// Path to the manifest file; used by resolvers for lock file discovery.
    pub manifest_path: Option<String>,
    /// Parsed declarations (manifest and lock lines) for each package.
    pub parsed_dependencies: Vec<ParsedDependency>,
}

impl Default for DependencyGraph {
    fn default() -> (r: Self)
        ensures
            r.packages@.len() == 0,
            r.manifest_path.is_none(),
            r.parsed_dependencies@.len() == 0,
    {
        DependencyGraph { packages: Vec::new(), manifest_path: None, parsed_dependencies: Vec::new() }
    }
}

/// The values of a list of packages.
pub open spec fn package_views(s: Seq<Package>) -> Seq<PackageView> {
    s.map_values(|p: Package| p@)
}

/// A copy of a list of packages.
pub fn copy_packages(v: &[Package]) -> (r: Vec<Package>)
    ensures
        package_views(r@) == package_views(v@),
{
    let mut out: Vec<Package> = Vec::new();
    let mut i: usize = 0;
    while i < v.len()
        invariant
            i <= v.len(),
            out@.len() == i,
            forall|j: int| 0 <= j < i ==> #[trigger] out@[j]@ == v@[j]@,
        decreases v.len() - i,
    {
        out.push(v[i].duplicate());
        i = i + 1;
    }
    assert(package_views(out@) =~= package_views(v@));
    out
}

/// The error raised when mandatory transitive resolution failed.
pub fn fr022_transitive_error() -> (r: ResolverError)
    ensures
        r matches ResolverError::Resolve(m) && m@ == FR_022_TRANSITIVE_ERROR_MESSAGE@,
{
    ResolverError::Resolve(String::from_str(FR_022_TRANSITIVE_ERROR_MESSAGE))
}

/// The same error with the nested cause kept for verbose diagnostics.
pub fn fr022_transitive_error_with_cause(cause: ResolverError) -> (r: ResolverError)
    ensures
        r matches ResolverError::ResolveWithCause { message, cause: c } && message@
            == FR_022_TRANSITIVE_ERROR_MESSAGE@ && *c == cause,
{
    ResolverError::ResolveWithCause {
        message: String::from_str(FR_022_TRANSITIVE_ERROR_MESSAGE),
        cause: Box::new(cause),
    }
}

/// A direct-only result for `packages`, with its reason.
pub fn direct_only_result(packages: Vec<Package>, reason: &'static str) -> (r: ResolveResult)
    ensures
        r.packages@ == packages@,
        r.depth == ResolutionDepth::DirectOnly,
        r.direct_only_reason == Some(reason),
        r.package_source_paths@.len() == 0,
        r.resolved_lock_paths@.len() == 0,
{
    ResolveResult {
        packages,
        depth: ResolutionDepth::DirectOnly,
        direct_only_reason: Some(reason),
        package_source_paths: Vec::new(),
        resolved_lock_paths: Vec::new(),
    }
}

/// Fails unless the context allows a direct-only scan of a non-empty graph;
/// the failure keeps `cause` when one is given.
pub fn require_transitive_or_fallback(
    graph: &DependencyGraph,
    ctx: &ResolveContext,
    cause: Option<ResolverError>,
) -> (r: Result<ResolveResult, ResolverError>)
    ensures
        ctx.allow_direct_only_fallback && graph.packages@.len() > 0 ==> (r matches Ok(res)
            && package_views(res.packages@) == package_views(graph.packages@) && res.depth
            == ResolutionDepth::DirectOnly && res.direct_only_reason == Some(
            DIRECT_ONLY_REASON_FALLBACK_ON_FAILURE,
        ) && res.package_source_paths@.len() == 0 && res.resolved_lock_paths@.len() == 0),
        !(ctx.allow_direct_only_fallback && graph.packages@.len() > 0) ==> match cause {
            Some(c) => r matches Err(ResolverError::ResolveWithCause { message, cause: b })
                && message@ == FR_022_TRANSITIVE_ERROR_MESSAGE@ && *b == c,
            None => r matches Err(ResolverError::Resolve(m)) && m@
                == FR_022_TRANSITIVE_ERROR_MESSAGE@,
        },
{
    if ctx.allow_direct_only_fallback && graph.packages.len() > 0 {
        Ok(direct_only_result(copy_packages(&graph.packages), DIRECT_ONLY_REASON_FALLBACK_ON_FAILURE))
    } else {
        match cause {
            Some(c) => Err(fr022_transitive_error_with_cause(c)),
            None => Err(fr022_transitive_error()),
        }
    }
}

/// The direct-only reason when `--offline` or `--benchmark` skips
/// package-manager resolution, or `None` for a normal scan.
pub fn skip_package_manager_reason(ctx: &ResolveContext) -> (r: Option<&'static str>)
    ensures
        r == if !ctx.skip_pip_resolution {
            None
        } else if ctx.benchmark_mode {
            Some(DIRECT_ONLY_REASON_BENCHMARK)
        } else {
            Some(DIRECT_ONLY_REASON_OFFLINE)
        },
{
    if !ctx.skip_pip_resolution {
        return None;
    }
    if ctx.benchmark_mode {
        Some(DIRECT_ONLY_REASON_BENCHMARK)
    } else {
        Some(DIRECT_ONLY_REASON_OFFLINE)
    }
}

/// Text of a direct-only warning.
pub open spec fn direct_only_warning_text(manifest: Seq<char>, reason: Seq<char>) -> Seq<char> {
    "vlz warning: Only direct dependencies were scanned for "@ + manifest + " ("@ + reason
        + "). "@ + DIRECT_ONLY_WARNING_REMEDIATION@ + " "@ + DIRECT_ONLY_WARNING_DOC_HINT@
}

/// Format a direct-only warning for stderr.
pub fn format_direct_only_warning(manifest_display: &str, reason: &str) -> (r: String)
    ensures
        r@ == direct_only_warning_text(manifest_display@, reason@),
{
    let mut r = String::from_str("vlz warning: Only direct dependencies were scanned for ");
    r.append(manifest_display);
    r.append(" (");
    r.append(reason);
    r.append("). ");
    r.append(DIRECT_ONLY_WARNING_REMEDIATION);
    r.append(" ");
    r.append(DIRECT_ONLY_WARNING_DOC_HINT);
    r
}

/// Text of the warning shown when several lock files were merged.
pub open spec fn multi_lock_warning_text(dir: Seq<char>, names: Seq<Seq<char>>) -> Seq<char> {
    "vlz warning: Multiple lock files in "@ + dir
        + " were scanned and packages merged: "@ + join_seqs(names, ", "@)
        + ". Keep one canonical lock file for clarity. "@ + DIRECT_ONLY_WARNING_DOC_HINT@
}

/// Format the multi-lock diagnostic warning.
pub fn format_multi_lock_warning(dir_display: &str, lock_names: &[String]) -> (r: String)
    ensures
        r@ == multi_lock_warning_text(dir_display@, lock_names@.map_values(|s: String| s@)),
{
    let joined = join_strings(lock_names, ", ");
    let mut r = String::from_str("vlz warning: Multiple lock files in ");
    r.append(dir_display);
    r.append(" were scanned and packages merged: ");
    r.append(joined.as_str());
    r.append(". Keep one canonical lock file for clarity. ");
    r.append(DIRECT_ONLY_WARNING_DOC_HINT);
    r
}

} // verus!
