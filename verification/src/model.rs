//! Core data model shared by every part of the scanner: packages, CVE
//! records, declaration locations, severities and the ignore-database entry.
use vstd::prelude::*;

use crate::order::{
    compare_chars, lemma_seq_lt_asymmetric, lemma_seq_lt_irreflexive, lemma_seq_lt_total,
    lemma_seq_lt_transitive, seq_lt, Order3,
};
use crate::text::{chars_of, copy_str, str_eq, string_of, trim, trim_vec, upper_seq, upper_vec};

verus! {

/// OSV ecosystem label for PyPI.
pub const PYPI_ECOSYSTEM: &'static str = "PyPI";

/// OSV ecosystem label for crates.io.
pub const CRATES_IO_ECOSYSTEM: &'static str = "crates.io";

/// OSV ecosystem label for Go modules.
pub const GO_ECOSYSTEM: &'static str = "Go";

/// OSV ecosystem label for npm.
pub const NPM_ECOSYSTEM: &'static str = "npm";

/// OSV ecosystem label for Maven.
pub const MAVEN_ECOSYSTEM: &'static str = "Maven";

/// OSV ecosystem label for RubyGems.
pub const RUBYGEMS_ECOSYSTEM: &'static str = "RubyGems";

/// Maximum declaration locations reported per finding.
pub const MAX_DECLARATIONS_PER_FINDING: usize = 10;

/// The characters of an optional string.
pub open spec fn opt_seq(o: Option<String>) -> Option<Seq<char>> {
    match o {
        Some(s) => Some(s@),
        None => None,
    }
}

/// Copy of an optional string.
pub fn copy_opt(o: &Option<String>) -> (r: Option<String>)
    ensures
        opt_seq(r) == opt_seq(*o),
{
    match o {
        Some(s) => Some(copy_str(s.as_str())),
        None => None,
    }
}

/// Equality of optional strings by content.
pub fn opt_eq(a: &Option<String>, b: &Option<String>) -> (r: bool)
    ensures
        r == (opt_seq(*a) == opt_seq(*b)),
{
    match (a, b) {
        (Some(x), Some(y)) => str_eq(x.as_str(), y.as_str()),
        (None, None) => true,
        _ => false,
    }
}

/// A package (name, version, optional OSV ecosystem).
#[derive(Debug, Clone, PartialEq, Eq, Hash, Default)]
pub struct Package {
    pub name: String,
    pub version: String,
    /// Ecosystem for CVE lookup (e.g. "PyPI", "crates.io"). When None,
    /// providers default to PyPI.
    pub ecosystem: Option<String>,
}

/// Mathematical value of a [`Package`].
pub struct PackageView {
    pub name: Seq<char>,
    pub version: Seq<char>,
    pub ecosystem: Option<Seq<char>>,
}

impl View for Package {
    type V = PackageView;

    open spec fn view(&self) -> PackageView {
        PackageView { name: self.name@, version: self.version@, ecosystem: opt_seq(self.ecosystem) }
    }
}

impl DeepView for Package {
    type V = PackageView;

    open spec fn deep_view(&self) -> PackageView {
        self@
    }
}

impl Package {
    /// A copy of this package.
    pub fn duplicate(&self) -> (r: Package)
        ensures
            r@ == self@,
    {
        Package {
            name: copy_str(self.name.as_str()),
            version: copy_str(self.version.as_str()),
            ecosystem: copy_opt(&self.ecosystem),
        }
    }

    /// Equality of packages by content.
    pub fn same_as(&self, other: &Package) -> (r: bool)
        ensures
            r == (self@ == other@),
    {
        str_eq(self.name.as_str(), other.name.as_str()) && str_eq(
            self.version.as_str(),
            other.version.as_str(),
        ) && opt_eq(&self.ecosystem, &other.ecosystem)
    }
}

/// CVSS version used for the primary score.
#[derive(Debug, Clone, Copy, PartialEq, Eq, Hash, Structural)]
pub enum CvssVersion {
    V2,
    V3,
    V4,
}

/// Severity label for display in reports.
#[derive(Debug, Clone, Copy, PartialEq, Eq, Hash, Structural)]
pub enum Severity {
    Critical,
    High,
    Medium,
    Low,
    Unknown,
}

/// Display label of a severity.
pub open spec fn severity_label(s: Severity) -> Seq<char> {
    match s {
        Severity::Critical => "CRITICAL"@,
        Severity::High => "HIGH"@,
        Severity::Medium => "MEDIUM"@,
        Severity::Low => "LOW"@,
        Severity::Unknown => "UNKNOWN"@,
    }
}

impl Severity {
    /// Display label for reports.
    pub fn as_str(self) -> (r: &'static str)
        ensures
            r@ == severity_label(self),
    {
        match self {
            Severity::Critical => "CRITICAL",
            Severity::High => "HIGH",
            Severity::Medium => "MEDIUM",
            Severity::Low => "LOW",
            Severity::Unknown => "UNKNOWN",
        }
    }
}

/// Simple statistics of a CVE cache backend.
#[derive(Debug)]
pub struct DatabaseStats {
    pub cached_entries: usize,
    pub hits: usize,
    pub misses: usize,
    /// TTL in seconds used by this backend (if reported).
    pub cache_ttl_secs: Option<u64>,
}

impl Default for DatabaseStats {
    fn default() -> (r: Self)
        ensures
            r.cached_entries == 0,
            r.hits == 0,
            r.misses == 0,
            r.cache_ttl_secs is None,
    {
        DatabaseStats { cached_entries: 0, hits: 0, misses: 0, cache_ttl_secs: None }
    }
}

/// Selector for which cache entries to update TTL.
#[derive(Debug, Clone, PartialEq, Eq)]
pub enum TtlSelector {
    /// Single entry by package key (e.g. "name::version").
    One(String),
    /// Multiple entries by explicit keys.
    Multiple(Vec<String>),
    /// All entries.
    All,
}

/// Minimal cache entry for purge: only the expiry matters.
#[derive(Debug, Clone)]
pub struct PurgeEntry {
    pub expires_at_secs: u64,
}

/// Where a package is declared: a manifest (direct) or a lock file.
#[derive(Debug, Clone, Copy, PartialEq, Eq, Hash, Structural)]
pub enum DeclarationKind {
    Manifest,
    Lockfile,
}

/// Rank of a declaration kind in the declaration order.
pub open spec fn kind_rank(k: DeclarationKind) -> int {
    match k {
        DeclarationKind::Manifest => 0,
        DeclarationKind::Lockfile => 1,
    }
}

/// A declaration line of a package in a manifest or lock file.
#[derive(Debug, Clone, PartialEq, Eq, Hash)]
pub struct PackageDeclarationLocation {
    pub path: String,
    pub start_line: u32,
    pub end_line: Option<u32>,
    pub kind: DeclarationKind,
}

/// Mathematical value of a [`PackageDeclarationLocation`].
pub struct DeclView {
    pub path: Seq<char>,
    pub start_line: u32,
    pub end_line: Option<u32>,
    pub kind: DeclarationKind,
}

impl View for PackageDeclarationLocation {
    type V = DeclView;

    open spec fn view(&self) -> DeclView {
        DeclView {
            path: self.path@,
            start_line: self.start_line,
            end_line: self.end_line,
            kind: self.kind,
        }
    }
}

impl DeepView for PackageDeclarationLocation {
    type V = DeclView;

    open spec fn deep_view(&self) -> DeclView {
        self@
    }
}

/// A declaration location is well formed: a non-empty path, a 1-based start
/// line and an end line (if any) not before the start.
pub open spec fn valid_declaration(path: Seq<char>, start_line: u32, end_line: Option<u32>) -> bool {
    &&& path.len() > 0
    &&& start_line >= 1
    &&& end_line matches Some(e) ==> e >= start_line
}

impl PackageDeclarationLocation {
    /// Build a declaration location; `None` when it is not well formed.
    pub fn new(path: &str, start_line: u32, end_line: Option<u32>, kind: DeclarationKind) -> (r:
        Option<PackageDeclarationLocation>)
        ensures
            valid_declaration(path@, start_line, end_line) <==> r is Some,
            r matches Some(d) ==> d@ == (DeclView {
                path: path@,
                start_line,
                end_line,
                kind,
            }),
    {
        let n = path.unicode_len();
        if n == 0 || start_line == 0 {
            return None;
        }
        match end_line {
            Some(e) => {
                if e < start_line {
                    return None;
                }
            },
            None => {},
        }
        Some(PackageDeclarationLocation { path: copy_str(path), start_line, end_line, kind })
    }

    /// A copy of this location.
    pub fn duplicate(&self) -> (r: PackageDeclarationLocation)
        ensures
            r@ == self@,
    {
        PackageDeclarationLocation {
            path: copy_str(self.path.as_str()),
            start_line: self.start_line,
            end_line: self.end_line,
            kind: self.kind,
        }
    }
}

/// Order of optional end lines: `None` first.
pub open spec fn end_lt(a: Option<u32>, b: Option<u32>) -> bool {
    match (a, b) {
        (None, Some(_)) => true,
        (Some(x), Some(y)) => x < y,
        _ => false,
    }
}

/// Declaration order: kind (manifest first), then path, start line, end line.
pub open spec fn decl_lt(a: DeclView, b: DeclView) -> bool {
    ||| kind_rank(a.kind) < kind_rank(b.kind)
    ||| (kind_rank(a.kind) == kind_rank(b.kind) && seq_lt(a.path, b.path))
    ||| (kind_rank(a.kind) == kind_rank(b.kind) && a.path == b.path && a.start_line
        < b.start_line)
    ||| (kind_rank(a.kind) == kind_rank(b.kind) && a.path == b.path && a.start_line
        == b.start_line && end_lt(a.end_line, b.end_line))
}

pub proof fn lemma_decl_lt_order(a: DeclView, b: DeclView, c: DeclView)
    ensures
        !decl_lt(a, a),
        decl_lt(a, b) && decl_lt(b, c) ==> decl_lt(a, c),
        a == b || decl_lt(a, b) || decl_lt(b, a),
        decl_lt(a, b) ==> !decl_lt(b, a),
{
    lemma_seq_lt_irreflexive(a.path);
    lemma_seq_lt_total(a.path, b.path);
    if seq_lt(a.path, b.path) {
        lemma_seq_lt_asymmetric(a.path, b.path);
    }
    if seq_lt(b.path, a.path) {
        lemma_seq_lt_asymmetric(b.path, a.path);
    }
    if seq_lt(a.path, b.path) && seq_lt(b.path, c.path) {
        lemma_seq_lt_transitive(a.path, b.path, c.path);
    }
    if a.kind == b.kind && a.path == b.path && a.start_line == b.start_line && a.end_line
        == b.end_line {
        assert(a == b);
    }
}

/// Strictly increasing in declaration order (hence free of duplicates).
pub open spec fn decls_sorted(s: Seq<PackageDeclarationLocation>) -> bool {
    forall|i: int, j: int| 0 <= i < j < s.len() ==> decl_lt(s[i]@, s[j]@)
}

/// `x` is the value of some element of `s`.
pub open spec fn decls_have(s: Seq<PackageDeclarationLocation>, x: DeclView) -> bool {
    exists|i: int| 0 <= i < s.len() && s[i]@ == x
}

/// Three-way comparison of two declarations in declaration order.
pub fn compare_decl(a: &PackageDeclarationLocation, b: &PackageDeclarationLocation) -> (r: Order3)
    ensures
        r == Order3::Less <==> decl_lt(a@, b@),
        r == Order3::Equal <==> a@ == b@,
        r == Order3::Greater <==> decl_lt(b@, a@),
{
    proof {
        lemma_decl_lt_order(a@, b@, a@);
        lemma_decl_lt_order(b@, a@, b@);
    }
    let ka: u32 = match a.kind {
        DeclarationKind::Manifest => 0,
        DeclarationKind::Lockfile => 1,
    };
    let kb: u32 = match b.kind {
        DeclarationKind::Manifest => 0,
        DeclarationKind::Lockfile => 1,
    };
    if ka < kb {
        return Order3::Less;
    }
    if ka > kb {
        return Order3::Greater;
    }
    let pa = chars_of(a.path.as_str());
    let pb = chars_of(b.path.as_str());
    match compare_chars(pa.as_slice(), pb.as_slice()) {
        Order3::Less => {
            return Order3::Less;
        },
        Order3::Greater => {
            return Order3::Greater;
        },
        Order3::Equal => {},
    }
    if a.start_line < b.start_line {
        return Order3::Less;
    }
    if a.start_line > b.start_line {
        return Order3::Greater;
    }
    match (a.end_line, b.end_line) {
        (None, None) => Order3::Equal,
        (None, Some(_)) => Order3::Less,
        (Some(_), None) => Order3::Greater,
        (Some(x), Some(y)) => {
            if x < y {
                Order3::Less
            } else if x > y {
                Order3::Greater
            } else {
                Order3::Equal
            }
        },
    }
}

/// Insert `x` into a sorted, duplicate-free vector unless an equal value is
/// already present.
fn insert_decl_sorted(v: &mut Vec<PackageDeclarationLocation>, x: PackageDeclarationLocation)
    requires
        decls_sorted(old(v)@),
    ensures
        decls_sorted(final(v)@),
        forall|y: DeclView| decls_have(final(v)@, y) <==> (decls_have(old(v)@, y) || y == x@),
{
    let mut p: usize = 0;
    while p < v.len() && compare_decl(&v[p], &x) == Order3::Less
        invariant
            p <= v.len(),
            decls_sorted(v@),
            forall|i: int| 0 <= i < p ==> decl_lt(v@[i]@, x@),
        decreases v.len() - p,
    {
        p = p + 1;
    }
    if p < v.len() && compare_decl(&v[p], &x) == Order3::Equal {
        return;
    }
    let ghost before = v@;
    proof {
        if p < v.len() {
            lemma_decl_lt_order(x@, v@[p as int]@, x@);
            assert forall|j: int| p <= j < v.len() implies decl_lt(x@, v@[j]@) by {
                if j > p {
                    lemma_decl_lt_order(x@, v@[p as int]@, v@[j]@);
                }
            }
        }
    }
    v.insert(p, x);
    proof {
        assert forall|i: int, j: int| 0 <= i < j < v@.len() implies decl_lt(v@[i]@, v@[j]@) by {
            if j < p {
                assert(v@[i] == before[i] && v@[j] == before[j]);
            } else if j == p {
                assert(v@[i] == before[i]);
            } else if i < p {
                assert(v@[i] == before[i] && v@[j] == before[j - 1]);
                lemma_decl_lt_order(v@[i]@, x@, v@[j]@);
            } else if i == p {
                assert(v@[j] == before[j - 1]);
            } else {
                assert(v@[i] == before[i - 1] && v@[j] == before[j - 1]);
            }
        }
        assert forall|y: DeclView| decls_have(v@, y) <==> (decls_have(before, y) || y == x@) by {
            if decls_have(v@, y) {
                let i = choose|i: int| 0 <= i < v@.len() && v@[i]@ == y;
                if i < p {
                    assert(v@[i] == before[i]);
                } else if i > p {
                    assert(v@[i] == before[i - 1]);
                }
            }
            if decls_have(before, y) {
                let i = choose|i: int| 0 <= i < before.len() && before[i]@ == y;
                if i < p {
                    assert(v@[i] == before[i]);
                } else {
                    assert(v@[i + 1] == before[i]);
                }
            }
            if y == x@ {
                assert(v@[p as int] == x);
            }
        }
    }
}

/// Sort declarations (manifest first, then path, start line, end line) and
/// drop duplicates.
pub fn dedupe_sort_declarations(decls: &mut Vec<PackageDeclarationLocation>)
    ensures
        decls_sorted(final(decls)@),
        forall|y: DeclView| decls_have(final(decls)@, y) <==> decls_have(old(decls)@, y),
{
    let ghost orig = decls@;
    let mut out: Vec<PackageDeclarationLocation> = Vec::new();
    let mut i: usize = 0;
    while i < decls.len()
        invariant
            decls@ == orig,
            i <= decls.len(),
            decls_sorted(out@),
            forall|y: DeclView|
                decls_have(out@, y) <==> decls_have(orig.take(i as int), y),
        decreases decls.len() - i,
    {
        let d = decls[i].duplicate();
        insert_decl_sorted(&mut out, d);
        proof {
            let t0 = orig.take(i as int);
            let t1 = orig.take(i + 1);
            assert forall|y: DeclView|
                decls_have(t1, y) <==> (decls_have(t0, y) || y == orig[i as int]@) by {
                if decls_have(t1, y) {
                    let k = choose|k: int| 0 <= k < t1.len() && #[trigger] t1[k]@ == y;
                    if k < i {
                        assert(t0[k] == t1[k]);
                    }
                }
                if decls_have(t0, y) {
                    let k = choose|k: int| 0 <= k < t0.len() && #[trigger] t0[k]@ == y;
                    assert(t0[k] == t1[k]);
                }
                if y == orig[i as int]@ {
                    assert(t1[i as int] == orig[i as int]);
                }
            }
        }
        i = i + 1;
    }
    assert(orig.take(orig.len() as int) =~= orig);
    *decls = out;
}

/// First-party evidence location attached to a CVE.
#[derive(Debug, Clone, PartialEq, Eq)]
pub struct CveEvidenceLocation {
    pub path: String,
    pub start_line: u32,
    pub end_line: Option<u32>,
    pub symbol: String,
}

/// OSV affected-range type.
#[derive(Debug, Clone, Copy, PartialEq, Eq, Structural)]
pub enum AffectedRangeType {
    Ecosystem,
    Semver,
    Git,
}

/// One OSV range event.
#[derive(Debug, Clone, PartialEq, Eq, Default)]
pub struct AffectedEvent {
    pub introduced: Option<String>,
    pub fixed: Option<String>,
    pub last_affected: Option<String>,
}

/// One OSV affected range.
#[derive(Debug, Clone, PartialEq, Eq)]
pub struct AffectedRange {
    pub range_type: AffectedRangeType,
    pub events: Vec<AffectedEvent>,
    pub package_name: Option<String>,
    pub ecosystem: Option<String>,
}

/// A CVE affecting a package, with what reachability analysis attached.
///
/// The primary CVSS score is a float and is held by the application layer;
/// the record here carries everything the library logic reads.
#[derive(Debug, Clone, PartialEq)]
pub struct CveRecord {
    pub id: String,
    /// CVSS version of the primary score.
    pub cvss_version: Option<CvssVersion>,
    pub description: String,
    /// Filled by reachability analysis.
    pub reachable: Option<bool>,
    pub advisory_symbols: Vec<String>,
    pub evidence: Vec<CveEvidenceLocation>,
    pub symbol_usage: Option<String>,
    pub affected_ranges: Vec<AffectedRange>,
}

/// Stored row for a CVE marked as false positive.
#[derive(Debug, Clone, PartialEq, Eq)]
pub struct FpEntry {
    pub comment: String,
    pub timestamp_secs: u64,
    pub user: Option<String>,
    pub host: Option<String>,
    pub project_id: Option<String>,
    /// CISA justification recorded with the mark, if any.
    pub justification: Option<String>,
    /// VEX status recorded with the mark, if any.
    pub status: Option<String>,
    /// Free-form VEX detail recorded with the mark, if any.
    pub detail: Option<String>,
}

/// Mathematical value of an [`FpEntry`].
pub struct FpView {
    pub comment: Seq<char>,
    pub timestamp_secs: u64,
    pub user: Option<Seq<char>>,
    pub host: Option<Seq<char>>,
    pub project_id: Option<Seq<char>>,
    pub justification: Option<Seq<char>>,
    pub status: Option<Seq<char>>,
    pub detail: Option<Seq<char>>,
}

impl View for FpEntry {
    type V = FpView;

    open spec fn view(&self) -> FpView {
        FpView {
            comment: self.comment@,
            timestamp_secs: self.timestamp_secs,
            user: opt_seq(self.user),
            host: opt_seq(self.host),
            project_id: opt_seq(self.project_id),
            justification: opt_seq(self.justification),
            status: opt_seq(self.status),
            detail: opt_seq(self.detail),
        }
    }
}

impl FpEntry {
    /// A copy of this mark.
    pub fn duplicate(&self) -> (r: FpEntry)
        ensures
            r@ == self@,
    {
        FpEntry {
            comment: copy_str(self.comment.as_str()),
            timestamp_secs: self.timestamp_secs,
            user: copy_opt(&self.user),
            host: copy_opt(&self.host),
            project_id: copy_opt(&self.project_id),
            justification: copy_opt(&self.justification),
            status: copy_opt(&self.status),
            detail: copy_opt(&self.detail),
        }
    }
}

/// Canonical form of a vulnerability id: trimmed, ASCII upper case.
pub open spec fn normalized_vuln_id(id: Seq<char>) -> Seq<char> {
    upper_seq(trim(id))
}

/// Normalize a vulnerability id for suppression matching.
pub fn normalize_vuln_id(id: &str) -> (r: String)
    ensures
        r@ == normalized_vuln_id(id@),
{
    let v = chars_of(id);
    let t = trim_vec(v.as_slice());
    let u = upper_vec(t.as_slice());
    string_of(u.as_slice())
}

} // verus!
