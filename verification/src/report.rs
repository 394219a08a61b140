//! Report data: findings, per-manifest coverage, the messages shown when
//! nothing was found, and the small encoders the report formats share.
use vstd::prelude::*;

use crate::model::{CveRecord, Package, PackageDeclarationLocation, Severity};
use crate::remediate::UpgradePlan;
use crate::text::{join_seqs, join_strings, push_char, split_on, split_vec, string_of};

verus! {

/// Project repository URL.
pub const VLZ_REPOSITORY_URL: &'static str = "https://github.com/verilyze/verilyze";

/// JSON Schema `$id` for JSON reports.
pub const REPORT_JSON_SCHEMA_ID: &'static str =
    "https://github.com/verilyze/verilyze/schemas/v1/report.json";

/// Message when the scan completed with no CVE findings.
pub const NO_VULNERABILITIES_FOUND_MESSAGE: &'static str = "No vulnerabilities found.";

/// Message when findings are empty but analysis did not complete.
pub const SCAN_INCOMPLETE_MESSAGE: &'static str =
    "Scan incomplete; see manifest coverage and stderr for details.";

/// Message when findings are empty but some manifests were direct-only.
pub const DEGRADED_COVERAGE_NO_VULNERABILITIES_MESSAGE: &'static str = "No vulnerabilities found in scanned packages; see manifest coverage for incomplete resolution.";

/// A single finding: a vulnerable package with its manifest paths, its
/// declarations, its upgrade plan and its CVEs (each with a severity).
#[derive(Debug, Clone)]
pub struct Finding {
    pub package: Package,
    /// Manifest file paths that introduce this package (sorted, deduplicated).
    pub manifest_paths: Vec<String>,
    /// Declaration line locations (sorted, deduplicated).
    pub declarations: Vec<PackageDeclarationLocation>,
    pub upgrade_plan: UpgradePlan,
    pub cves: Vec<(CveRecord, Severity)>,
}

/// Manifest scan outcome.
#[derive(Debug, Clone, Copy, PartialEq, Eq, Structural)]
pub enum ManifestScanStatus {
    ScannedTransitive,
    ScannedDirectOnly,
    FailedParse,
    FailedResolution,
}

/// Status string for `scanned_transitive`.
pub const MANIFEST_STATUS_SCANNED_TRANSITIVE: &'static str = "scanned_transitive";

/// Status string for `scanned_direct_only`.
pub const MANIFEST_STATUS_SCANNED_DIRECT_ONLY: &'static str = "scanned_direct_only";

/// Status string for `failed_parse`.
pub const MANIFEST_STATUS_FAILED_PARSE: &'static str = "failed_parse";

/// Status string for `failed_resolution`.
pub const MANIFEST_STATUS_FAILED_RESOLUTION: &'static str = "failed_resolution";

impl ManifestScanStatus {
    /// Stable snake_case label for reports and JSON.
    pub fn as_str(self) -> (r: &'static str)
        ensures
            r == match self {
                ManifestScanStatus::ScannedTransitive => MANIFEST_STATUS_SCANNED_TRANSITIVE,
                ManifestScanStatus::ScannedDirectOnly => MANIFEST_STATUS_SCANNED_DIRECT_ONLY,
                ManifestScanStatus::FailedParse => MANIFEST_STATUS_FAILED_PARSE,
                ManifestScanStatus::FailedResolution => MANIFEST_STATUS_FAILED_RESOLUTION,
            },
    {
        match self {
            ManifestScanStatus::ScannedTransitive => MANIFEST_STATUS_SCANNED_TRANSITIVE,
            ManifestScanStatus::ScannedDirectOnly => MANIFEST_STATUS_SCANNED_DIRECT_ONLY,
            ManifestScanStatus::FailedParse => MANIFEST_STATUS_FAILED_PARSE,
            ManifestScanStatus::FailedResolution => MANIFEST_STATUS_FAILED_RESOLUTION,
        }
    }

    /// True when this status makes the scan fail (parse or resolution failure).
    pub fn is_blocking(self) -> (r: bool)
        ensures
            r == (self == ManifestScanStatus::FailedParse || self
                == ManifestScanStatus::FailedResolution),
    {
        match self {
            ManifestScanStatus::FailedParse | ManifestScanStatus::FailedResolution => true,
            _ => false,
        }
    }
}

/// Per-manifest scan coverage entry.
#[derive(Debug, Clone)]
pub struct ManifestCoverageEntry {
    pub path: String,
    pub language: String,
    pub status: ManifestScanStatus,
    pub direct_only_reason: Option<String>,
    pub error: Option<String>,
}

/// Some entry has a status other than `want`... or equal to it.
pub open spec fn some_status(coverage: Seq<ManifestCoverageEntry>, p: spec_fn(ManifestScanStatus) -> bool) -> bool {
    exists|i: int| 0 <= i < coverage.len() && p(#[trigger] coverage[i].status)
}

/// True when the plain/HTML manifest coverage section should be shown: some
/// manifest was not fully scanned.
pub fn manifest_coverage_needs_section(coverage: &[ManifestCoverageEntry]) -> (r: bool)
    ensures
        r == some_status(coverage@, |s: ManifestScanStatus| s != ManifestScanStatus::ScannedTransitive),
{
    let mut i: usize = 0;
    while i < coverage.len()
        invariant
            i <= coverage.len(),
            forall|k: int| 0 <= k < i ==> #[trigger] coverage@[k].status == ManifestScanStatus::ScannedTransitive,
        decreases coverage.len() - i,
    {
        if coverage[i].status != ManifestScanStatus::ScannedTransitive {
            assert((|s: ManifestScanStatus| s != ManifestScanStatus::ScannedTransitive)(coverage@[i as int].status));
            return true;
        }
        i = i + 1;
    }
    false
}

/// Data handed to a reporter; each CVE has a pre-resolved severity.
pub struct ReportData {
    pub findings: Vec<Finding>,
    /// All resolved packages (for SBOM formats).
    pub all_packages: Option<Vec<Package>>,
    /// Project id for the audit trail, when the scan was given one.
    pub project_id: Option<String>,
    /// Scan root; paths are shown relative to it when possible.
    pub root_path: Option<String>,
    /// Per-manifest scan status; empty when no manifests were discovered.
    pub manifest_coverage: Vec<ManifestCoverageEntry>,
    /// True when `--offline` blocked a required CVE lookup.
    pub offline_cache_miss: bool,
    /// True when the CVE provider fetch failed after retries.
    pub provider_fetch_failed: bool,
}

/// The scan did not fully complete.
pub open spec fn analysis_incomplete(d: ReportData) -> bool {
    d.offline_cache_miss || d.provider_fetch_failed || some_status(
        d.manifest_coverage@,
        |s: ManifestScanStatus| s == ManifestScanStatus::FailedParse || s
            == ManifestScanStatus::FailedResolution,
    )
}

/// Some manifest was scanned with direct dependencies only.
pub open spec fn degraded_coverage(d: ReportData) -> bool {
    some_status(d.manifest_coverage@, |s: ManifestScanStatus| s == ManifestScanStatus::ScannedDirectOnly)
}

impl ReportData {
    /// True when the scan did not fully complete.
    pub fn is_analysis_incomplete(&self) -> (r: bool)
        ensures
            r == analysis_incomplete(*self),
    {
        if self.offline_cache_miss || self.provider_fetch_failed {
            return true;
        }
        let mut i: usize = 0;
        while i < self.manifest_coverage.len()
            invariant
                i <= self.manifest_coverage.len(),
                forall|k: int|
                    0 <= k < i ==> !(#[trigger] self.manifest_coverage@[k].status
                        == ManifestScanStatus::FailedParse || self.manifest_coverage@[k].status
                        == ManifestScanStatus::FailedResolution),
            decreases self.manifest_coverage.len() - i,
        {
            if self.manifest_coverage[i].status.is_blocking() {
                let ghost st = self.manifest_coverage@[i as int].status;
                assert((|s: ManifestScanStatus| s == ManifestScanStatus::FailedParse || s
                    == ManifestScanStatus::FailedResolution)(st));
                return true;
            }
            i = i + 1;
        }
        false
    }

    /// True when any manifest was scanned with direct dependencies only.
    pub fn has_degraded_coverage(&self) -> (r: bool)
        ensures
            r == degraded_coverage(*self),
    {
        let mut i: usize = 0;
        while i < self.manifest_coverage.len()
            invariant
                i <= self.manifest_coverage.len(),
                forall|k: int|
                    0 <= k < i ==> #[trigger] self.manifest_coverage@[k].status
                        != ManifestScanStatus::ScannedDirectOnly,
            decreases self.manifest_coverage.len() - i,
        {
            if self.manifest_coverage[i].status == ManifestScanStatus::ScannedDirectOnly {
                let ghost st = self.manifest_coverage@[i as int].status;
                assert((|s: ManifestScanStatus| s == ManifestScanStatus::ScannedDirectOnly)(st));
                return true;
            }
            i = i + 1;
        }
        false
    }

    /// Message for empty findings in plain and HTML reports.
    pub fn empty_findings_message(&self) -> (r: &'static str)
        ensures
            r == if analysis_incomplete(*self) {
                SCAN_INCOMPLETE_MESSAGE
            } else if degraded_coverage(*self) {
                DEGRADED_COVERAGE_NO_VULNERABILITIES_MESSAGE
            } else {
                NO_VULNERABILITIES_FOUND_MESSAGE
            },
    {
        if self.is_analysis_incomplete() {
            SCAN_INCOMPLETE_MESSAGE
        } else if self.has_degraded_coverage() {
            DEGRADED_COVERAGE_NO_VULNERABILITIES_MESSAGE
        } else {
            NO_VULNERABILITIES_FOUND_MESSAGE
        }
    }
}

/// Reporter printing a plain-text table.
#[derive(Debug)]
pub struct DefaultReporter;

impl DefaultReporter {
    pub fn new() -> Self {
        DefaultReporter
    }
}

/// Reporter writing findings as JSON.
#[derive(Debug)]
pub struct JsonReporter;

impl JsonReporter {
    pub fn new() -> Self {
        JsonReporter
    }
}

/// Reporter writing a minimal HTML table.
#[derive(Debug)]
pub struct HtmlReporter;

impl HtmlReporter {
    pub fn new() -> Self {
        HtmlReporter
    }
}

/// Reporter writing SARIF 2.1.0 JSON.
#[derive(Debug)]
pub struct SarifReporter;

impl SarifReporter {
    pub fn new() -> Self {
        SarifReporter
    }
}

/// Reporter writing a CycloneDX 1.6 BOM.
#[derive(Debug)]
pub struct CycloneDxReporter;

impl CycloneDxReporter {
    pub fn new() -> Self {
        CycloneDxReporter
    }
}

/// Reporter writing an SPDX 3.0 document.
#[derive(Debug)]
pub struct SpdxReporter;

impl SpdxReporter {
    pub fn new() -> Self {
        SpdxReporter
    }
}

/// SARIF `level` of a severity.
pub open spec fn sarif_level(s: Severity) -> Seq<char> {
    match s {
        Severity::Critical | Severity::High => "error"@,
        Severity::Medium | Severity::Low => "warning"@,
        Severity::Unknown => "note"@,
    }
}

/// SARIF `level` of a severity: errors for critical and high, warnings for
/// medium and low, notes otherwise.
pub fn severity_level_sarif(s: &Severity) -> (r: &'static str)
    ensures
        r@ == sarif_level(*s),
{
    match s {
        Severity::Critical => "error",
        Severity::High => "error",
        Severity::Medium => "warning",
        Severity::Low => "warning",
        Severity::Unknown => "note",
    }
}

/// UTF-8 encoding of a character.
pub open spec fn utf8_bytes(c: char) -> Seq<u8> {
    let n = c as u32;
    if n < 0x80 {
        seq![n as u8]
    } else if n < 0x800 {
        seq![(0xC0 + n / 64) as u8, (0x80 + n % 64) as u8]
    } else if n < 0x10000 {
        seq![(0xE0 + n / 4096) as u8, (0x80 + (n / 64) % 64) as u8, (0x80 + n % 64) as u8]
    } else {
        seq![
            (0xF0 + n / 262144) as u8,
            (0x80 + (n / 4096) % 64) as u8,
            (0x80 + (n / 64) % 64) as u8,
            (0x80 + n % 64) as u8,
        ]
    }
}

/// Bytes a SARIF URI segment keeps as they are (RFC 3986 unreserved and
/// sub-delimiters, plus `@`).
pub open spec fn sarif_keeps(b: u8) -> bool {
    ||| (65 <= b <= 90)
    ||| (97 <= b <= 122)
    ||| (48 <= b <= 57)
    ||| b == 45 || b == 95 || b == 46 || b == 126 || b == 33 || b == 36 || b == 38 || b == 39
    ||| b == 40 || b == 41 || b == 42 || b == 43 || b == 44 || b == 59 || b == 61 || b == 64
}

/// Upper-case hexadecimal digit.
pub open spec fn upper_hex_digit(n: int) -> char {
    if n < 10 {
        (('0' as int) + n) as char
    } else {
        (('A' as int) + n - 10) as char
    }
}

/// Percent-encoding of one byte.
pub open spec fn percent_byte(b: u8) -> Seq<char> {
    if sarif_keeps(b) {
        seq![b as char]
    } else {
        seq!['%', upper_hex_digit((b / 16) as int), upper_hex_digit((b % 16) as int)]
    }
}

/// Percent-encoding of a byte sequence.
pub open spec fn percent_bytes(bs: Seq<u8>) -> Seq<char>
    decreases bs.len(),
{
    if bs.len() == 0 {
        Seq::empty()
    } else {
        percent_bytes(bs.drop_last()) + percent_byte(bs.last())
    }
}

/// Percent-encoding of the UTF-8 bytes of a character sequence.
pub open spec fn percent_segment(s: Seq<char>) -> Seq<char>
    decreases s.len(),
{
    if s.len() == 0 {
        Seq::empty()
    } else {
        percent_segment(s.drop_last()) + percent_bytes(utf8_bytes(s.last()))
    }
}

fn push_percent_byte(out: &mut String, b: u8)
    ensures
        final(out)@ == old(out)@ + percent_byte(b),
{
    if (65 <= b && b <= 90) || (97 <= b && b <= 122) || (48 <= b && b <= 57) || b == 45 || b == 95
        || b == 46 || b == 126 || b == 33 || b == 36 || b == 38 || b == 39 || b == 40 || b == 41
        || b == 42 || b == 43 || b == 44 || b == 59 || b == 61 || b == 64 {
        push_char(out, b as char);
    } else {
        let hi = b / 16;
        let lo = b % 16;
        push_char(out, '%');
        push_char(out, if hi < 10 { ((48 + hi) as u8) as char } else { ((55 + hi) as u8) as char });
        push_char(out, if lo < 10 { ((48 + lo) as u8) as char } else { ((55 + lo) as u8) as char });
    }
}

fn push_percent_char(out: &mut String, c: char)
    ensures
        final(out)@ == old(out)@ + percent_bytes(utf8_bytes(c)),
{
    let ghost start = out@;
    let n = c as u32;
    if n < 0x80 {
        push_percent_byte(out, n as u8);
        assert(seq![n as u8].drop_last() =~= Seq::<u8>::empty());
    } else if n < 0x800 {
        let b0 = (0xC0 + n / 64) as u8;
        let b1 = (0x80 + n % 64) as u8;
        push_percent_byte(out, b0);
        push_percent_byte(out, b1);
        assert(seq![b0, b1].drop_last() =~= seq![b0]);
        assert(seq![b0].drop_last() =~= Seq::<u8>::empty());
    } else if n < 0x10000 {
        let b0 = (0xE0 + n / 4096) as u8;
        let b1 = (0x80 + (n / 64) % 64) as u8;
        let b2 = (0x80 + n % 64) as u8;
        push_percent_byte(out, b0);
        push_percent_byte(out, b1);
        push_percent_byte(out, b2);
        assert(seq![b0, b1, b2].drop_last() =~= seq![b0, b1]);
        assert(seq![b0, b1].drop_last() =~= seq![b0]);
        assert(seq![b0].drop_last() =~= Seq::<u8>::empty());
    } else {
        let b0 = (0xF0 + n / 262144) as u8;
        let b1 = (0x80 + (n / 4096) % 64) as u8;
        let b2 = (0x80 + (n / 64) % 64) as u8;
        let b3 = (0x80 + n % 64) as u8;
        push_percent_byte(out, b0);
        push_percent_byte(out, b1);
        push_percent_byte(out, b2);
        push_percent_byte(out, b3);
        assert(seq![b0, b1, b2, b3].drop_last() =~= seq![b0, b1, b2]);
        assert(seq![b0, b1, b2].drop_last() =~= seq![b0, b1]);
        assert(seq![b0, b1].drop_last() =~= seq![b0]);
        assert(seq![b0].drop_last() =~= Seq::<u8>::empty());
    }
    proof {
        reveal_with_fuel(percent_bytes, 5);
    }
    assert(out@ =~= start + percent_bytes(utf8_bytes(c)));
}

/// Percent-encode one path segment for a SARIF URI (each UTF-8 byte outside
/// the kept set becomes `%XX`).
pub fn percent_encode_sarif_segment(segment: &str) -> (r: String)
    ensures
        r@ == percent_segment(segment@),
{
    let v = crate::text::chars_of(segment);
    let mut out = String::new();
    let mut i: usize = 0;
    while i < v.len()
        invariant
            i <= v.len(),
            out@ == percent_segment(v@.take(i as int)),
        decreases v.len() - i,
    {
        push_percent_char(&mut out, v[i]);
        assert(v@.take(i + 1).drop_last() =~= v@.take(i as int));
        i = i + 1;
    }
    assert(v@.take(v.len() as int) =~= v@);
    out
}

/// `s` with every backslash turned into `/`.
pub open spec fn slashes(s: Seq<char>) -> Seq<char> {
    s.map_values(|c: char| if c == '\\' { '/' } else { c })
}

/// SARIF URI of a relative path: backslashes become `/`, each segment is
/// percent-encoded.
pub open spec fn sarif_path_uri(path: Seq<char>) -> Seq<char> {
    join_seqs(split_on(slashes(path), '/').map_values(|seg: Seq<char>| percent_segment(seg)), "/"@)
}

/// Percent-encode a path for a SARIF URI.
pub fn sarif_percent_encode_path(path: &str) -> (r: String)
    ensures
        r@ == sarif_path_uri(path@),
{
    let v = crate::text::chars_of(path);
    let mut w: Vec<char> = Vec::new();
    let mut i: usize = 0;
    while i < v.len()
        invariant
            i <= v.len(),
            w@ == slashes(v@.take(i as int)),
        decreases v.len() - i,
    {
        w.push(if v[i] == '\\' { '/' } else { v[i] });
        assert(w@ =~= slashes(v@.take(i + 1)));
        i = i + 1;
    }
    assert(v@.take(v.len() as int) =~= v@);
    let segments = split_vec(w.as_slice(), '/');
    let ghost segs = split_on(w@, '/');
    let mut encoded: Vec<String> = Vec::new();
    let mut k: usize = 0;
    while k < segments.len()
        invariant
            k <= segments.len(),
            segments@.len() == segs.len(),
            forall|m: int| 0 <= m < segs.len() ==> #[trigger] segments@[m]@ == segs[m],
            encoded@.len() == k,
            forall|m: int| 0 <= m < k ==> #[trigger] encoded@[m]@ == percent_segment(segs[m]),
        decreases segments.len() - k,
    {
        let seg = string_of(segments[k].as_slice());
        encoded.push(percent_encode_sarif_segment(seg.as_str()));
        k = k + 1;
    }
    assert(encoded@.map_values(|s: String| s@) =~= segs.map_values(|seg: Seq<char>| percent_segment(seg)));
    join_strings(encoded.as_slice(), "/")
}

} // verus!
