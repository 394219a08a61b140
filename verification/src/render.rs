//! The text of the plain-table and HTML reports: what a reporter writes for
//! a given report, line by line.
use vstd::prelude::*;
use vstd::string::*;

use crate::matching::string_views;
use crate::model::{severity_label, CveEvidenceLocation, CveRecord, PackageDeclarationLocation, Severity};
use crate::report::{
    analysis_incomplete, degraded_coverage, manifest_coverage_needs_section, some_status, Finding,
    ManifestCoverageEntry, ManifestScanStatus, ReportData, MANIFEST_STATUS_FAILED_PARSE,
    MANIFEST_STATUS_FAILED_RESOLUTION, MANIFEST_STATUS_SCANNED_DIRECT_ONLY,
    MANIFEST_STATUS_SCANNED_TRANSITIVE,
    DEGRADED_COVERAGE_NO_VULNERABILITIES_MESSAGE, NO_VULNERABILITIES_FOUND_MESSAGE,
    SCAN_INCOMPLETE_MESSAGE,
};
use crate::text::{
    chars_of, decimal, join_seqs, join_strings, push_char, push_decimal, string_of, sub_vec, trim,
    trim_vec,
};
use crate::vex::{evidence_site_text, opt_view};

verus! {

/// `path` relative to `root` (`Path::strip_prefix`), or `None` when `root`
/// is not a prefix of it.
pub uninterp spec fn path_relative_to(path: Seq<char>, root: Seq<char>) -> Option<Seq<char>>;

/// `Path::new(path).strip_prefix(root)`, as text.
#[verifier::external_body]
fn strip_path_prefix(path: &str, root: &str) -> (r: Option<String>)
    ensures
        opt_view(r) == path_relative_to(path@, root@),
{
    std::path::Path::new(path).strip_prefix(root).ok().map(|p| p.to_string_lossy().into_owned())
}

/// A path as shown in reports: relative to the scan root when possible.
pub open spec fn shown_path(path: Seq<char>, root: Option<Seq<char>>) -> Seq<char> {
    match root {
        Some(r) => match path_relative_to(path, r) {
            Some(x) => x,
            None => path,
        },
        None => path,
    }
}

/// Format a path relative to the scan root when possible.
pub fn relative_path_string(path: &str, root: Option<&str>) -> (r: String)
    ensures
        r@ == shown_path(
            path@,
            match root {
                Some(x) => Some(x@),
                None => None,
            },
        ),
{
    match root {
        Some(x) => match strip_path_prefix(path, x) {
            Some(s) => s,
            None => String::from_str(path),
        },
        None => String::from_str(path),
    }
}

/// A list shown in one cell: all of it when it has at most two items, else
/// the first and how many more.
pub open spec fn short_list(items: Seq<Seq<char>>) -> Seq<char> {
    if items.len() <= 2 {
        join_seqs(items, ", "@)
    } else {
        items[0] + " (+"@ + decimal((items.len() - 1) as nat) + " more)"@
    }
}

fn short_list_exec(items: &Vec<String>) -> (r: String)
    ensures
        r@ == short_list(string_views(items@)),
{
    if items.len() <= 2 {
        assert(items@.map_values(|s: String| s@) =~= string_views(items@));
        join_strings(items.as_slice(), ", ")
    } else {
        let mut r = String::from_str(items[0].as_str());
        r.append(" (+");
        push_decimal(&mut r, (items.len() - 1) as u64);
        r.append(" more)");
        r
    }
}

/// The report's scan root, as text.
pub open spec fn root_view(data: ReportData) -> Option<Seq<char>> {
    opt_view(data.root_path)
}

/// Manifest paths of a finding as shown: `-` when there are none.
pub open spec fn manifests_text(paths: Seq<String>, root: Option<Seq<char>>) -> Seq<char> {
    if paths.len() == 0 {
        "-"@
    } else {
        short_list(paths.map_values(|p: String| shown_path(p@, root)))
    }
}

/// Declarations of a finding as shown (`path:line`): empty when there are none.
pub open spec fn decls_text(decls: Seq<PackageDeclarationLocation>, root: Option<Seq<char>>) -> Seq<char> {
    if decls.len() == 0 {
        Seq::empty()
    } else {
        short_list(
            decls.map_values(
                |d: PackageDeclarationLocation| shown_path(d.path@, root) + ":"@ + decimal(d.start_line as nat),
            ),
        )
    }
}

fn opt_root(root: &Option<String>) -> (r: Option<&str>)
    ensures
        match r {
            Some(x) => opt_view(*root) == Some(x@),
            None => root.is_none(),
        },
{
    match root {
        Some(s) => Some(s.as_str()),
        None => None,
    }
}

fn manifests_text_exec(paths: &Vec<String>, root: Option<&str>) -> (r: String)
    ensures
        r@ == manifests_text(
            paths@,
            match root {
                Some(x) => Some(x@),
                None => None,
            },
        ),
{
    let ghost rv = match root {
        Some(x) => Some(x@),
        None => None::<Seq<char>>,
    };
    if paths.len() == 0 {
        return String::from_str("-");
    }
    let mut shown: Vec<String> = Vec::new();
    let mut i: usize = 0;
    while i < paths.len()
        invariant
            i <= paths.len(),
            rv == match root {
                Some(x) => Some(x@),
                None => None::<Seq<char>>,
            },
            shown@.len() == i,
            forall|j: int| 0 <= j < i ==> #[trigger] shown@[j]@ == shown_path(paths@[j]@, rv),
        decreases paths.len() - i,
    {
        let s = relative_path_string(paths[i].as_str(), root);
        shown.push(s);
        i = i + 1;
    }
    assert(string_views(shown@) =~= paths@.map_values(|p: String| shown_path(p@, rv)));
    short_list_exec(&shown)
}

fn decls_text_exec(decls: &Vec<PackageDeclarationLocation>, root: Option<&str>) -> (r: String)
    ensures
        r@ == decls_text(
            decls@,
            match root {
                Some(x) => Some(x@),
                None => None,
            },
        ),
{
    let ghost rv = match root {
        Some(x) => Some(x@),
        None => None::<Seq<char>>,
    };
    if decls.len() == 0 {
        return String::new();
    }
    let mut shown: Vec<String> = Vec::new();
    let mut i: usize = 0;
    while i < decls.len()
        invariant
            i <= decls.len(),
            rv == match root {
                Some(x) => Some(x@),
                None => None::<Seq<char>>,
            },
            shown@.len() == i,
            forall|j: int|
                0 <= j < i ==> #[trigger] shown@[j]@ == shown_path(decls@[j].path@, rv) + ":"@ + decimal(
                    decls@[j].start_line as nat,
                ),
        decreases decls.len() - i,
    {
        let mut s = relative_path_string(decls[i].path.as_str(), root);
        s.append(":");
        push_decimal(&mut s, decls[i].start_line as u64);
        shown.push(s);
        i = i + 1;
    }
    assert(string_views(shown@) =~= decls@.map_values(
        |d: PackageDeclarationLocation| shown_path(d.path@, rv) + ":"@ + decimal(d.start_line as nat),
    ));
    short_list_exec(&shown)
}

/// Advisory-symbol details of a CVE, when it has any.
pub open spec fn symbol_details(cve: CveRecord) -> Option<Seq<char>> {
    if cve.advisory_symbols@.len() == 0 && cve.evidence@.len() == 0 && cve.symbol_usage is None {
        None
    } else {
        Some(
            join_seqs(
                (if cve.advisory_symbols@.len() > 0 {
                    seq!["advisory_symbols: "@ + join_seqs(string_views(cve.advisory_symbols@), ", "@)]
                } else {
                    Seq::empty()
                }) + (match cve.symbol_usage {
                    Some(u) => seq!["symbol_usage: "@ + u@],
                    None => Seq::empty(),
                }) + (if cve.evidence@.len() > 0 {
                    seq![
                        "evidence: "@ + join_seqs(
                            cve.evidence@.map_values(|e: CveEvidenceLocation| evidence_site_text(e)),
                            "; "@,
                        ),
                    ]
                } else {
                    Seq::empty()
                }),
                "; "@,
            ),
        )
    }
}

fn push_part(parts: &mut Vec<String>, s: String)
    ensures
        string_views(final(parts)@) == string_views(old(parts)@).push(s@),
{
    let ghost before = parts@;
    let ghost sv = s@;
    parts.push(s);
    assert(string_views(parts@) =~= string_views(before).push(sv));
}

/// Advisory-symbol details of a CVE for the plain and HTML tables.
pub fn format_cve_symbol_details(cve: &CveRecord) -> (r: Option<String>)
    ensures
        opt_view(r) == symbol_details(*cve),
{
    if cve.advisory_symbols.len() == 0 && cve.evidence.len() == 0 && cve.symbol_usage.is_none() {
        return None;
    }
    let mut parts: Vec<String> = Vec::new();
    if cve.advisory_symbols.len() > 0 {
        let mut s = String::from_str("advisory_symbols: ");
        assert(cve.advisory_symbols@.map_values(|s: String| s@) =~= string_views(cve.advisory_symbols@));
        let j = join_strings(cve.advisory_symbols.as_slice(), ", ");
        s.append(j.as_str());
        push_part(&mut parts, s);
    }
    match &cve.symbol_usage {
        Some(u) => {
            let mut s = String::from_str("symbol_usage: ");
            s.append(u.as_str());
            push_part(&mut parts, s);
        },
        None => {},
    }
    if cve.evidence.len() > 0 {
        let mut sites: Vec<String> = Vec::new();
        let mut i: usize = 0;
        while i < cve.evidence.len()
            invariant
                i <= cve.evidence.len(),
                string_views(sites@) == cve.evidence@.take(i as int).map_values(
                    |e: CveEvidenceLocation| evidence_site_text(e),
                ),
            decreases cve.evidence.len() - i,
        {
            let e = &cve.evidence[i];
            let mut s = String::from_str(e.path.as_str());
            s.append(":");
            push_decimal(&mut s, e.start_line as u64);
            s.append(" (");
            s.append(e.symbol.as_str());
            s.append(")");
            push_part(&mut sites, s);
            assert(string_views(sites@) =~= cve.evidence@.take(i + 1).map_values(
                |e: CveEvidenceLocation| evidence_site_text(e),
            ));
            i = i + 1;
        }
        assert(cve.evidence@.take(cve.evidence.len() as int) =~= cve.evidence@);
        assert(sites@.map_values(|s: String| s@) =~= string_views(sites@));
        let mut s = String::from_str("evidence: ");
        let j = join_strings(sites.as_slice(), "; ");
        s.append(j.as_str());
        push_part(&mut parts, s);
    }
    assert(string_views(parts@) =~= (if cve.advisory_symbols@.len() > 0 {
        seq!["advisory_symbols: "@ + join_seqs(string_views(cve.advisory_symbols@), ", "@)]
    } else {
        Seq::empty()
    }) + (match cve.symbol_usage {
        Some(u) => seq!["symbol_usage: "@ + u@],
        None => Seq::empty(),
    }) + (if cve.evidence@.len() > 0 {
        seq![
            "evidence: "@ + join_seqs(
                cve.evidence@.map_values(|e: CveEvidenceLocation| evidence_site_text(e)),
                "; "@,
            ),
        ]
    } else {
        Seq::empty()
    }));
    assert(parts@.map_values(|s: String| s@) =~= string_views(parts@));
    Some(join_strings(parts.as_slice(), "; "))
}

/// `s` with every newline turned into a space.
pub open spec fn newlines_to_spaces(s: Seq<char>) -> Seq<char> {
    s.map_values(|c: char| if c == '\n' { ' ' } else { c })
}

/// Maximum characters of a description shown in the plain table.
pub const DESCRIPTION_MAX_LEN: usize = 60;

/// A description as shown in the plain table: its first 60 characters,
/// trimmed, newlines as spaces, with `...` when it was longer.
pub open spec fn short_description(d: Seq<char>) -> Seq<char> {
    let t = newlines_to_spaces(trim(d.take(if d.len() < 60 { d.len() as int } else { 60 })));
    if d.len() > 60 {
        t + "..."@
    } else {
        t
    }
}

fn short_description_exec(d: &str) -> (r: String)
    ensures
        r@ == short_description(d@),
{
    let v = chars_of(d);
    let n: usize = if v.len() < DESCRIPTION_MAX_LEN { v.len() } else { DESCRIPTION_MAX_LEN };
    let head = sub_vec(v.as_slice(), 0, n);
    assert(head@ =~= v@.take(n as int));
    let t = trim_vec(head.as_slice());
    let mut out = String::new();
    let mut i: usize = 0;
    while i < t.len()
        invariant
            i <= t.len(),
            out@ == newlines_to_spaces(t@.take(i as int)),
        decreases t.len() - i,
    {
        push_char(&mut out, if t[i] == '\n' { ' ' } else { t[i] });
        assert(out@ =~= newlines_to_spaces(t@.take(i + 1)));
        i = i + 1;
    }
    assert(t@.take(t.len() as int) =~= t@);
    if v.len() > DESCRIPTION_MAX_LEN {
        out.append("...");
    }
    out
}

/// `n` dashes.
pub open spec fn dashes(n: nat) -> Seq<char> {
    Seq::new(n, |i: int| '-')
}

fn push_dashes(out: &mut String, n: usize)
    ensures
        final(out)@ == old(out)@ + dashes(n as nat),
{
    let ghost start = out@;
    let mut i: usize = 0;
    while i < n
        invariant
            i <= n,
            out@ == start + dashes(i as nat),
        decreases n - i,
    {
        push_char(out, '-');
        assert(out@ =~= start + dashes((i + 1) as nat));
        i = i + 1;
    }
}

/// Text of an optional cell: the value, or `-`.
pub open spec fn or_dash(o: Option<String>) -> Seq<char> {
    match o {
        Some(s) => s@,
        None => "-"@,
    }
}

/// One plain-table row of the manifest coverage section.
pub open spec fn coverage_row_plain(e: ManifestCoverageEntry, root: Option<Seq<char>>) -> Seq<char> {
    shown_path(e.path@, root) + " | "@ + e.language@ + " | "@ + status_label(e.status) + " | "@
        + or_dash(e.direct_only_reason) + " | "@ + or_dash(e.error) + "\n"@
}

/// Label of a manifest status.
pub open spec fn status_label(s: ManifestScanStatus) -> Seq<char> {
    match s {
        ManifestScanStatus::ScannedTransitive => MANIFEST_STATUS_SCANNED_TRANSITIVE@,
        ManifestScanStatus::ScannedDirectOnly => MANIFEST_STATUS_SCANNED_DIRECT_ONLY@,
        ManifestScanStatus::FailedParse => MANIFEST_STATUS_FAILED_PARSE@,
        ManifestScanStatus::FailedResolution => MANIFEST_STATUS_FAILED_RESOLUTION@,
    }
}

/// Rows of the manifest coverage section.
pub open spec fn coverage_rows_plain(es: Seq<ManifestCoverageEntry>, root: Option<Seq<char>>) -> Seq<char>
    decreases es.len(),
{
    if es.len() == 0 {
        Seq::empty()
    } else {
        coverage_rows_plain(es.drop_last(), root) + coverage_row_plain(es.last(), root)
    }
}

/// The manifest coverage section of the plain report: only when some
/// manifest was not fully scanned.
pub open spec fn coverage_plain(es: Seq<ManifestCoverageEntry>, root: Option<Seq<char>>) -> Seq<char> {
    if some_status(es, |s: ManifestScanStatus| s != ManifestScanStatus::ScannedTransitive) {
        "Manifest coverage:\n"@ + "Path | Language | Status | Direct-only reason | Error\n"@ + dashes(100)
            + "\n"@ + coverage_rows_plain(es, root) + "\n"@
    } else {
        Seq::empty()
    }
}

fn or_dash_exec(o: &Option<String>) -> (r: &str)
    ensures
        r@ == or_dash(*o),
{
    match o {
        Some(s) => s.as_str(),
        None => "-",
    }
}

fn coverage_row_exec(e: &ManifestCoverageEntry, root: Option<&str>) -> (r: String)
    ensures
        r@ == coverage_row_plain(
            *e,
            match root {
                Some(x) => Some(x@),
                None => None,
            },
        ),
{
    let mut out = relative_path_string(e.path.as_str(), root);
    out.append(" | ");
    out.append(e.language.as_str());
    out.append(" | ");
    out.append(e.status.as_str());
    out.append(" | ");
    out.append(or_dash_exec(&e.direct_only_reason));
    out.append(" | ");
    out.append(or_dash_exec(&e.error));
    out.append("\n");
    out
}

fn write_manifest_coverage_plain(out: &mut String, coverage: &Vec<ManifestCoverageEntry>, root: Option<&str>)
    ensures
        final(out)@ == old(out)@ + coverage_plain(
            coverage@,
            match root {
                Some(x) => Some(x@),
                None => None,
            },
        ),
{
    let ghost rv = match root {
        Some(x) => Some(x@),
        None => None::<Seq<char>>,
    };
    if !manifest_coverage_needs_section(coverage.as_slice()) {
        return;
    }
    let ghost start = out@;
    out.append("Manifest coverage:\n");
    out.append("Path | Language | Status | Direct-only reason | Error\n");
    push_dashes(out, 100);
    out.append("\n");
    let ghost head = out@;
    let mut i: usize = 0;
    while i < coverage.len()
        invariant
            i <= coverage.len(),
            rv == match root {
                Some(x) => Some(x@),
                None => None::<Seq<char>>,
            },
            out@ == head + coverage_rows_plain(coverage@.take(i as int), rv),
        decreases coverage.len() - i,
    {
        let ghost before = out@;
        let row = coverage_row_exec(&coverage[i], root);
        out.append(row.as_str());
        assert(coverage@.take(i + 1).drop_last() =~= coverage@.take(i as int));
        assert(out@ =~= before + coverage_row_plain(coverage@[i as int], rv));
        i = i + 1;
    }
    assert(coverage@.take(coverage.len() as int) =~= coverage@);
    out.append("\n");
    assert(out@ =~= start + coverage_plain(coverage@, rv));
}

/// The manifests cell of a finding in the plain table (declarations added
/// after `; decl: `).
pub open spec fn finding_places(f: Finding, root: Option<Seq<char>>) -> Seq<char> {
    let m = manifests_text(f.manifest_paths@, root);
    let d = decls_text(f.declarations@, root);
    if d.len() > 0 {
        m + "; decl: "@ + d
    } else {
        m
    }
}

/// The plain-table lines of one CVE of a finding: a full row for the first
/// CVE, a continuation row after it, then its symbol details.
pub open spec fn cve_lines_plain(f: Finding, places: Seq<char>, first: bool, c: (CveRecord, Severity)) -> Seq<char> {
    (if first {
        f.package.name@ + " | "@ + f.package.version@ + " | "@ + c.0.id@ + " | "@ + severity_label(c.1)
            + " | "@ + places + " | "@ + short_description(c.0.description@) + "\n"@
    } else {
        "  |  | "@ + c.0.id@ + " | "@ + severity_label(c.1) + " |  | "@ + short_description(
            c.0.description@,
        ) + "\n"@
    }) + match symbol_details(c.0) {
        Some(x) => "  "@ + x + "\n"@,
        None => Seq::empty(),
    }
}

/// The plain-table lines of the CVEs of a finding.
pub open spec fn cves_plain(f: Finding, places: Seq<char>, cves: Seq<(CveRecord, Severity)>) -> Seq<char>
    decreases cves.len(),
{
    if cves.len() == 0 {
        Seq::empty()
    } else {
        cves_plain(f, places, cves.drop_last()) + cve_lines_plain(f, places, cves.len() == 1, cves.last())
    }
}

/// The plain-table lines of findings.
pub open spec fn findings_plain(fs: Seq<Finding>, root: Option<Seq<char>>) -> Seq<char>
    decreases fs.len(),
{
    if fs.len() == 0 {
        Seq::empty()
    } else {
        let f = fs.last();
        findings_plain(fs.drop_last(), root) + cves_plain(f, finding_places(f, root), f.cves@)
    }
}

/// Message shown when there are no findings.
pub open spec fn empty_message(d: ReportData) -> Seq<char> {
    if analysis_incomplete(d) {
        SCAN_INCOMPLETE_MESSAGE@
    } else if degraded_coverage(d) {
        DEGRADED_COVERAGE_NO_VULNERABILITIES_MESSAGE@
    } else {
        NO_VULNERABILITIES_FOUND_MESSAGE@
    }
}

/// The plain-text report: project line, manifest coverage section, then the
/// findings table (or the empty-findings message).
pub open spec fn plain_report(d: ReportData) -> Seq<char> {
    (match d.project_id {
        Some(p) => "Project: "@ + p@ + "\n"@,
        None => Seq::empty(),
    }) + coverage_plain(d.manifest_coverage@, root_view(d)) + if d.findings@.len() == 0 {
        empty_message(d) + "\n"@
    } else {
        "Package | Version | CVE ID | Severity | Manifest(s) | Description\n"@ + dashes(100) + "\n"@
            + findings_plain(d.findings@, root_view(d))
    }
}

fn cve_lines_exec(f: &Finding, places: &str, i: usize) -> (r: String)
    requires
        i < f.cves@.len(),
    ensures
        r@ == cve_lines_plain(*f, places@, i == 0, f.cves@[i as int]),
{
    let (cve, severity) = &f.cves[i];
    let desc = short_description_exec(cve.description.as_str());
    let mut out = String::new();
    if i == 0 {
        out.append(f.package.name.as_str());
        out.append(" | ");
        out.append(f.package.version.as_str());
        out.append(" | ");
        out.append(cve.id.as_str());
        out.append(" | ");
        out.append(severity.as_str());
        out.append(" | ");
        out.append(places);
        out.append(" | ");
        out.append(desc.as_str());
        out.append("\n");
    } else {
        out.append("  |  | ");
        out.append(cve.id.as_str());
        out.append(" | ");
        out.append(severity.as_str());
        out.append(" |  | ");
        out.append(desc.as_str());
        out.append("\n");
    }
    match format_cve_symbol_details(cve) {
        Some(details) => {
            out.append("  ");
            out.append(details.as_str());
            out.append("\n");
        },
        None => {},
    }
    assert(out@ =~= cve_lines_plain(*f, places@, i == 0, f.cves@[i as int]));
    out
}

fn write_finding_plain(out: &mut String, f: &Finding, root: Option<&str>)
    ensures
        final(out)@ == old(out)@ + cves_plain(
            *f,
            finding_places(
                *f,
                match root {
                    Some(x) => Some(x@),
                    None => None,
                },
            ),
            f.cves@,
        ),
{
    let ghost rv = match root {
        Some(x) => Some(x@),
        None => None::<Seq<char>>,
    };
    let mut places = manifests_text_exec(&f.manifest_paths, root);
    let decls = decls_text_exec(&f.declarations, root);
    if decls.as_str().unicode_len() > 0 {
        places.append("; decl: ");
        places.append(decls.as_str());
    }
    let ghost pv = places@;
    let ghost start = out@;
    let mut i: usize = 0;
    while i < f.cves.len()
        invariant
            i <= f.cves.len(),
            pv == places@,
            pv == finding_places(*f, rv),
            out@ == start + cves_plain(*f, pv, f.cves@.take(i as int)),
        decreases f.cves.len() - i,
    {
        let ghost before = out@;
        let lines = cve_lines_exec(f, places.as_str(), i);
        out.append(lines.as_str());
        assert(f.cves@.take(i + 1).drop_last() =~= f.cves@.take(i as int));
        assert(f.cves@.take(i + 1).last() == f.cves@[i as int]);
        assert(out@ =~= before + cve_lines_plain(*f, pv, i == 0, f.cves@[i as int]));
        i = i + 1;
    }
    assert(f.cves@.take(f.cves.len() as int) =~= f.cves@);
}

fn write_findings_plain(out: &mut String, data: &ReportData, root: Option<&str>)
    requires
        root_view(*data) == match root {
            Some(x) => Some(x@),
            None => None::<Seq<char>>,
        },
    ensures
        final(out)@ == old(out)@ + "Package | Version | CVE ID | Severity | Manifest(s) | Description\n"@
            + dashes(100) + "\n"@ + findings_plain(data.findings@, root_view(*data)),
{
    let ghost rv = root_view(*data);
    let ghost start = out@;
    out.append("Package | Version | CVE ID | Severity | Manifest(s) | Description\n");
    push_dashes(out, 100);
    out.append("\n");
    let ghost head = out@;
    let mut i: usize = 0;
    while i < data.findings.len()
        invariant
            i <= data.findings.len(),
            rv == match root {
                Some(x) => Some(x@),
                None => None::<Seq<char>>,
            },
            out@ == head + findings_plain(data.findings@.take(i as int), rv),
        decreases data.findings.len() - i,
    {
        write_finding_plain(out, &data.findings[i], root);
        assert(data.findings@.take(i + 1).drop_last() =~= data.findings@.take(i as int));
        assert(out@ =~= head + findings_plain(data.findings@.take(i + 1), rv));
        i = i + 1;
    }
    assert(data.findings@.take(data.findings.len() as int) =~= data.findings@);
    assert(out@ =~= start + "Package | Version | CVE ID | Severity | Manifest(s) | Description\n"@
        + dashes(100) + "\n"@ + findings_plain(data.findings@, rv));
}

/// The plain-text report for `data`.
pub fn render_plain_report(data: &ReportData) -> (r: String)
    ensures
        r@ == plain_report(*data),
{
    let root = opt_root(&data.root_path);
    let mut out = String::new();
    match &data.project_id {
        Some(pid) => {
            out.append("Project: ");
            out.append(pid.as_str());
            out.append("\n");
        },
        None => {},
    }
    let ghost project = out@;
    let mut coverage = String::new();
    write_manifest_coverage_plain(&mut coverage, &data.manifest_coverage, root);
    let mut tail = String::new();
    if data.findings.len() == 0 {
        tail.append(data.empty_findings_message());
        tail.append("\n");
    } else {
        write_findings_plain(&mut tail, data, root);
    }
    let ghost cv = coverage@;
    let ghost tv = tail@;
    out.append(coverage.as_str());
    out.append(tail.as_str());
    assert(out@ == project + cv + tv);
    out
}

/// HTML escape of one character (`&`, `<`, `>`, `"`).
pub open spec fn escape_char(c: char) -> Seq<char> {
    if c == '&' {
        "&amp;"@
    } else if c == '<' {
        "&lt;"@
    } else if c == '>' {
        "&gt;"@
    } else if c == '"' {
        "&quot;"@
    } else {
        seq![c]
    }
}

/// HTML escape of a text.
pub open spec fn html_escaped(s: Seq<char>) -> Seq<char>
    decreases s.len(),
{
    if s.len() == 0 {
        Seq::empty()
    } else {
        html_escaped(s.drop_last()) + escape_char(s.last())
    }
}

/// Escape `&`, `<`, `>` and `"` for HTML.
pub fn html_escape(s: &str) -> (r: String)
    ensures
        r@ == html_escaped(s@),
{
    let v = chars_of(s);
    let mut out = String::new();
    let mut i: usize = 0;
    while i < v.len()
        invariant
            i <= v.len(),
            out@ == html_escaped(v@.take(i as int)),
        decreases v.len() - i,
    {
        let c = v[i];
        if c == '&' {
            out.append("&amp;");
        } else if c == '<' {
            out.append("&lt;");
        } else if c == '>' {
            out.append("&gt;");
        } else if c == '"' {
            out.append("&quot;");
        } else {
            push_char(&mut out, c);
        }
        assert(v@.take(i + 1).drop_last() =~= v@.take(i as int));
        i = i + 1;
    }
    assert(v@.take(v.len() as int) =~= v@);
    out
}

/// One HTML row of the manifest coverage table.
pub open spec fn coverage_row_html(e: ManifestCoverageEntry, root: Option<Seq<char>>) -> Seq<char> {
    "<tr><td>"@ + html_escaped(shown_path(e.path@, root)) + "</td><td>"@ + html_escaped(e.language@)
        + "</td><td>"@ + status_label(e.status) + "</td><td>"@ + html_escaped(or_dash(e.direct_only_reason))
        + "</td><td>"@ + html_escaped(or_dash(e.error)) + "</td></tr>\n"@
}

/// HTML rows of the manifest coverage table.
pub open spec fn coverage_rows_html(es: Seq<ManifestCoverageEntry>, root: Option<Seq<char>>) -> Seq<char>
    decreases es.len(),
{
    if es.len() == 0 {
        Seq::empty()
    } else {
        coverage_rows_html(es.drop_last(), root) + coverage_row_html(es.last(), root)
    }
}

/// HTML rows of one CVE of a finding: its row, then its symbol details.
pub open spec fn cve_rows_html(f: Finding, manifests: Seq<char>, c: (CveRecord, Severity)) -> Seq<char> {
    "<tr><td>"@ + html_escaped(f.package.name@) + "</td><td>"@ + html_escaped(f.package.version@)
        + "</td><td>"@ + html_escaped(c.0.id@) + "</td><td>"@ + severity_label(c.1) + "</td><td>"@
        + html_escaped(manifests) + "</td><td>"@ + html_escaped(c.0.description@) + "</td></tr>\n"@
        + match symbol_details(c.0) {
        Some(x) => "<tr><td colspan=\"6\"><em>"@ + html_escaped(x) + "</em></td></tr>\n"@,
        None => Seq::empty(),
    }
}

/// HTML rows of the CVEs of a finding.
pub open spec fn cves_html(f: Finding, manifests: Seq<char>, cves: Seq<(CveRecord, Severity)>) -> Seq<char>
    decreases cves.len(),
{
    if cves.len() == 0 {
        Seq::empty()
    } else {
        cves_html(f, manifests, cves.drop_last()) + cve_rows_html(f, manifests, cves.last())
    }
}

/// HTML rows of findings.
pub open spec fn findings_html(fs: Seq<Finding>, root: Option<Seq<char>>) -> Seq<char>
    decreases fs.len(),
{
    if fs.len() == 0 {
        Seq::empty()
    } else {
        let f = fs.last();
        findings_html(fs.drop_last(), root) + cves_html(f, manifests_text(f.manifest_paths@, root), f.cves@)
    }
}

/// Opening of the HTML report.
pub const HTML_HEAD: &'static str = "<!DOCTYPE html><html><head><meta charset=\"utf-8\"><title>vlz report</title></head><body>\n<h1>Vulnerability report</h1>\n";

/// Header of the HTML manifest coverage table.
pub const HTML_COVERAGE_HEAD: &'static str = "<h2>Manifest coverage</h2>\n<table border=\"1\"><thead><tr><th>Path</th><th>Language</th><th>Status</th><th>Direct-only reason</th><th>Error</th></tr></thead><tbody>\n";

/// Header of the HTML findings table.
pub const HTML_FINDINGS_HEAD: &'static str = "<table border=\"1\"><thead><tr><th>Package</th><th>Version</th><th>CVE ID</th><th>Severity</th><th>Manifest(s)</th><th>Description</th></tr></thead><tbody>\n";

/// The HTML report: heading, project, manifest coverage table (when some
/// manifest was not fully scanned), findings table or empty message.
pub open spec fn html_report(d: ReportData) -> Seq<char> {
    HTML_HEAD@ + (match d.project_id {
        Some(p) => "<p><strong>Project:</strong> "@ + html_escaped(p@) + "</p>\n"@,
        None => Seq::empty(),
    }) + (if some_status(d.manifest_coverage@, |s: ManifestScanStatus| s != ManifestScanStatus::ScannedTransitive) {
        HTML_COVERAGE_HEAD@ + coverage_rows_html(d.manifest_coverage@, root_view(d)) + "</tbody></table>\n"@
    } else {
        Seq::empty()
    }) + (if d.findings@.len() == 0 {
        "<p>"@ + html_escaped(empty_message(d)) + "</p>\n"@
    } else {
        HTML_FINDINGS_HEAD@ + findings_html(d.findings@, root_view(d)) + "</tbody></table>\n"@
    }) + "</body></html>\n"@
}

fn coverage_row_html_exec(e: &ManifestCoverageEntry, root: Option<&str>) -> (r: String)
    ensures
        r@ == coverage_row_html(
            *e,
            match root {
                Some(x) => Some(x@),
                None => None,
            },
        ),
{
    let mut out = String::from_str("<tr><td>");
    let p = relative_path_string(e.path.as_str(), root);
    out.append(html_escape(p.as_str()).as_str());
    out.append("</td><td>");
    out.append(html_escape(e.language.as_str()).as_str());
    out.append("</td><td>");
    out.append(e.status.as_str());
    out.append("</td><td>");
    out.append(html_escape(or_dash_exec(&e.direct_only_reason)).as_str());
    out.append("</td><td>");
    out.append(html_escape(or_dash_exec(&e.error)).as_str());
    out.append("</td></tr>\n");
    out
}

fn cve_rows_html_exec(f: &Finding, manifests: &str, i: usize) -> (r: String)
    requires
        i < f.cves@.len(),
    ensures
        r@ == cve_rows_html(*f, manifests@, f.cves@[i as int]),
{
    let (cve, severity) = &f.cves[i];
    let mut out = String::from_str("<tr><td>");
    out.append(html_escape(f.package.name.as_str()).as_str());
    out.append("</td><td>");
    out.append(html_escape(f.package.version.as_str()).as_str());
    out.append("</td><td>");
    out.append(html_escape(cve.id.as_str()).as_str());
    out.append("</td><td>");
    out.append(severity.as_str());
    out.append("</td><td>");
    out.append(html_escape(manifests).as_str());
    out.append("</td><td>");
    out.append(html_escape(cve.description.as_str()).as_str());
    out.append("</td></tr>\n");
    match format_cve_symbol_details(cve) {
        Some(details) => {
            out.append("<tr><td colspan=\"6\"><em>");
            out.append(html_escape(details.as_str()).as_str());
            out.append("</em></td></tr>\n");
        },
        None => {},
    }
    assert(out@ =~= cve_rows_html(*f, manifests@, f.cves@[i as int]));
    out
}

fn write_finding_html(out: &mut String, f: &Finding, root: Option<&str>)
    ensures
        final(out)@ == old(out)@ + cves_html(
            *f,
            manifests_text(
                f.manifest_paths@,
                match root {
                    Some(x) => Some(x@),
                    None => None,
                },
            ),
            f.cves@,
        ),
{
    let manifests = manifests_text_exec(&f.manifest_paths, root);
    let ghost mv = manifests@;
    let ghost start = out@;
    let mut i: usize = 0;
    while i < f.cves.len()
        invariant
            i <= f.cves.len(),
            mv == manifests@,
            out@ == start + cves_html(*f, mv, f.cves@.take(i as int)),
        decreases f.cves.len() - i,
    {
        let ghost before = out@;
        let rows = cve_rows_html_exec(f, manifests.as_str(), i);
        out.append(rows.as_str());
        assert(f.cves@.take(i + 1).drop_last() =~= f.cves@.take(i as int));
        assert(f.cves@.take(i + 1).last() == f.cves@[i as int]);
        assert(out@ =~= before + cve_rows_html(*f, mv, f.cves@[i as int]));
        i = i + 1;
    }
    assert(f.cves@.take(f.cves.len() as int) =~= f.cves@);
}

fn write_coverage_html(out: &mut String, data: &ReportData, root: Option<&str>)
    requires
        root_view(*data) == match root {
            Some(x) => Some(x@),
            None => None::<Seq<char>>,
        },
    ensures
        final(out)@ == old(out)@ + (if some_status(
            data.manifest_coverage@,
            |s: ManifestScanStatus| s != ManifestScanStatus::ScannedTransitive,
        ) {
            HTML_COVERAGE_HEAD@ + coverage_rows_html(data.manifest_coverage@, root_view(*data))
                + "</tbody></table>\n"@
        } else {
            Seq::empty()
        }),
{
    let ghost rv = root_view(*data);
    let ghost start = out@;
    if manifest_coverage_needs_section(data.manifest_coverage.as_slice()) {
        out.append(HTML_COVERAGE_HEAD);
        let ghost head = out@;
        let mut i: usize = 0;
        while i < data.manifest_coverage.len()
            invariant
                i <= data.manifest_coverage.len(),
                rv == match root {
                    Some(x) => Some(x@),
                    None => None::<Seq<char>>,
                },
                out@ == head + coverage_rows_html(data.manifest_coverage@.take(i as int), rv),
            decreases data.manifest_coverage.len() - i,
        {
            let row = coverage_row_html_exec(&data.manifest_coverage[i], root);
            out.append(row.as_str());
            assert(data.manifest_coverage@.take(i + 1).drop_last() =~= data.manifest_coverage@.take(
                i as int,
            ));
            assert(out@ =~= head + coverage_rows_html(data.manifest_coverage@.take(i + 1), rv));
            i = i + 1;
        }
        assert(data.manifest_coverage@.take(data.manifest_coverage.len() as int)
            =~= data.manifest_coverage@);
        out.append("</tbody></table>\n");
        assert(out@ =~= start + HTML_COVERAGE_HEAD@ + coverage_rows_html(data.manifest_coverage@, rv)
            + "</tbody></table>\n"@);
    } else {
        assert(out@ =~= start + Seq::<char>::empty());
    }
}

fn write_findings_html(out: &mut String, data: &ReportData, root: Option<&str>)
    requires
        root_view(*data) == match root {
            Some(x) => Some(x@),
            None => None::<Seq<char>>,
        },
    ensures
        final(out)@ == old(out)@ + (if data.findings@.len() == 0 {
            "<p>"@ + html_escaped(empty_message(*data)) + "</p>\n"@
        } else {
            HTML_FINDINGS_HEAD@ + findings_html(data.findings@, root_view(*data)) + "</tbody></table>\n"@
        }),
{
    let ghost rv = root_view(*data);
    let ghost start = out@;
    if data.findings.len() == 0 {
        out.append("<p>");
        out.append(html_escape(data.empty_findings_message()).as_str());
        out.append("</p>\n");
        assert(out@ =~= start + "<p>"@ + html_escaped(empty_message(*data)) + "</p>\n"@);
    } else {
        out.append(HTML_FINDINGS_HEAD);
        let ghost head = out@;
        let mut i: usize = 0;
        while i < data.findings.len()
            invariant
                i <= data.findings.len(),
                rv == match root {
                    Some(x) => Some(x@),
                    None => None::<Seq<char>>,
                },
                out@ == head + findings_html(data.findings@.take(i as int), rv),
            decreases data.findings.len() - i,
        {
            write_finding_html(out, &data.findings[i], root);
            assert(data.findings@.take(i + 1).drop_last() =~= data.findings@.take(i as int));
            assert(out@ =~= head + findings_html(data.findings@.take(i + 1), rv));
            i = i + 1;
        }
        assert(data.findings@.take(data.findings.len() as int) =~= data.findings@);
        out.append("</tbody></table>\n");
        assert(out@ =~= start + HTML_FINDINGS_HEAD@ + findings_html(data.findings@, rv)
            + "</tbody></table>\n"@);
    }
}

/// The HTML report for `data`.
pub fn render_html_report(data: &ReportData) -> (r: String)
    ensures
        r@ == html_report(*data),
{
    let root = opt_root(&data.root_path);
    let mut out = String::from_str(HTML_HEAD);
    match &data.project_id {
        Some(pid) => {
            out.append("<p><strong>Project:</strong> ");
            out.append(html_escape(pid.as_str()).as_str());
            out.append("</p>\n");
        },
        None => {},
    }
    write_coverage_html(&mut out, data, root);
    write_findings_html(&mut out, data, root);
    out.append("</body></html>\n");
    assert(out@ =~= html_report(*data));
    out
}

} // verus!
