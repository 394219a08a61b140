//! The JSON report of a scan, as a JSON tree.
use vstd::prelude::*;

use crate::json::{json_string, json_strings, json_u64, json_views, member_views, push_item, push_member, Json, JsonValue};
use crate::model::{
    opt_seq, severity_label, CveEvidenceLocation, CveRecord, CvssVersion, DeclView, DeclarationKind, Package,
    PackageDeclarationLocation, PackageView, Severity,
};
use crate::render::root_view;
use crate::report::{Finding, JsonReporter, ReportData, REPORT_JSON_SCHEMA_ID};
use crate::sarif::{coverage_entries, jnum, manifest_coverage_json, opt_member, root_seq};
use crate::sbom::score_of;

verus! {

/// The members an optional line number adds under `key`.
pub open spec fn opt_line_member(key: Seq<char>, v: Option<u32>) -> Seq<(Seq<char>, Json)> {
    match v {
        Some(n) => seq![(key, jnum(n))],
        None => Seq::empty(),
    }
}

/// A package: name, version, and the ecosystem when there is one.
pub open spec fn report_package_json(p: PackageView) -> Json {
    Json::Object(seq![("name"@, Json::Str(p.name)), ("version"@, Json::Str(p.version))] + opt_member("ecosystem"@, p.ecosystem))
}

/// Text of a declaration kind.
pub open spec fn declaration_kind_text(k: DeclarationKind) -> Seq<char> {
    match k {
        DeclarationKind::Manifest => "manifest"@,
        DeclarationKind::Lockfile => "lockfile"@,
    }
}

/// A declaration: path, start line, end line when there is one, kind.
pub open spec fn report_declaration_json(d: DeclView) -> Json {
    Json::Object(
        seq![("path"@, Json::Str(d.path)), ("start_line"@, jnum(d.start_line))] + opt_line_member("end_line"@, d.end_line)
            + seq![("kind"@, Json::Str(declaration_kind_text(d.kind)))],
    )
}

/// An evidence location: path, start line, end line when there is one,
/// symbol.
pub open spec fn report_evidence_json(e: CveEvidenceLocation) -> Json {
    Json::Object(
        seq![("path"@, Json::Str(e.path@)), ("start_line"@, jnum(e.start_line))] + opt_line_member("end_line"@, e.end_line)
            + seq![("symbol"@, Json::Str(e.symbol@))],
    )
}

/// Text of a CVSS version.
pub open spec fn cvss_version_text(v: CvssVersion) -> Seq<char> {
    match v {
        CvssVersion::V2 => "v2"@,
        CvssVersion::V3 => "v3"@,
        CvssVersion::V4 => "v4"@,
    }
}

/// A CVE with its severity: id, score (a number, or null), CVSS version
/// (or null), description, reachability (or null), then the advisory
/// symbols and evidence when there are any and the symbol usage when there
/// is one, and last the severity label.
pub open spec fn report_cve_json(c: CveRecord, sev: Severity, score: Option<Seq<char>>) -> Json {
    Json::Object(
        seq![
            ("id"@, Json::Str(c.id@)),
            ("cvss_score"@, match score {
                Some(t) => Json::Number(t),
                None => Json::Null,
            }),
            ("cvss_version"@, match c.cvss_version {
                Some(v) => Json::Str(cvss_version_text(v)),
                None => Json::Null,
            }),
            ("description"@, Json::Str(c.description@)),
            ("reachable"@, match c.reachable {
                Some(b) => Json::Bool(b),
                None => Json::Null,
            }),
        ] + (if c.advisory_symbols@.len() > 0 {
            seq![("advisory_symbols"@, Json::Array(c.advisory_symbols@.map_values(|s: String| Json::Str(s@))))]
        } else {
            Seq::empty()
        }) + (if c.evidence@.len() > 0 {
            seq![("evidence"@, Json::Array(c.evidence@.map_values(|e: CveEvidenceLocation| report_evidence_json(e))))]
        } else {
            Seq::empty()
        }) + opt_member("symbol_usage"@, opt_seq(c.symbol_usage)) + seq![("severity"@, Json::Str(severity_label(sev)))],
    )
}

/// The CVEs of finding `i`, each with the score `scores` gives it.
pub open spec fn report_cves_json(f: Finding, i: int, scores: Seq<Vec<Option<String>>>) -> Seq<Json> {
    Seq::new(f.cves@.len(), |j: int| report_cve_json(f.cves@[j].0, f.cves@[j].1, score_of(scores, i, j)))
}

/// Finding `i`: package, manifest paths, declarations when there are any,
/// and CVEs.
pub open spec fn report_finding_json(f: Finding, i: int, scores: Seq<Vec<Option<String>>>) -> Json {
    Json::Object(
        seq![
            ("package"@, report_package_json(f.package@)),
            ("manifest_paths"@, Json::Array(f.manifest_paths@.map_values(|s: String| Json::Str(s@)))),
        ] + (if f.declarations@.len() > 0 {
            seq![(
                "declarations"@,
                Json::Array(f.declarations@.map_values(|d: PackageDeclarationLocation| report_declaration_json(d@))),
            )]
        } else {
            Seq::empty()
        }) + seq![("cves"@, Json::Array(report_cves_json(f, i, scores)))],
    )
}

/// The JSON report: schema, project id when given, manifest coverage (paths
/// shown relative to the root) and findings. `scores[i][j]` is the CVSS
/// score text (a JSON number) of CVE `j` of finding `i`, when it has one.
pub open spec fn json_report_document(d: ReportData, scores: Seq<Vec<Option<String>>>) -> Json {
    Json::Object(
        seq![("$schema"@, Json::Str(REPORT_JSON_SCHEMA_ID@))] + opt_member("project_id"@, opt_seq(d.project_id)) + seq![
            ("manifest_coverage"@, Json::Array(coverage_entries(d.manifest_coverage@, root_view(d)))),
            (
                "findings"@,
                Json::Array(Seq::new(d.findings@.len(), |i: int| report_finding_json(d.findings@[i], i, scores))),
            ),
        ],
    )
}

fn line_json(n: u32) -> (r: JsonValue)
    ensures
        r@ == jnum(n),
{
    json_u64(n as u64)
}

fn push_opt_line(members: &mut Vec<(String, JsonValue)>, key: &str, v: Option<u32>)
    ensures
        member_views(final(members)@) == member_views(old(members)@) + opt_line_member(key@, v),
{
    match v {
        Some(n) => push_member(members, key, line_json(n)),
        None => {
            assert(member_views(old(members)@) + opt_line_member(key@, v) =~= member_views(old(members)@));
        },
    }
}

fn push_opt_text(members: &mut Vec<(String, JsonValue)>, key: &str, v: &Option<String>)
    ensures
        member_views(final(members)@) == member_views(old(members)@) + opt_member(key@, opt_seq(*v)),
{
    match v {
        Some(x) => push_member(members, key, json_string(x.as_str())),
        None => {
            assert(member_views(old(members)@) + opt_member(key@, opt_seq(*v)) =~= member_views(old(members)@));
        },
    }
}

fn package_json(p: &Package) -> (r: JsonValue)
    ensures
        r@ == report_package_json(p@),
{
    let mut m: Vec<(String, JsonValue)> = Vec::new();
    push_member(&mut m, "name", json_string(p.name.as_str()));
    push_member(&mut m, "version", json_string(p.version.as_str()));
    push_opt_text(&mut m, "ecosystem", &p.ecosystem);
    assert(member_views(m@) =~= seq![("name"@, Json::Str(p@.name)), ("version"@, Json::Str(p@.version))] + opt_member(
        "ecosystem"@,
        p@.ecosystem,
    ));
    JsonValue::Object(m)
}

fn declaration_json(d: &PackageDeclarationLocation) -> (r: JsonValue)
    ensures
        r@ == report_declaration_json(d@),
{
    let mut m: Vec<(String, JsonValue)> = Vec::new();
    push_member(&mut m, "path", json_string(d.path.as_str()));
    push_member(&mut m, "start_line", line_json(d.start_line));
    push_opt_line(&mut m, "end_line", d.end_line);
    let kind = match d.kind {
        DeclarationKind::Manifest => "manifest",
        DeclarationKind::Lockfile => "lockfile",
    };
    push_member(&mut m, "kind", json_string(kind));
    assert(member_views(m@) =~= seq![("path"@, Json::Str(d@.path)), ("start_line"@, jnum(d@.start_line))]
        + opt_line_member("end_line"@, d@.end_line) + seq![("kind"@, Json::Str(declaration_kind_text(d@.kind)))]);
    JsonValue::Object(m)
}

fn evidence_json(e: &CveEvidenceLocation) -> (r: JsonValue)
    ensures
        r@ == report_evidence_json(*e),
{
    let mut m: Vec<(String, JsonValue)> = Vec::new();
    push_member(&mut m, "path", json_string(e.path.as_str()));
    push_member(&mut m, "start_line", line_json(e.start_line));
    push_opt_line(&mut m, "end_line", e.end_line);
    push_member(&mut m, "symbol", json_string(e.symbol.as_str()));
    assert(member_views(m@) =~= seq![("path"@, Json::Str(e.path@)), ("start_line"@, jnum(e.start_line))]
        + opt_line_member("end_line"@, e.end_line) + seq![("symbol"@, Json::Str(e.symbol@))]);
    JsonValue::Object(m)
}

fn cve_json(c: &CveRecord, sev: Severity, score: Option<&str>) -> (r: JsonValue)
    ensures
        r@ == report_cve_json(*c, sev, root_seq(score)),
{
    let mut m: Vec<(String, JsonValue)> = Vec::new();
    push_member(&mut m, "id", json_string(c.id.as_str()));
    let score_value = match score {
        Some(t) => JsonValue::Number(String::from_str(t)),
        None => JsonValue::Null,
    };
    push_member(&mut m, "cvss_score", score_value);
    let version_value = match c.cvss_version {
        Some(CvssVersion::V2) => json_string("v2"),
        Some(CvssVersion::V3) => json_string("v3"),
        Some(CvssVersion::V4) => json_string("v4"),
        None => JsonValue::Null,
    };
    push_member(&mut m, "cvss_version", version_value);
    push_member(&mut m, "description", json_string(c.description.as_str()));
    let reach_value = match c.reachable {
        Some(b) => JsonValue::Bool(b),
        None => JsonValue::Null,
    };
    push_member(&mut m, "reachable", reach_value);
    let ghost head = member_views(m@);
    assert(head =~= seq![
        ("id"@, Json::Str(c.id@)),
        ("cvss_score"@, match root_seq(score) {
            Some(t) => Json::Number(t),
            None => Json::Null,
        }),
        ("cvss_version"@, match c.cvss_version {
            Some(v) => Json::Str(cvss_version_text(v)),
            None => Json::Null,
        }),
        ("description"@, Json::Str(c.description@)),
        ("reachable"@, match c.reachable {
            Some(b) => Json::Bool(b),
            None => Json::Null,
        }),
    ]);
    if c.advisory_symbols.len() > 0 {
        push_member(&mut m, "advisory_symbols", json_strings(c.advisory_symbols.as_slice()));
    }
    let ghost with_symbols = member_views(m@);
    assert(with_symbols =~= head + (if c.advisory_symbols@.len() > 0 {
        seq![("advisory_symbols"@, Json::Array(c.advisory_symbols@.map_values(|s: String| Json::Str(s@))))]
    } else {
        Seq::<(Seq<char>, Json)>::empty()
    }));
    if c.evidence.len() > 0 {
        let mut items: Vec<JsonValue> = Vec::new();
        let mut k: usize = 0;
        while k < c.evidence.len()
            invariant
                k <= c.evidence.len(),
                json_views(items@) =~= c.evidence@.take(k as int).map_values(
                    |e: CveEvidenceLocation| report_evidence_json(e),
                ),
            decreases c.evidence.len() - k,
        {
            push_item(&mut items, evidence_json(&c.evidence[k]));
            assert(c.evidence@.take(k + 1) =~= c.evidence@.take(k as int).push(c.evidence@[k as int]));
            k = k + 1;
        }
        assert(c.evidence@.take(c.evidence.len() as int) =~= c.evidence@);
        push_member(&mut m, "evidence", JsonValue::Array(items));
    }
    let ghost with_evidence = member_views(m@);
    assert(with_evidence =~= with_symbols + (if c.evidence@.len() > 0 {
        seq![("evidence"@, Json::Array(c.evidence@.map_values(|e: CveEvidenceLocation| report_evidence_json(e))))]
    } else {
        Seq::<(Seq<char>, Json)>::empty()
    }));
    push_opt_text(&mut m, "symbol_usage", &c.symbol_usage);
    push_member(&mut m, "severity", json_string(sev.as_str()));
    assert(member_views(m@) =~= match report_cve_json(*c, sev, root_seq(score)) {
        Json::Object(x) => x,
        _ => Seq::empty(),
    });
    JsonValue::Object(m)
}

fn score_text(scores: &Vec<Vec<Option<String>>>, i: usize, j: usize) -> (r: Option<&str>)
    ensures
        root_seq(r) == score_of(scores@, i as int, j as int),
{
    if i < scores.len() && j < scores[i].len() {
        match &scores[i][j] {
            Some(t) => Some(t.as_str()),
            None => None,
        }
    } else {
        None
    }
}

fn finding_json(f: &Finding, i: usize, scores: &Vec<Vec<Option<String>>>) -> (r: JsonValue)
    ensures
        r@ == report_finding_json(*f, i as int, scores@),
{
    let mut m: Vec<(String, JsonValue)> = Vec::new();
    push_member(&mut m, "package", package_json(&f.package));
    push_member(&mut m, "manifest_paths", json_strings(f.manifest_paths.as_slice()));
    let ghost head = member_views(m@);
    if f.declarations.len() > 0 {
        let mut items: Vec<JsonValue> = Vec::new();
        let mut k: usize = 0;
        while k < f.declarations.len()
            invariant
                k <= f.declarations.len(),
                json_views(items@) =~= f.declarations@.take(k as int).map_values(
                    |d: PackageDeclarationLocation| report_declaration_json(d@),
                ),
            decreases f.declarations.len() - k,
        {
            push_item(&mut items, declaration_json(&f.declarations[k]));
            assert(f.declarations@.take(k + 1) =~= f.declarations@.take(k as int).push(f.declarations@[k as int]));
            k = k + 1;
        }
        assert(f.declarations@.take(f.declarations.len() as int) =~= f.declarations@);
        push_member(&mut m, "declarations", JsonValue::Array(items));
    }
    let ghost with_decls = member_views(m@);
    assert(with_decls =~= head + (if f.declarations@.len() > 0 {
        seq![(
            "declarations"@,
            Json::Array(f.declarations@.map_values(|d: PackageDeclarationLocation| report_declaration_json(d@))),
        )]
    } else {
        Seq::<(Seq<char>, Json)>::empty()
    }));
    let mut cves: Vec<JsonValue> = Vec::new();
    let mut j: usize = 0;
    while j < f.cves.len()
        invariant
            j <= f.cves.len(),
            json_views(cves@) =~= report_cves_json(*f, i as int, scores@).take(j as int),
        decreases f.cves.len() - j,
    {
        let (cve, sev) = &f.cves[j];
        push_item(&mut cves, cve_json(cve, *sev, score_text(scores, i, j)));
        assert(report_cves_json(*f, i as int, scores@).take(j + 1) =~= report_cves_json(*f, i as int, scores@).take(
            j as int,
        ).push(report_cves_json(*f, i as int, scores@)[j as int]));
        j = j + 1;
    }
    assert(report_cves_json(*f, i as int, scores@).take(f.cves.len() as int) =~= report_cves_json(
        *f,
        i as int,
        scores@,
    ));
    push_member(&mut m, "cves", JsonValue::Array(cves));
    assert(member_views(m@) =~= match report_finding_json(*f, i as int, scores@) {
        Json::Object(x) => x,
        _ => Seq::empty(),
    });
    JsonValue::Object(m)
}

fn opt_root(root: &Option<String>) -> (r: Option<&str>)
    ensures
        root_seq(r) == opt_seq(*root),
{
    match root {
        Some(s) => Some(s.as_str()),
        None => None,
    }
}

impl JsonReporter {
    /// The JSON report of a scan (`json_report_document`). `scores[i][j]`
    /// is the CVSS score text (a JSON number) of CVE `j` of finding `i`,
    /// when it has one.
    pub fn document(&self, data: &ReportData, scores: &Vec<Vec<Option<String>>>) -> (r: JsonValue)
        ensures
            r@ == json_report_document(*data, scores@),
    {
        let mut m: Vec<(String, JsonValue)> = Vec::new();
        push_member(&mut m, "$schema", json_string(REPORT_JSON_SCHEMA_ID));
        push_opt_text(&mut m, "project_id", &data.project_id);
        let coverage = manifest_coverage_json(data.manifest_coverage.as_slice(), opt_root(&data.root_path));
        push_member(&mut m, "manifest_coverage", JsonValue::Array(coverage));
        let mut findings: Vec<JsonValue> = Vec::new();
        let ghost expected = Seq::new(
            data.findings@.len(),
            |i: int| report_finding_json(data.findings@[i], i, scores@),
        );
        let mut i: usize = 0;
        while i < data.findings.len()
            invariant
                i <= data.findings.len(),
                expected == Seq::new(
                    data.findings@.len(),
                    |i: int| report_finding_json(data.findings@[i], i, scores@),
                ),
                json_views(findings@) =~= expected.take(i as int),
            decreases data.findings.len() - i,
        {
            push_item(&mut findings, finding_json(&data.findings[i], i, scores));
            assert(expected.take(i + 1) =~= expected.take(i as int).push(expected[i as int]));
            i = i + 1;
        }
        assert(expected.take(data.findings.len() as int) =~= expected);
        push_member(&mut m, "findings", JsonValue::Array(findings));
        proof {
            assert(root_view(*data) == opt_seq(data.root_path));
        }
        assert(member_views(m@) =~= seq![("$schema"@, Json::Str(REPORT_JSON_SCHEMA_ID@))] + opt_member(
            "project_id"@,
            opt_seq(data.project_id),
        ) + seq![
            ("manifest_coverage"@, Json::Array(coverage_entries(data.manifest_coverage@, root_view(*data)))),
            ("findings"@, Json::Array(expected)),
        ]);
        JsonValue::Object(m)
    }
}

} // verus!
