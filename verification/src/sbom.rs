//! The SBOM documents of a report: CycloneDX 1.6 and SPDX 3.0, as JSON
//! trees.
use vstd::prelude::*;
use vstd::string::*;

use crate::json::{
    append_items, json_object1, json_string, json_views, member_views, push_item, push_member,
    Json, JsonValue,
};
use crate::model::{
    opt_seq, CveRecord, CvssVersion, Package, PackageView, Severity, CRATES_IO_ECOSYSTEM,
    GO_ECOSYSTEM,
};
use crate::report::{CycloneDxReporter, Finding, ReportData, SpdxReporter};
use crate::sarif::{jobj1, NVD_DETAIL_URI_PREFIX};
use crate::text::{chars_of, join_seqs, join_strings, str_eq, string_of};
use crate::time::{format_timestamp_at, rfc3339_of_secs};

verus! {

/// PURL type of an ecosystem: `cargo` for crates.io, `golang` for Go,
/// `pypi` otherwise.
pub open spec fn purl_type(eco: Option<Seq<char>>) -> Seq<char> {
    match eco {
        Some(e) => if e == CRATES_IO_ECOSYSTEM@ {
            "cargo"@
        } else if e == GO_ECOSYSTEM@ {
            "golang"@
        } else {
            "pypi"@
        },
        None => "pypi"@,
    }
}

/// The PURL of a package in the SBOMs: `pkg:<type>/<name>@<version>`.
pub open spec fn sbom_purl(p: PackageView) -> Seq<char> {
    "pkg:"@ + purl_type(p.ecosystem) + "/"@ + p.name + "@"@ + p.version
}

fn opt_str(o: &Option<String>) -> (r: Option<&str>)
    ensures
        match r {
            Some(x) => opt_seq(*o) == Some(x@),
            None => o.is_none(),
        },
{
    match o {
        Some(s) => Some(s.as_str()),
        None => None,
    }
}

/// PURL type of an ecosystem as the SBOM writers give it: `cargo` for
/// crates.io, `golang` for Go, `pypi` for every other ecosystem and for
/// none. (Package URLs elsewhere, `crate::purl::purl_for_package`, name
/// more types.)
fn bom_purl_type(ecosystem: Option<&str>) -> (r: &'static str)
    ensures
        r@ == purl_type(
            match ecosystem {
                Some(e) => Some(e@),
                None => None,
            },
        ),
{
    match ecosystem {
        Some(e) => if str_eq(e, CRATES_IO_ECOSYSTEM) {
            "cargo"
        } else if str_eq(e, GO_ECOSYSTEM) {
            "golang"
        } else {
            "pypi"
        },
        None => "pypi",
    }
}

/// The PURL of a package in an SBOM (`bom_purl_type`).
fn bom_purl(pkg: &Package) -> (r: String)
    ensures
        r@ == sbom_purl(pkg@),
{
    let mut out = String::from_str("pkg:");
    out.append(bom_purl_type(opt_str(&pkg.ecosystem)));
    out.append("/");
    out.append(pkg.name.as_str());
    out.append("@");
    out.append(pkg.version.as_str());
    out
}

/// SPDX id prefix of an ecosystem.
pub open spec fn spdx_prefix(eco: Option<Seq<char>>) -> Seq<char> {
    if purl_type(eco) == "cargo"@ {
        "pkg-cargo"@
    } else if purl_type(eco) == "golang"@ {
        "pkg-golang"@
    } else {
        "pkg-pypi"@
    }
}

/// `.`, `-` and `_` each turned into `-`.
pub open spec fn dashed(s: Seq<char>) -> Seq<char> {
    s.map_values(|c: char| if c == '.' || c == '-' || c == '_' { '-' } else { c })
}

/// `.` turned into `-`.
pub open spec fn dots_dashed(s: Seq<char>) -> Seq<char> {
    s.map_values(|c: char| if c == '.' { '-' } else { c })
}

/// SPDX id of a package.
pub open spec fn spdx_pkg_id(p: PackageView) -> Seq<char> {
    "urn:spdx.dev:"@ + spdx_prefix(p.ecosystem) + "-"@ + dashed(p.name) + "-"@ + dashed(p.version)
}

/// SPDX id of a vulnerability.
pub open spec fn spdx_vuln_id(id: Seq<char>) -> Seq<char> {
    "urn:spdx.dev:vuln-"@ + dots_dashed(id)
}

/// SPDX id prefix for an ecosystem.
pub fn spdx_id_prefix_for_ecosystem(ecosystem: Option<&str>) -> (r: &'static str)
    ensures
        r@ == spdx_prefix(
            match ecosystem {
                Some(e) => Some(e@),
                None => None,
            },
        ),
{
    let t = bom_purl_type(ecosystem);
    proof {
        reveal_strlit("cargo");
        reveal_strlit("golang");
        reveal_strlit("pypi");
    }
    if str_eq(t, "cargo") {
        "pkg-cargo"
    } else if str_eq(t, "golang") {
        "pkg-golang"
    } else {
        "pkg-pypi"
    }
}

fn append_dashed(out: &mut String, s: &str, all: bool)
    ensures
        final(out)@ == old(out)@ + if all {
            dashed(s@)
        } else {
            dots_dashed(s@)
        },
{
    let v = chars_of(s);
    let mut w: Vec<char> = Vec::new();
    let mut i: usize = 0;
    while i < v.len()
        invariant
            i <= v.len(),
            v@ == s@,
            w@ =~= if all {
                dashed(v@.take(i as int))
            } else {
                dots_dashed(v@.take(i as int))
            },
        decreases v.len() - i,
    {
        let c = v[i];
        let d = if c == '.' || (all && (c == '-' || c == '_')) {
            '-'
        } else {
            c
        };
        w.push(d);
        assert(v@.take(i + 1) =~= v@.take(i as int).push(c));
        i = i + 1;
    }
    assert(v@.take(v.len() as int) =~= v@);
    let t = string_of(w.as_slice());
    out.append(t.as_str());
}

/// SPDX id of a package: its ecosystem prefix, name and version with `.`,
/// `-` and `_` turned into `-`.
pub fn spdx_id_pkg(pkg: &Package) -> (r: String)
    ensures
        r@ == spdx_pkg_id(pkg@),
{
    let mut out = String::from_str("urn:spdx.dev:");
    out.append(spdx_id_prefix_for_ecosystem(opt_str(&pkg.ecosystem)));
    out.append("-");
    append_dashed(&mut out, pkg.name.as_str(), true);
    out.append("-");
    append_dashed(&mut out, pkg.version.as_str(), true);
    out
}

/// SPDX id of a vulnerability: the CVE id with `.` turned into `-`.
pub fn spdx_id_vuln(cve_id: &str) -> (r: String)
    ensures
        r@ == spdx_vuln_id(cve_id@),
{
    let mut out = String::from_str("urn:spdx.dev:vuln-");
    append_dashed(&mut out, cve_id, false);
    out
}

/// The packages an SBOM lists: all resolved packages when the report has
/// them, else the packages of the findings.
pub open spec fn sbom_packages(d: ReportData) -> Seq<PackageView> {
    match d.all_packages {
        Some(v) => v@.map_values(|p: Package| p@),
        None => d.findings@.map_values(|f: Finding| f.package@),
    }
}

/// Manifest paths of a finding joined by `; `.
pub open spec fn joined_paths(f: Finding) -> Seq<char> {
    join_seqs(f.manifest_paths@.map_values(|s: String| s@), "; "@)
}

/// CycloneDX component of a package.
pub open spec fn cdx_component(p: PackageView) -> Json {
    Json::Object(
        seq![
            ("type"@, Json::Str("library"@)),
            ("name"@, Json::Str(p.name)),
            ("version"@, Json::Str(p.version)),
            ("bom-ref"@, Json::Str(sbom_purl(p))),
            ("purl"@, Json::Str(sbom_purl(p))),
        ],
    )
}

/// CycloneDX rating method of a CVSS version (CVSSv3 when unknown).
pub open spec fn cdx_method(v: Option<CvssVersion>) -> Seq<char> {
    match v {
        Some(CvssVersion::V2) => "CVSSv2"@,
        Some(CvssVersion::V4) => "CVSSv4"@,
        _ => "CVSSv3"@,
    }
}

/// CycloneDX severity name.
pub open spec fn cdx_severity(s: Severity) -> Seq<char> {
    match s {
        Severity::Critical => "Critical"@,
        Severity::High => "High"@,
        Severity::Medium => "Medium"@,
        Severity::Low => "Low"@,
        Severity::Unknown => "Unknown"@,
    }
}

/// The score text given for CVE `j` of finding `i`, if any.
pub open spec fn score_of(scores: Seq<Vec<Option<String>>>, i: int, j: int) -> Option<Seq<char>> {
    if 0 <= i < scores.len() && 0 <= j < scores[i]@.len() {
        opt_seq(scores[i]@[j])
    } else {
        None
    }
}

/// A CycloneDX vulnerability: id, description, the affected component,
/// the manifest paths, and a rating when a score is given.
pub open spec fn cdx_vulnerability(f: Finding, cve: CveRecord, sev: Severity, score: Option<Seq<char>>) -> Json {
    Json::Object(
        seq![
            ("id"@, Json::Str(cve.id@)),
            ("description"@, Json::Str(cve.description@)),
            ("affects"@, Json::Array(seq![jobj1("ref"@, Json::Str(sbom_purl(f.package@)))])),
            (
                "properties"@,
                Json::Array(
                    seq![
                        Json::Object(
                            seq![
                                ("name"@, Json::Str("vlz:manifest_paths"@)),
                                ("value"@, Json::Str(joined_paths(f))),
                            ],
                        ),
                    ],
                ),
            ),
        ] + match score {
            Some(t) => seq![
                (
                    "ratings"@,
                    Json::Array(
                        seq![
                            Json::Object(
                                seq![
                                    ("method"@, Json::Str(cdx_method(cve.cvss_version))),
                                    ("score"@, Json::Number(t)),
                                    ("severity"@, Json::Str(cdx_severity(sev))),
                                ],
                            ),
                        ],
                    ),
                ),
            ],
            None => Seq::empty(),
        },
    )
}

/// The CycloneDX vulnerabilities of finding `i`.
pub open spec fn cdx_finding_vulns(f: Finding, i: int, scores: Seq<Vec<Option<String>>>) -> Seq<Json> {
    Seq::new(
        f.cves@.len(),
        |j: int| cdx_vulnerability(f, f.cves@[j].0, f.cves@[j].1, score_of(scores, i, j)),
    )
}

/// The CycloneDX vulnerabilities of all findings, in order.
pub open spec fn cdx_vulns(fs: Seq<Finding>, scores: Seq<Vec<Option<String>>>) -> Seq<Json>
    decreases fs.len(),
{
    if fs.len() == 0 {
        Seq::empty()
    } else {
        cdx_vulns(fs.drop_last(), scores) + cdx_finding_vulns(fs.last(), fs.len() - 1, scores)
    }
}

/// The CycloneDX 1.6 BOM of a report at Unix time `now`: metadata
/// (timestamp, tool, project id), one component per listed package and one
/// vulnerability per finding and CVE.
pub open spec fn cyclonedx_document(d: ReportData, now: nat, scores: Seq<Vec<Option<String>>>) -> Json {
    let metadata = Json::Object(
        seq![
            ("timestamp"@, Json::Str(rfc3339_of_secs(now))),
            (
                "tools"@,
                Json::Array(
                    seq![Json::Object(seq![("name"@, Json::Str("vlz"@)), ("vendor"@, Json::Str("verilyze"@))])],
                ),
            ),
        ] + match opt_seq(d.project_id) {
            Some(pid) => seq![
                (
                    "properties"@,
                    Json::Array(
                        seq![Json::Object(seq![("name"@, Json::Str("vlz:project_id"@)), ("value"@, Json::Str(pid))])],
                    ),
                ),
            ],
            None => Seq::empty(),
        },
    );
    Json::Object(
        seq![
            ("bomFormat"@, Json::Str("CycloneDX"@)),
            ("specVersion"@, Json::Str("1.6"@)),
            ("version"@, Json::Number("1"@)),
            ("metadata"@, metadata),
            ("components"@, Json::Array(sbom_packages(d).map_values(|p: PackageView| cdx_component(p)))),
            ("vulnerabilities"@, Json::Array(cdx_vulns(d.findings@, scores))),
        ],
    )
}

/// The CycloneDX component of a package.
pub fn cyclonedx_component(p: &Package) -> (r: JsonValue)
    ensures
        r@ == cdx_component(p@),
{
    let purl = bom_purl(p);
    let mut m: Vec<(String, JsonValue)> = Vec::new();
    push_member(&mut m, "type", json_string("library"));
    push_member(&mut m, "name", json_string(p.name.as_str()));
    push_member(&mut m, "version", json_string(p.version.as_str()));
    push_member(&mut m, "bom-ref", json_string(purl.as_str()));
    push_member(&mut m, "purl", JsonValue::String(purl));
    assert(member_views(m@) =~= seq![
        ("type"@, Json::Str("library"@)),
        ("name"@, Json::Str(p@.name)),
        ("version"@, Json::Str(p@.version)),
        ("bom-ref"@, Json::Str(sbom_purl(p@))),
        ("purl"@, Json::Str(sbom_purl(p@))),
    ]);
    JsonValue::Object(m)
}

fn cyclonedx_components(data: &ReportData) -> (r: Vec<JsonValue>)
    ensures
        json_views(r@) == sbom_packages(*data).map_values(|p: PackageView| cdx_component(p)),
{
    let mut out: Vec<JsonValue> = Vec::new();
    match &data.all_packages {
        Some(pkgs) => {
            let mut i: usize = 0;
            while i < pkgs.len()
                invariant
                    i <= pkgs.len(),
                    json_views(out@) =~= pkgs@.take(i as int).map_values(|p: Package| p@).map_values(
                        |p: PackageView| cdx_component(p),
                    ),
                decreases pkgs.len() - i,
            {
                push_item(&mut out, cyclonedx_component(&pkgs[i]));
                assert(pkgs@.take(i + 1) =~= pkgs@.take(i as int).push(pkgs@[i as int]));
                i = i + 1;
            }
            assert(pkgs@.take(pkgs.len() as int) =~= pkgs@);
        },
        None => {
            let fs = &data.findings;
            let mut i: usize = 0;
            while i < fs.len()
                invariant
                    i <= fs.len(),
                    json_views(out@) =~= fs@.take(i as int).map_values(|f: Finding| f.package@).map_values(
                        |p: PackageView| cdx_component(p),
                    ),
                decreases fs.len() - i,
            {
                push_item(&mut out, cyclonedx_component(&fs[i].package));
                assert(fs@.take(i + 1) =~= fs@.take(i as int).push(fs@[i as int]));
                i = i + 1;
            }
            assert(fs@.take(fs.len() as int) =~= fs@);
        },
    }
    out
}

fn cdx_method_name(v: Option<CvssVersion>) -> (r: &'static str)
    ensures
        r@ == cdx_method(v),
{
    match v {
        Some(CvssVersion::V2) => "CVSSv2",
        Some(CvssVersion::V4) => "CVSSv4",
        _ => "CVSSv3",
    }
}

fn cdx_severity_name(s: Severity) -> (r: &'static str)
    ensures
        r@ == cdx_severity(s),
{
    match s {
        Severity::Critical => "Critical",
        Severity::High => "High",
        Severity::Medium => "Medium",
        Severity::Low => "Low",
        Severity::Unknown => "Unknown",
    }
}

/// A CycloneDX vulnerability of a finding's CVE, rated when a score text is
/// given.
pub fn cyclonedx_vulnerability(f: &Finding, cve: &CveRecord, sev: Severity, score: Option<&str>) -> (r: JsonValue)
    ensures
        r@ == cdx_vulnerability(
            *f,
            *cve,
            sev,
            match score {
                Some(t) => Some(t@),
                None => None,
            },
        ),
{
    let purl = bom_purl(&f.package);
    let mut affects: Vec<JsonValue> = Vec::new();
    push_item(&mut affects, json_object1("ref", JsonValue::String(purl)));
    assert(json_views(affects@) =~= seq![jobj1("ref"@, Json::Str(sbom_purl(f.package@)))]);
    let mut prop: Vec<(String, JsonValue)> = Vec::new();
    push_member(&mut prop, "name", json_string("vlz:manifest_paths"));
    push_member(&mut prop, "value", JsonValue::String(join_strings(f.manifest_paths.as_slice(), "; ")));
    assert(member_views(prop@) =~= seq![("name"@, Json::Str("vlz:manifest_paths"@)), ("value"@, Json::Str(joined_paths(*f)))]);
    let mut props: Vec<JsonValue> = Vec::new();
    push_item(&mut props, JsonValue::Object(prop));
    assert(json_views(props@) =~= seq![
        Json::Object(seq![("name"@, Json::Str("vlz:manifest_paths"@)), ("value"@, Json::Str(joined_paths(*f)))]),
    ]);
    let mut m: Vec<(String, JsonValue)> = Vec::new();
    push_member(&mut m, "id", json_string(cve.id.as_str()));
    push_member(&mut m, "description", json_string(cve.description.as_str()));
    push_member(&mut m, "affects", JsonValue::Array(affects));
    push_member(&mut m, "properties", JsonValue::Array(props));
    match score {
        Some(t) => {
            let mut rating: Vec<(String, JsonValue)> = Vec::new();
            push_member(&mut rating, "method", json_string(cdx_method_name(cve.cvss_version)));
            push_member(&mut rating, "score", JsonValue::Number(String::from_str(t)));
            push_member(&mut rating, "severity", json_string(cdx_severity_name(sev)));
            let mut ratings: Vec<JsonValue> = Vec::new();
            assert(member_views(rating@) =~= seq![
                ("method"@, Json::Str(cdx_method(cve.cvss_version))),
                ("score"@, Json::Number(t@)),
                ("severity"@, Json::Str(cdx_severity(sev))),
            ]);
            push_item(&mut ratings, JsonValue::Object(rating));
            assert(json_views(ratings@) =~= seq![
                Json::Object(
                    seq![
                        ("method"@, Json::Str(cdx_method(cve.cvss_version))),
                        ("score"@, Json::Number(t@)),
                        ("severity"@, Json::Str(cdx_severity(sev))),
                    ],
                ),
            ]);
            push_member(&mut m, "ratings", JsonValue::Array(ratings));
        },
        None => {},
    }
    proof {
        assert(member_views(m@) =~= match cdx_vulnerability(
            *f,
            *cve,
            sev,
            match score {
                Some(t) => Some(t@),
                None => None,
            },
        ) {
            Json::Object(x) => x,
            _ => Seq::empty(),
        });
    }
    JsonValue::Object(m)
}

fn score_text(scores: &Vec<Vec<Option<String>>>, i: usize, j: usize) -> (r: Option<&str>)
    ensures
        match r {
            Some(t) => score_of(scores@, i as int, j as int) == Some(t@),
            None => score_of(scores@, i as int, j as int) is None,
        },
{
    if i < scores.len() && j < scores[i].len() {
        match &scores[i][j] {
            Some(t) => Some(t.as_str()),
            None => None,
        }
    } else {
        None
    }
}

fn cyclonedx_vulnerabilities(findings: &Vec<Finding>, scores: &Vec<Vec<Option<String>>>) -> (r: Vec<JsonValue>)
    ensures
        json_views(r@) == cdx_vulns(findings@, scores@),
{
    let mut out: Vec<JsonValue> = Vec::new();
    let mut i: usize = 0;
    while i < findings.len()
        invariant
            i <= findings.len(),
            json_views(out@) == cdx_vulns(findings@.take(i as int), scores@),
        decreases findings.len() - i,
    {
        let f = &findings[i];
        let mut part: Vec<JsonValue> = Vec::new();
        let mut j: usize = 0;
        while j < f.cves.len()
            invariant
                j <= f.cves.len(),
                i < findings.len(),
                *f == findings@[i as int],
                json_views(part@) =~= cdx_finding_vulns(*f, i as int, scores@).take(j as int),
            decreases f.cves.len() - j,
        {
            let (cve, sev) = &f.cves[j];
            push_item(&mut part, cyclonedx_vulnerability(f, cve, *sev, score_text(scores, i, j)));
            assert(cdx_finding_vulns(*f, i as int, scores@).take(j + 1) =~= cdx_finding_vulns(
                *f,
                i as int,
                scores@,
            ).take(j as int).push(cdx_finding_vulns(*f, i as int, scores@)[j as int]));
            j = j + 1;
        }
        assert(cdx_finding_vulns(*f, i as int, scores@).take(f.cves.len() as int) =~= cdx_finding_vulns(
            *f,
            i as int,
            scores@,
        ));
        append_items(&mut out, part);
        assert(findings@.take(i + 1).drop_last() =~= findings@.take(i as int));
        assert(findings@.take(i + 1).last() == *f);
        i = i + 1;
    }
    assert(findings@.take(findings.len() as int) =~= findings@);
    out
}

impl CycloneDxReporter {
    /// The CycloneDX 1.6 BOM of a report at Unix time `now`. `scores[i][j]`
    /// is the CVSS score text (a JSON number) of CVE `j` of finding `i`,
    /// when it has one.
    pub fn document_at(&self, data: &ReportData, now: u64, scores: &Vec<Vec<Option<String>>>) -> (r: JsonValue)
        ensures
            r@ == cyclonedx_document(*data, now as nat, scores@),
    {
        let mut tool: Vec<(String, JsonValue)> = Vec::new();
        push_member(&mut tool, "name", json_string("vlz"));
        push_member(&mut tool, "vendor", json_string("verilyze"));
        assert(member_views(tool@) =~= seq![("name"@, Json::Str("vlz"@)), ("vendor"@, Json::Str("verilyze"@))]);
        let mut tools: Vec<JsonValue> = Vec::new();
        push_item(&mut tools, JsonValue::Object(tool));
        assert(json_views(tools@) =~= seq![
            Json::Object(seq![("name"@, Json::Str("vlz"@)), ("vendor"@, Json::Str("verilyze"@))]),
        ]);
        let mut metadata: Vec<(String, JsonValue)> = Vec::new();
        push_member(&mut metadata, "timestamp", JsonValue::String(format_timestamp_at(now)));
        push_member(&mut metadata, "tools", JsonValue::Array(tools));
        match &data.project_id {
            Some(pid) => {
                let mut prop: Vec<(String, JsonValue)> = Vec::new();
                push_member(&mut prop, "name", json_string("vlz:project_id"));
                push_member(&mut prop, "value", json_string(pid.as_str()));
                assert(member_views(prop@) =~= seq![("name"@, Json::Str("vlz:project_id"@)), ("value"@, Json::Str(pid@))]);
                let mut props: Vec<JsonValue> = Vec::new();
                push_item(&mut props, JsonValue::Object(prop));
                assert(json_views(props@) =~= seq![
                    Json::Object(seq![("name"@, Json::Str("vlz:project_id"@)), ("value"@, Json::Str(pid@))]),
                ]);
                push_member(&mut metadata, "properties", JsonValue::Array(props));
            },
            None => {},
        }
        let ghost meta_members = member_views(metadata@);
        proof {
            assert(meta_members =~= match cyclonedx_document(*data, now as nat, scores@) {
                Json::Object(x) => match x[3].1 {
                    Json::Object(y) => y,
                    _ => Seq::empty(),
                },
                _ => Seq::empty(),
            });
        }
        let mut bom: Vec<(String, JsonValue)> = Vec::new();
        push_member(&mut bom, "bomFormat", json_string("CycloneDX"));
        push_member(&mut bom, "specVersion", json_string("1.6"));
        push_member(&mut bom, "version", JsonValue::Number(String::from_str("1")));
        push_member(&mut bom, "metadata", JsonValue::Object(metadata));
        push_member(&mut bom, "components", JsonValue::Array(cyclonedx_components(data)));
        push_member(&mut bom, "vulnerabilities", JsonValue::Array(cyclonedx_vulnerabilities(&data.findings, scores)));
        proof {
            assert(member_views(bom@) =~= match cyclonedx_document(*data, now as nat, scores@) {
                Json::Object(x) => x,
                _ => Seq::empty(),
            });
        }
        JsonValue::Object(bom)
    }

    /// The CycloneDX 1.6 BOM of a report, stamped with the current time.
    pub fn document(&self, data: &ReportData, scores: &Vec<Vec<Option<String>>>) -> (r: JsonValue)
        ensures
            exists|t: u64| r@ == cyclonedx_document(*data, t as nat, scores@),
    {
        let now = crate::db::unix_now_secs();
        self.document_at(data, now, scores)
    }
}

/// SPDX context URI.
pub const SPDX_CONTEXT_URI: &'static str = "https://spdx.org/rdf/3.0.1/spdx-context.jsonld";

/// SPDX package element.
pub open spec fn spdx_package(p: PackageView) -> Json {
    Json::Object(
        seq![
            ("@type"@, Json::Str("Package"@)),
            ("spdxId"@, Json::Str(spdx_pkg_id(p))),
            ("name"@, Json::Str(p.name)),
            ("versionInfo"@, Json::Str(p.version)),
            ("packageUrl"@, Json::Str(sbom_purl(p))),
        ],
    )
}

/// SPDX vulnerability element of a CVE.
pub open spec fn spdx_vulnerability(cve: CveRecord) -> Json {
    Json::Object(
        seq![
            ("@type"@, Json::Str("Vulnerability"@)),
            ("spdxId"@, Json::Str(spdx_vuln_id(cve.id@))),
            ("description"@, Json::Str(cve.description@)),
            (
                "externalIdentifier"@,
                Json::Object(
                    seq![
                        ("@type"@, Json::Str("ExternalIdentifier"@)),
                        ("externalIdentifierType"@, Json::Str("securityAdvisory"@)),
                        ("identifier"@, Json::Str(cve.id@)),
                        ("identifierLocation"@, Json::Str(NVD_DETAIL_URI_PREFIX@ + cve.id@)),
                    ],
                ),
            ),
        ],
    )
}

/// SPDX relationship of a finding's package to one of its CVEs, annotated
/// with the manifest paths when the finding has some.
pub open spec fn spdx_relationship(f: Finding, cve: CveRecord, stamp: Seq<char>) -> Json {
    Json::Object(
        seq![
            ("@type"@, Json::Str("Relationship"@)),
            ("relationshipType"@, Json::Str("hasAssociatedVulnerability"@)),
            ("from"@, Json::Str(spdx_pkg_id(f.package@))),
            ("to"@, Json::Array(seq![Json::Str(spdx_vuln_id(cve.id@))])),
        ] + if f.manifest_paths.len() > 0 {
            seq![
                (
                    "annotations"@,
                    Json::Array(
                        seq![
                            Json::Object(
                                seq![
                                    ("annotationType"@, Json::Str("review"@)),
                                    (
                                        "annotator"@,
                                        Json::Object(
                                            seq![
                                                ("annotatorType"@, Json::Str("tool"@)),
                                                ("name"@, Json::Str("vlz"@)),
                                            ],
                                        ),
                                    ),
                                    ("annotationDate"@, Json::Str(stamp)),
                                    ("comment"@, Json::Str("Manifest(s): "@ + joined_paths(f))),
                                ],
                            ),
                        ],
                    ),
                ),
            ]
        } else {
            Seq::empty()
        },
    )
}

/// Per finding and CVE, in order, the image of `g`.
pub open spec fn per_cve(fs: Seq<Finding>, g: spec_fn(Finding, CveRecord) -> Json) -> Seq<Json>
    decreases fs.len(),
{
    if fs.len() == 0 {
        Seq::empty()
    } else {
        per_cve(fs.drop_last(), g) + fs.last().cves@.map_values(|c: (CveRecord, Severity)| g(fs.last(), c.0))
    }
}

/// The SPDX 3.0 document of a report at Unix time `now`: package elements
/// then vulnerability elements, and one relationship per finding and CVE.
pub open spec fn spdx_document(d: ReportData, now: nat) -> Json {
    let stamp = rfc3339_of_secs(now);
    let elements = sbom_packages(d).map_values(|p: PackageView| spdx_package(p)) + per_cve(
        d.findings@,
        |f: Finding, c: CveRecord| spdx_vulnerability(c),
    );
    Json::Object(
        seq![
            ("@context"@, Json::Str(SPDX_CONTEXT_URI@)),
            ("@type"@, Json::Str("SpdxDocument"@)),
            ("spdxId"@, Json::Str("urn:spdx.dev:doc-"@ + crate::text::decimal(now))),
            (
                "creationInfo"@,
                Json::Object(
                    seq![
                        ("created"@, Json::Str(stamp)),
                        ("createdBy"@, Json::Array(seq![Json::Str("urn:spdx.dev:tool-vlz"@)])),
                        ("profile"@, Json::Array(seq![Json::Str("Core"@), Json::Str("Software"@)])),
                    ],
                ),
            ),
            ("element"@, Json::Array(elements)),
            (
                "relationship"@,
                Json::Array(per_cve(d.findings@, |f: Finding, c: CveRecord| spdx_relationship(f, c, stamp))),
            ),
        ] + match opt_seq(d.project_id) {
            Some(pid) => seq![("projectId"@, Json::Str(pid))],
            None => Seq::empty(),
        },
    )
}

fn spdx_package_json(p: &Package) -> (r: JsonValue)
    ensures
        r@ == spdx_package(p@),
{
    let mut m: Vec<(String, JsonValue)> = Vec::new();
    push_member(&mut m, "@type", json_string("Package"));
    push_member(&mut m, "spdxId", JsonValue::String(spdx_id_pkg(p)));
    push_member(&mut m, "name", json_string(p.name.as_str()));
    push_member(&mut m, "versionInfo", json_string(p.version.as_str()));
    push_member(&mut m, "packageUrl", JsonValue::String(bom_purl(p)));
    assert(member_views(m@) =~= match spdx_package(p@) {
        Json::Object(x) => x,
        _ => Seq::empty(),
    });
    JsonValue::Object(m)
}

fn spdx_packages(data: &ReportData) -> (r: Vec<JsonValue>)
    ensures
        json_views(r@) == sbom_packages(*data).map_values(|p: PackageView| spdx_package(p)),
{
    let mut out: Vec<JsonValue> = Vec::new();
    match &data.all_packages {
        Some(pkgs) => {
            let mut i: usize = 0;
            while i < pkgs.len()
                invariant
                    i <= pkgs.len(),
                    json_views(out@) =~= pkgs@.take(i as int).map_values(|p: Package| p@).map_values(
                        |p: PackageView| spdx_package(p),
                    ),
                decreases pkgs.len() - i,
            {
                push_item(&mut out, spdx_package_json(&pkgs[i]));
                assert(pkgs@.take(i + 1) =~= pkgs@.take(i as int).push(pkgs@[i as int]));
                i = i + 1;
            }
            assert(pkgs@.take(pkgs.len() as int) =~= pkgs@);
        },
        None => {
            let fs = &data.findings;
            let mut i: usize = 0;
            while i < fs.len()
                invariant
                    i <= fs.len(),
                    json_views(out@) =~= fs@.take(i as int).map_values(|f: Finding| f.package@).map_values(
                        |p: PackageView| spdx_package(p),
                    ),
                decreases fs.len() - i,
            {
                push_item(&mut out, spdx_package_json(&fs[i].package));
                assert(fs@.take(i + 1) =~= fs@.take(i as int).push(fs@[i as int]));
                i = i + 1;
            }
            assert(fs@.take(fs.len() as int) =~= fs@);
        },
    }
    out
}

fn spdx_vulnerability_json(cve: &CveRecord) -> (r: JsonValue)
    ensures
        r@ == spdx_vulnerability(*cve),
{
    let mut loc = String::from_str(NVD_DETAIL_URI_PREFIX);
    loc.append(cve.id.as_str());
    let mut ext: Vec<(String, JsonValue)> = Vec::new();
    push_member(&mut ext, "@type", json_string("ExternalIdentifier"));
    push_member(&mut ext, "externalIdentifierType", json_string("securityAdvisory"));
    push_member(&mut ext, "identifier", json_string(cve.id.as_str()));
    push_member(&mut ext, "identifierLocation", JsonValue::String(loc));
    let mut m: Vec<(String, JsonValue)> = Vec::new();
    push_member(&mut m, "@type", json_string("Vulnerability"));
    push_member(&mut m, "spdxId", JsonValue::String(spdx_id_vuln(cve.id.as_str())));
    push_member(&mut m, "description", json_string(cve.description.as_str()));
    proof {
        assert(member_views(ext@) =~= seq![
            ("@type"@, Json::Str("ExternalIdentifier"@)),
            ("externalIdentifierType"@, Json::Str("securityAdvisory"@)),
            ("identifier"@, Json::Str(cve.id@)),
            ("identifierLocation"@, Json::Str(NVD_DETAIL_URI_PREFIX@ + cve.id@)),
        ]);
    }
    push_member(&mut m, "externalIdentifier", JsonValue::Object(ext));
    assert(member_views(m@) =~= match spdx_vulnerability(*cve) {
        Json::Object(x) => x,
        _ => Seq::empty(),
    });
    JsonValue::Object(m)
}

fn spdx_relationship_json(f: &Finding, cve: &CveRecord, stamp: &str) -> (r: JsonValue)
    ensures
        r@ == spdx_relationship(*f, *cve, stamp@),
{
    let mut to: Vec<JsonValue> = Vec::new();
    push_item(&mut to, JsonValue::String(spdx_id_vuln(cve.id.as_str())));
    assert(json_views(to@) =~= seq![Json::Str(spdx_vuln_id(cve.id@))]);
    let mut m: Vec<(String, JsonValue)> = Vec::new();
    push_member(&mut m, "@type", json_string("Relationship"));
    push_member(&mut m, "relationshipType", json_string("hasAssociatedVulnerability"));
    push_member(&mut m, "from", JsonValue::String(spdx_id_pkg(&f.package)));
    push_member(&mut m, "to", JsonValue::Array(to));
    if f.manifest_paths.len() > 0 {
        let mut annotator: Vec<(String, JsonValue)> = Vec::new();
        push_member(&mut annotator, "annotatorType", json_string("tool"));
        push_member(&mut annotator, "name", json_string("vlz"));
        let mut comment = String::from_str("Manifest(s): ");
        comment.append(join_strings(f.manifest_paths.as_slice(), "; ").as_str());
        let mut a: Vec<(String, JsonValue)> = Vec::new();
        push_member(&mut a, "annotationType", json_string("review"));
        proof {
            assert(member_views(annotator@) =~= seq![
                ("annotatorType"@, Json::Str("tool"@)),
                ("name"@, Json::Str("vlz"@)),
            ]);
        }
        push_member(&mut a, "annotator", JsonValue::Object(annotator));
        push_member(&mut a, "annotationDate", json_string(stamp));
        push_member(&mut a, "comment", JsonValue::String(comment));
        let ghost a_members = member_views(a@);
        assert(a_members =~= seq![
            ("annotationType"@, Json::Str("review"@)),
            (
                "annotator"@,
                Json::Object(seq![("annotatorType"@, Json::Str("tool"@)), ("name"@, Json::Str("vlz"@))]),
            ),
            ("annotationDate"@, Json::Str(stamp@)),
            ("comment"@, Json::Str("Manifest(s): "@ + joined_paths(*f))),
        ]);
        let mut annotations: Vec<JsonValue> = Vec::new();
        push_item(&mut annotations, JsonValue::Object(a));
        assert(json_views(annotations@) =~= seq![Json::Object(a_members)]);
        push_member(&mut m, "annotations", JsonValue::Array(annotations));
    }
    assert(member_views(m@) =~= match spdx_relationship(*f, *cve, stamp@) {
        Json::Object(x) => x,
        _ => Seq::empty(),
    });
    JsonValue::Object(m)
}

fn spdx_vulnerabilities(findings: &Vec<Finding>) -> (r: Vec<JsonValue>)
    ensures
        json_views(r@) == per_cve(findings@, |f: Finding, c: CveRecord| spdx_vulnerability(c)),
{
    let ghost g = |f: Finding, c: CveRecord| spdx_vulnerability(c);
    let mut out: Vec<JsonValue> = Vec::new();
    let mut i: usize = 0;
    while i < findings.len()
        invariant
            i <= findings.len(),
            g == (|f: Finding, c: CveRecord| spdx_vulnerability(c)),
            json_views(out@) == per_cve(findings@.take(i as int), g),
        decreases findings.len() - i,
    {
        let f = &findings[i];
        let ghost before = json_views(out@);
        let mut j: usize = 0;
        while j < f.cves.len()
            invariant
                j <= f.cves.len(),
                g == (|f: Finding, c: CveRecord| spdx_vulnerability(c)),
                json_views(out@) =~= before + f.cves@.take(j as int).map_values(
                    |c: (CveRecord, Severity)| g(*f, c.0),
                ),
            decreases f.cves.len() - j,
        {
            push_item(&mut out, spdx_vulnerability_json(&f.cves[j].0));
            assert(f.cves@.take(j + 1) =~= f.cves@.take(j as int).push(f.cves@[j as int]));
            j = j + 1;
        }
        assert(f.cves@.take(f.cves.len() as int) =~= f.cves@);
        assert(findings@.take(i + 1).drop_last() =~= findings@.take(i as int));
        assert(findings@.take(i + 1).last() == *f);
        i = i + 1;
    }
    assert(findings@.take(findings.len() as int) =~= findings@);
    out
}

fn spdx_relationships(findings: &Vec<Finding>, stamp: &str) -> (r: Vec<JsonValue>)
    ensures
        json_views(r@) == per_cve(findings@, |f: Finding, c: CveRecord| spdx_relationship(f, c, stamp@)),
{
    let ghost g = |f: Finding, c: CveRecord| spdx_relationship(f, c, stamp@);
    let mut out: Vec<JsonValue> = Vec::new();
    let mut i: usize = 0;
    while i < findings.len()
        invariant
            i <= findings.len(),
            g == (|f: Finding, c: CveRecord| spdx_relationship(f, c, stamp@)),
            json_views(out@) == per_cve(findings@.take(i as int), g),
        decreases findings.len() - i,
    {
        let f = &findings[i];
        let ghost before = json_views(out@);
        let mut j: usize = 0;
        while j < f.cves.len()
            invariant
                j <= f.cves.len(),
                g == (|f: Finding, c: CveRecord| spdx_relationship(f, c, stamp@)),
                json_views(out@) =~= before + f.cves@.take(j as int).map_values(
                    |c: (CveRecord, Severity)| g(*f, c.0),
                ),
            decreases f.cves.len() - j,
        {
            push_item(&mut out, spdx_relationship_json(f, &f.cves[j].0, stamp));
            assert(f.cves@.take(j + 1) =~= f.cves@.take(j as int).push(f.cves@[j as int]));
            j = j + 1;
        }
        assert(f.cves@.take(f.cves.len() as int) =~= f.cves@);
        assert(findings@.take(i + 1).drop_last() =~= findings@.take(i as int));
        assert(findings@.take(i + 1).last() == *f);
        i = i + 1;
    }
    assert(findings@.take(findings.len() as int) =~= findings@);
    out
}

impl SpdxReporter {
    /// The SPDX 3.0 document of a report at Unix time `now`.
    pub fn document_at(&self, data: &ReportData, now: u64) -> (r: JsonValue)
        ensures
            r@ == spdx_document(*data, now as nat),
    {
        let stamp = format_timestamp_at(now);
        let mut doc_id = String::from_str("urn:spdx.dev:doc-");
        crate::text::push_decimal(&mut doc_id, now);
        let mut created_by: Vec<JsonValue> = Vec::new();
        push_item(&mut created_by, json_string("urn:spdx.dev:tool-vlz"));
        let mut profile: Vec<JsonValue> = Vec::new();
        push_item(&mut profile, json_string("Core"));
        push_item(&mut profile, json_string("Software"));
        assert(json_views(created_by@) =~= seq![Json::Str("urn:spdx.dev:tool-vlz"@)]);
        assert(json_views(profile@) =~= seq![Json::Str("Core"@), Json::Str("Software"@)]);
        let mut info: Vec<(String, JsonValue)> = Vec::new();
        push_member(&mut info, "created", json_string(stamp.as_str()));
        push_member(&mut info, "createdBy", JsonValue::Array(created_by));
        push_member(&mut info, "profile", JsonValue::Array(profile));
        let mut elements = spdx_packages(data);
        append_items(&mut elements, spdx_vulnerabilities(&data.findings));
        let relationships = spdx_relationships(&data.findings, stamp.as_str());
        let mut doc: Vec<(String, JsonValue)> = Vec::new();
        push_member(&mut doc, "@context", json_string(SPDX_CONTEXT_URI));
        push_member(&mut doc, "@type", json_string("SpdxDocument"));
        push_member(&mut doc, "spdxId", JsonValue::String(doc_id));
        proof {
            assert(member_views(info@) =~= seq![
                ("created"@, Json::Str(rfc3339_of_secs(now as nat))),
                ("createdBy"@, Json::Array(seq![Json::Str("urn:spdx.dev:tool-vlz"@)])),
                ("profile"@, Json::Array(seq![Json::Str("Core"@), Json::Str("Software"@)])),
            ]);
        }
        push_member(&mut doc, "creationInfo", JsonValue::Object(info));
        push_member(&mut doc, "element", JsonValue::Array(elements));
        push_member(&mut doc, "relationship", JsonValue::Array(relationships));
        match &data.project_id {
            Some(pid) => {
                push_member(&mut doc, "projectId", json_string(pid.as_str()));
            },
            None => {},
        }
        proof {
            assert(member_views(doc@) =~= match spdx_document(*data, now as nat) {
                Json::Object(x) => x,
                _ => Seq::empty(),
            });
        }
        JsonValue::Object(doc)
    }

    /// The SPDX 3.0 document of a report, stamped with the current time.
    pub fn document(&self, data: &ReportData) -> (r: JsonValue)
        ensures
            exists|t: u64| r@ == spdx_document(*data, t as nat),
    {
        let now = crate::db::unix_now_secs();
        self.document_at(data, now)
    }
}

} // verus!
