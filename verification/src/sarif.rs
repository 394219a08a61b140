//! The SARIF 2.1.0 document of a report, as a JSON tree.
use vstd::prelude::*;
use vstd::string::*;

use crate::json::{
    append_items, json_object1, json_string, json_strings, json_u64, json_views, member_views, push_item,
    push_member, Json, JsonValue,
};
use crate::declmap::{canonical_decls, decl_views, lemma_canonical_decls};
use crate::model::{
    dedupe_sort_declarations, opt_seq, CveEvidenceLocation, CveRecord, DeclView, DeclarationKind, PackageDeclarationLocation,
    Severity, severity_label, MAX_DECLARATIONS_PER_FINDING,
};
use crate::render::{relative_path_string, root_view, shown_path, status_label};
use crate::report::{
    sarif_level, sarif_path_uri, sarif_percent_encode_path, severity_level_sarif, Finding,
    ManifestCoverageEntry, ReportData, VLZ_REPOSITORY_URL,
};
use crate::text::decimal;

verus! {

/// Schema URI of SARIF 2.1.0.
pub const SARIF_SCHEMA_URI: &'static str = "https://raw.githubusercontent.com/oasis-tcs/sarif-spec/master/Schemata/sarif-schema-2.1.0.json";

/// Prefix of the help URI of a rule.
pub const NVD_DETAIL_URI_PREFIX: &'static str = "https://nvd.nist.gov/vuln/detail/";

/// A JSON number from a line number.
pub open spec fn jnum(n: u32) -> Json {
    Json::Number(decimal(n as nat))
}

/// An object with one member.
pub open spec fn jobj1(k: Seq<char>, v: Json) -> Json {
    Json::Object(seq![(k, v)])
}

/// The members an optional text adds under `key`.
pub open spec fn opt_member(key: Seq<char>, v: Option<Seq<char>>) -> Seq<(Seq<char>, Json)> {
    match v {
        Some(x) => seq![(key, Json::Str(x))],
        None => Seq::empty(),
    }
}

/// The `physicalLocation` object: the artifact URI and, with a start line,
/// a region with the start line and the end line when there is one.
pub open spec fn physical(uri: Seq<char>, start: Option<u32>, end: Option<u32>) -> Json {
    let artifact = ("artifactLocation"@, jobj1("uri"@, Json::Str(uri)));
    match start {
        None => Json::Object(seq![artifact]),
        Some(l) => Json::Object(
            seq![
                artifact,
                (
                    "region"@,
                    Json::Object(
                        match end {
                            Some(e) => seq![("startLine"@, jnum(l)), ("endLine"@, jnum(e))],
                            None => seq![("startLine"@, jnum(l))],
                        },
                    ),
                ),
            ],
        ),
    }
}

/// A SARIF URI of a path: relative to the root when possible, then
/// percent-encoded segment by segment.
pub open spec fn sarif_uri(path: Seq<char>, root: Option<Seq<char>>) -> Seq<char> {
    sarif_path_uri(shown_path(path, root))
}

/// The location of a first-party use of an advisory symbol.
pub open spec fn evidence_location(loc: CveEvidenceLocation, root: Option<Seq<char>>) -> Json {
    Json::Object(
        seq![
            ("physicalLocation"@, physical(sarif_uri(loc.path@, root), Some(loc.start_line), loc.end_line)),
            (
                "properties"@,
                Json::Object(
                    seq![("location_kind"@, Json::Str("evidence"@)), ("symbol"@, Json::Str(loc.symbol@))],
                ),
            ),
            ("message"@, jobj1("text"@, Json::Str("First-party advisory symbol usage"@))),
        ],
    )
}

/// Label of a declaration kind.
pub open spec fn decl_kind_label(k: DeclarationKind) -> Seq<char> {
    match k {
        DeclarationKind::Manifest => "manifest"@,
        DeclarationKind::Lockfile => "lockfile"@,
    }
}

/// The location of a dependency declaration.
pub open spec fn declaration_location(d: DeclView, root: Option<Seq<char>>) -> Json {
    Json::Object(
        seq![
            ("physicalLocation"@, physical(sarif_uri(d.path, root), Some(d.start_line), d.end_line)),
            (
                "properties"@,
                Json::Object(
                    seq![
                        ("location_kind"@, Json::Str("declaration"@)),
                        ("declaration_kind"@, Json::Str(decl_kind_label(d.kind))),
                    ],
                ),
            ),
            ("message"@, jobj1("text"@, Json::Str("Dependency declaration"@))),
        ],
    )
}

/// The declaration locations of a finding: its declarations in declaration
/// order, each once, at most `MAX_DECLARATIONS_PER_FINDING` of them.
pub open spec fn declaration_locations(decls: Seq<PackageDeclarationLocation>, root: Option<Seq<char>>) -> Seq<Json> {
    let c = canonical_decls(decls);
    let n = if c.len() < MAX_DECLARATIONS_PER_FINDING { c.len() as int } else { MAX_DECLARATIONS_PER_FINDING as int };
    c.take(n).map_values(|d: DeclView| declaration_location(d, root))
}

/// The manifest paths of a finding as shown.
pub open spec fn manifest_uris(paths: Seq<String>, root: Option<Seq<char>>) -> Seq<Seq<char>> {
    paths.map_values(|p: String| shown_path(p@, root))
}

/// The fallback location of a manifest (no region).
pub open spec fn manifest_location(uri: Seq<char>) -> Json {
    jobj1("physicalLocation"@, physical(uri, None, None))
}

/// One evidence entry of a result's properties.
pub open spec fn evidence_entry(loc: CveEvidenceLocation) -> Json {
    Json::Object(
        seq![
            ("path"@, Json::Str(loc.path@)),
            ("start_line"@, jnum(loc.start_line)),
            ("symbol"@, Json::Str(loc.symbol@)),
        ],
    )
}

/// An array of texts.
pub open spec fn jstrs(s: Seq<Seq<char>>) -> Json {
    Json::Array(s.map_values(|x: Seq<char>| Json::Str(x)))
}

/// The properties of a result: package, version, severity and manifest
/// paths, then reachability, advisory symbols, symbol usage and evidence
/// where the CVE has them.
pub open spec fn result_properties(f: Finding, cve: CveRecord, sev: Severity, root: Option<Seq<char>>) -> Json {
    Json::Object(
        seq![
            ("package"@, Json::Str(f.package.name@)),
            ("version"@, Json::Str(f.package.version@)),
            ("severity"@, Json::Str(severity_label(sev))),
            ("manifest_paths"@, jstrs(manifest_uris(f.manifest_paths@, root))),
        ] + match cve.reachable {
            Some(b) => seq![("reachable"@, Json::Bool(b))],
            None => Seq::empty(),
        } + if cve.advisory_symbols.len() > 0 {
            seq![("advisory_symbols"@, jstrs(cve.advisory_symbols@.map_values(|s: String| s@)))]
        } else {
            Seq::empty()
        } + opt_member("symbol_usage"@, opt_seq(cve.symbol_usage)) + if cve.evidence.len() > 0 {
            seq![("evidence"@, Json::Array(cve.evidence@.map_values(|l: CveEvidenceLocation| evidence_entry(l))))]
        } else {
            Seq::empty()
        },
    )
}

/// One SARIF result: the rule, its level, the description and properties;
/// locations are the evidence when there is some, else the declarations,
/// else the manifests; with evidence, the declarations (else the
/// manifests) become related locations.
pub open spec fn sarif_result(f: Finding, cve: CveRecord, sev: Severity, root: Option<Seq<char>>) -> Json {
    let evidence = cve.evidence@.map_values(|l: CveEvidenceLocation| evidence_location(l, root));
    let decls = declaration_locations(f.declarations@, root);
    let fallback = manifest_uris(f.manifest_paths@, root).map_values(|u: Seq<char>| manifest_location(u));
    let has_evidence = evidence.len() > 0;
    let has_decls = decls.len() > 0;
    let locations = if has_evidence {
        evidence
    } else if has_decls {
        decls
    } else {
        fallback
    };
    let related = if has_evidence {
        if has_decls {
            decls
        } else {
            fallback
        }
    } else {
        Seq::empty()
    };
    Json::Object(
        seq![
            ("ruleId"@, Json::Str(cve.id@)),
            ("level"@, Json::Str(sarif_level(sev))),
            ("message"@, jobj1("text"@, Json::Str(cve.description@))),
            ("properties"@, result_properties(f, cve, sev, root)),
        ] + if locations.len() > 0 {
            seq![("locations"@, Json::Array(locations))]
        } else {
            Seq::empty()
        } + if has_evidence && related.len() > 0 {
            seq![("relatedLocations"@, Json::Array(related))]
        } else {
            Seq::empty()
        },
    )
}

/// The results of one finding, one per CVE.
pub open spec fn finding_results(f: Finding, root: Option<Seq<char>>) -> Seq<Json> {
    f.cves@.map_values(|c: (CveRecord, Severity)| sarif_result(f, c.0, c.1, root))
}

/// The results of all findings, in order.
pub open spec fn sarif_results(fs: Seq<Finding>, root: Option<Seq<char>>) -> Seq<Json>
    decreases fs.len(),
{
    if fs.len() == 0 {
        Seq::empty()
    } else {
        sarif_results(fs.drop_last(), root) + finding_results(fs.last(), root)
    }
}

/// Each element once, in order of first occurrence.
pub open spec fn first_occurrences(s: Seq<Seq<char>>) -> Seq<Seq<char>>
    decreases s.len(),
{
    if s.len() == 0 {
        Seq::empty()
    } else {
        let d = first_occurrences(s.drop_last());
        if d.contains(s.last()) {
            d
        } else {
            d.push(s.last())
        }
    }
}

/// The CVE ids of all findings, in order.
pub open spec fn all_cve_ids(fs: Seq<Finding>) -> Seq<Seq<char>>
    decreases fs.len(),
{
    if fs.len() == 0 {
        Seq::empty()
    } else {
        all_cve_ids(fs.drop_last()) + fs.last().cves@.map_values(|c: (CveRecord, Severity)| c.0.id@)
    }
}

/// The rule of a CVE id.
pub open spec fn sarif_rule(id: Seq<char>) -> Json {
    Json::Object(
        seq![
            ("id"@, Json::Str(id)),
            ("shortDescription"@, jobj1("text"@, Json::Str(id))),
            ("helpUri"@, Json::Str(NVD_DETAIL_URI_PREFIX@ + id)),
        ],
    )
}

/// The JSON entry of a manifest's coverage: path as shown, language,
/// status, and the direct-only reason and error when present.
pub open spec fn coverage_entry(e: ManifestCoverageEntry, root: Option<Seq<char>>) -> Json {
    Json::Object(
        seq![
            ("path"@, Json::Str(shown_path(e.path@, root))),
            ("language"@, Json::Str(e.language@)),
            ("status"@, Json::Str(status_label(e.status))),
        ] + opt_member("direct_only_reason"@, opt_seq(e.direct_only_reason)) + opt_member(
            "error"@,
            opt_seq(e.error),
        ),
    )
}

/// The coverage entries of all manifests.
pub open spec fn coverage_entries(es: Seq<ManifestCoverageEntry>, root: Option<Seq<char>>) -> Seq<Json> {
    es.map_values(|e: ManifestCoverageEntry| coverage_entry(e, root))
}

/// The run properties: the project id and the manifest coverage, each when
/// present.
pub open spec fn run_properties(d: ReportData) -> Seq<(Seq<char>, Json)> {
    let members = opt_member("project_id"@, opt_seq(d.project_id)) + if d.manifest_coverage.len() > 0 {
        seq![("manifest_coverage"@, Json::Array(coverage_entries(d.manifest_coverage@, root_view(d))))]
    } else {
        Seq::empty()
    };
    if members.len() > 0 {
        seq![("properties"@, Json::Object(members))]
    } else {
        Seq::empty()
    }
}

/// The SARIF document of a report: one run of the `vlz` tool with one rule
/// per distinct CVE id and one result per finding and CVE.
pub open spec fn sarif_document(d: ReportData) -> Json {
    let root = root_view(d);
    let rules = first_occurrences(all_cve_ids(d.findings@)).map_values(|id: Seq<char>| sarif_rule(id));
    let driver = Json::Object(
        seq![
            ("name"@, Json::Str("vlz"@)),
            ("informationUri"@, Json::Str(VLZ_REPOSITORY_URL@)),
            ("rules"@, Json::Array(rules)),
        ],
    );
    let run = Json::Object(
        seq![
            ("tool"@, jobj1("driver"@, driver)),
            ("results"@, Json::Array(sarif_results(d.findings@, root))),
        ] + run_properties(d),
    );
    Json::Object(
        seq![
            ("$schema"@, Json::Str(SARIF_SCHEMA_URI@)),
            ("version"@, Json::Str("2.1.0"@)),
            ("runs"@, Json::Array(seq![run])),
        ],
    )
}


/// A root given as text, as the specifications read it.
pub open spec fn root_seq(root: Option<&str>) -> Option<Seq<char>> {
    match root {
        Some(r) => Some(r@),
        None => None,
    }
}

fn json_line(n: u32) -> (r: JsonValue)
    ensures
        r@ == jnum(n),
{
    json_u64(n as u64)
}

/// The `physicalLocation` object of a URI and optional line range.
pub fn sarif_physical_location(uri: &str, start_line: Option<u32>, end_line: Option<u32>) -> (r: JsonValue)
    ensures
        r@ == physical(uri@, start_line, end_line),
{
    let mut members: Vec<(String, JsonValue)> = Vec::new();
    push_member(&mut members, "artifactLocation", json_object1("uri", json_string(uri)));
    match start_line {
        Some(line) => {
            let mut region: Vec<(String, JsonValue)> = Vec::new();
            push_member(&mut region, "startLine", json_line(line));
            match end_line {
                Some(end) => {
                    push_member(&mut region, "endLine", json_line(end));
                },
                None => {},
            }
            proof {
                assert(member_views(region@) =~= match end_line {
                    Some(e) => seq![("startLine"@, jnum(line)), ("endLine"@, jnum(e))],
                    None => seq![("startLine"@, jnum(line))],
                });
            }
            push_member(&mut members, "region", JsonValue::Object(region));
        },
        None => {},
    }
    proof {
        assert(member_views(members@) =~= match physical(uri@, start_line, end_line) {
            Json::Object(m) => m,
            _ => Seq::empty(),
        });
    }
    JsonValue::Object(members)
}

/// The SARIF URI of a path.
pub fn sarif_uri_for_path(path: &str, root: Option<&str>) -> (r: String)
    ensures
        r@ == sarif_uri(path@, root_seq(root)),
{
    let rel = relative_path_string(path, root);
    sarif_percent_encode_path(rel.as_str())
}

/// The location of a first-party use of an advisory symbol.
pub fn sarif_evidence_location(loc: &CveEvidenceLocation, root: Option<&str>) -> (r: JsonValue)
    ensures
        r@ == evidence_location(*loc, root_seq(root)),
{
    let uri = sarif_uri_for_path(loc.path.as_str(), root);
    let mut members: Vec<(String, JsonValue)> = Vec::new();
    push_member(
        &mut members,
        "physicalLocation",
        sarif_physical_location(uri.as_str(), Some(loc.start_line), loc.end_line),
    );
    let mut props: Vec<(String, JsonValue)> = Vec::new();
    push_member(&mut props, "location_kind", json_string("evidence"));
    push_member(&mut props, "symbol", json_string(loc.symbol.as_str()));
    push_member(&mut members, "properties", JsonValue::Object(props));
    push_member(
        &mut members,
        "message",
        json_object1("text", json_string("First-party advisory symbol usage")),
    );
    proof {
        assert(member_views(props@) =~= seq![("location_kind"@, Json::Str("evidence"@)), ("symbol"@, Json::Str(loc.symbol@))]);
        assert(member_views(members@) =~= match evidence_location(*loc, root_seq(root)) {
            Json::Object(m) => m,
            _ => Seq::empty(),
        });
    }
    JsonValue::Object(members)
}

/// The location of a dependency declaration.
pub fn sarif_declaration_location(decl: &PackageDeclarationLocation, root: Option<&str>) -> (r: JsonValue)
    ensures
        r@ == declaration_location(decl@, root_seq(root)),
{
    let uri = sarif_uri_for_path(decl.path.as_str(), root);
    let mut members: Vec<(String, JsonValue)> = Vec::new();
    push_member(
        &mut members,
        "physicalLocation",
        sarif_physical_location(uri.as_str(), Some(decl.start_line), decl.end_line),
    );
    let kind = match decl.kind {
        DeclarationKind::Manifest => "manifest",
        DeclarationKind::Lockfile => "lockfile",
    };
    let mut props: Vec<(String, JsonValue)> = Vec::new();
    push_member(&mut props, "location_kind", json_string("declaration"));
    push_member(&mut props, "declaration_kind", json_string(kind));
    push_member(&mut members, "properties", JsonValue::Object(props));
    push_member(&mut members, "message", json_object1("text", json_string("Dependency declaration")));
    proof {
        assert(member_views(props@) =~= seq![
            ("location_kind"@, Json::Str("declaration"@)),
            ("declaration_kind"@, Json::Str(decl_kind_label(decl.kind))),
        ]);
        assert(member_views(members@) =~= match declaration_location(decl@, root_seq(root)) {
            Json::Object(m) => m,
            _ => Seq::empty(),
        });
    }
    JsonValue::Object(members)
}

/// The declaration locations of a finding: sorted, deduplicated, at most
/// `MAX_DECLARATIONS_PER_FINDING`.
pub fn sarif_declaration_locations(declarations: &Vec<PackageDeclarationLocation>, root: Option<&str>) -> (r: Vec<JsonValue>)
    ensures
        json_views(r@) == declaration_locations(declarations@, root_seq(root)),
{
    let mut sorted = crate::declarations::copy_decls(declarations);
    let ghost copied = sorted@;
    dedupe_sort_declarations(&mut sorted);
    proof {
        assert(decl_views(copied).len() == copied.len());
        assert(decl_views(declarations@).len() == declarations@.len());
        assert forall|y: DeclView| crate::model::decls_have(sorted@, y) <==> crate::model::decls_have(declarations@, y) by {
            if crate::model::decls_have(copied, y) {
                let i = choose|i: int| 0 <= i < copied.len() && copied[i]@ == y;
                assert(decl_views(copied)[i] == y);
                assert(declarations@[i]@ == decl_views(declarations@)[i]);
            }
            if crate::model::decls_have(declarations@, y) {
                let i = choose|i: int| 0 <= i < declarations@.len() && declarations@[i]@ == y;
                assert(decl_views(declarations@)[i] == y);
                assert(copied[i]@ == decl_views(copied)[i]);
            }
        }
        lemma_canonical_decls(sorted@, declarations@);
    }
    let n = if sorted.len() < MAX_DECLARATIONS_PER_FINDING {
        sorted.len()
    } else {
        MAX_DECLARATIONS_PER_FINDING
    };
    let ghost c = canonical_decls(declarations@);
    let mut out: Vec<JsonValue> = Vec::new();
    let mut i: usize = 0;
    while i < n
        invariant
            i <= n,
            n <= sorted.len(),
            c == decl_views(sorted@),
            json_views(out@) =~= c.take(i as int).map_values(|d: DeclView| declaration_location(d, root_seq(root))),
        decreases n - i,
    {
        push_item(&mut out, sarif_declaration_location(&sorted[i], root));
        assert(c.take(i + 1) =~= c.take(i as int).push(c[i as int]));
        assert(c[i as int] == sorted@[i as int]@);
        i = i + 1;
    }
    out
}

/// The manifest paths of a finding, as shown.
fn manifest_uri_strings(paths: &Vec<String>, root: Option<&str>) -> (r: Vec<String>)
    ensures
        r@.map_values(|s: String| s@) == manifest_uris(paths@, root_seq(root)),
{
    let mut out: Vec<String> = Vec::new();
    let mut i: usize = 0;
    while i < paths.len()
        invariant
            i <= paths.len(),
            out@.map_values(|s: String| s@) =~= manifest_uris(paths@.take(i as int), root_seq(root)),
        decreases paths.len() - i,
    {
        let ghost before = out@;
        let shown = relative_path_string(paths[i].as_str(), root);
        out.push(shown);
        assert(out@.map_values(|s: String| s@) =~= before.map_values(|s: String| s@).push(shown@));
        assert(paths@.take(i + 1) =~= paths@.take(i as int).push(paths@[i as int]));
        i = i + 1;
    }
    assert(paths@.take(paths.len() as int) =~= paths@);
    out
}


proof fn lemma_jstrs(v: Seq<String>)
    ensures
        Json::Array(v.map_values(|s: String| Json::Str(s@))) == jstrs(v.map_values(|s: String| s@)),
{
    assert(v.map_values(|s: String| Json::Str(s@)) =~= v.map_values(|s: String| s@).map_values(|x: Seq<char>| Json::Str(x)));
}

fn evidence_entries(evidence: &Vec<CveEvidenceLocation>) -> (r: Vec<JsonValue>)
    ensures
        json_views(r@) == evidence@.map_values(|l: CveEvidenceLocation| evidence_entry(l)),
{
    let mut out: Vec<JsonValue> = Vec::new();
    let mut i: usize = 0;
    while i < evidence.len()
        invariant
            i <= evidence.len(),
            json_views(out@) =~= evidence@.take(i as int).map_values(|l: CveEvidenceLocation| evidence_entry(l)),
        decreases evidence.len() - i,
    {
        let loc = &evidence[i];
        let mut m: Vec<(String, JsonValue)> = Vec::new();
        push_member(&mut m, "path", json_string(loc.path.as_str()));
        push_member(&mut m, "start_line", json_line(loc.start_line));
        push_member(&mut m, "symbol", json_string(loc.symbol.as_str()));
        assert(member_views(m@) =~= seq![
            ("path"@, Json::Str(loc.path@)),
            ("start_line"@, jnum(loc.start_line)),
            ("symbol"@, Json::Str(loc.symbol@)),
        ]);
        push_item(&mut out, JsonValue::Object(m));
        assert(evidence@.take(i + 1) =~= evidence@.take(i as int).push(evidence@[i as int]));
        i = i + 1;
    }
    assert(evidence@.take(evidence.len() as int) =~= evidence@);
    out
}

fn evidence_locations(evidence: &Vec<CveEvidenceLocation>, root: Option<&str>) -> (r: Vec<JsonValue>)
    ensures
        json_views(r@) == evidence@.map_values(|l: CveEvidenceLocation| evidence_location(l, root_seq(root))),
{
    let mut out: Vec<JsonValue> = Vec::new();
    let mut i: usize = 0;
    while i < evidence.len()
        invariant
            i <= evidence.len(),
            json_views(out@) =~= evidence@.take(i as int).map_values(
                |l: CveEvidenceLocation| evidence_location(l, root_seq(root)),
            ),
        decreases evidence.len() - i,
    {
        push_item(&mut out, sarif_evidence_location(&evidence[i], root));
        assert(evidence@.take(i + 1) =~= evidence@.take(i as int).push(evidence@[i as int]));
        i = i + 1;
    }
    assert(evidence@.take(evidence.len() as int) =~= evidence@);
    out
}

fn manifest_locations(uris: &Vec<String>) -> (r: Vec<JsonValue>)
    ensures
        json_views(r@) == uris@.map_values(|s: String| s@).map_values(|u: Seq<char>| manifest_location(u)),
{
    let mut out: Vec<JsonValue> = Vec::new();
    let mut i: usize = 0;
    while i < uris.len()
        invariant
            i <= uris.len(),
            json_views(out@) =~= uris@.take(i as int).map_values(|s: String| s@).map_values(
                |u: Seq<char>| manifest_location(u),
            ),
        decreases uris.len() - i,
    {
        push_item(
            &mut out,
            json_object1("physicalLocation", sarif_physical_location(uris[i].as_str(), None, None)),
        );
        assert(uris@.take(i + 1) =~= uris@.take(i as int).push(uris@[i as int]));
        i = i + 1;
    }
    assert(uris@.take(uris.len() as int) =~= uris@);
    out
}

fn opt_text_member(members: &mut Vec<(String, JsonValue)>, key: &str, v: &Option<String>)
    ensures
        member_views(final(members)@) == member_views(old(members)@) + opt_member(key@, opt_seq(*v)),
{
    match v {
        Some(x) => {
            push_member(members, key, json_string(x.as_str()));
        },
        None => {
            assert(member_views(old(members)@) + opt_member(key@, opt_seq(*v)) =~= member_views(old(members)@));
        },
    }
}

fn sarif_result_properties(
    f: &Finding,
    cve: &CveRecord,
    sev: Severity,
    uris: &Vec<String>,
    Ghost(root): Ghost<Option<Seq<char>>>,
) -> (r: JsonValue)
    requires
        uris@.map_values(|s: String| s@) == manifest_uris(f.manifest_paths@, root),
    ensures
        r@ == result_properties(*f, *cve, sev, root),
{
    let mut m: Vec<(String, JsonValue)> = Vec::new();
    push_member(&mut m, "package", json_string(f.package.name.as_str()));
    push_member(&mut m, "version", json_string(f.package.version.as_str()));
    push_member(&mut m, "severity", json_string(sev.as_str()));
    push_member(&mut m, "manifest_paths", json_strings(uris.as_slice()));
    proof {
        lemma_jstrs(uris@);
    }
    let ghost base = member_views(m@);
    match cve.reachable {
        Some(b) => {
            push_member(&mut m, "reachable", JsonValue::Bool(b));
        },
        None => {},
    }
    let ghost with_reach = member_views(m@);
    if cve.advisory_symbols.len() > 0 {
        push_member(&mut m, "advisory_symbols", json_strings(cve.advisory_symbols.as_slice()));
        proof {
            lemma_jstrs(cve.advisory_symbols@);
        }
    }
    opt_text_member(&mut m, "symbol_usage", &cve.symbol_usage);
    if cve.evidence.len() > 0 {
        push_member(&mut m, "evidence", JsonValue::Array(evidence_entries(&cve.evidence)));
    }
    proof {
        let want = match result_properties(*f, *cve, sev, root) {
            Json::Object(x) => x,
            _ => Seq::empty(),
        };
        assert(with_reach =~= base + match cve.reachable {
            Some(b) => seq![("reachable"@, Json::Bool(b))],
            None => Seq::<(Seq<char>, Json)>::empty(),
        });
        assert(member_views(m@) =~= want);
    }
    JsonValue::Object(m)
}

/// One SARIF result of a finding's CVE.
pub fn sarif_result_json(f: &Finding, cve: &CveRecord, sev: Severity, root: Option<&str>) -> (r: JsonValue)
    ensures
        r@ == sarif_result(*f, *cve, sev, root_seq(root)),
{
    let uris = manifest_uri_strings(&f.manifest_paths, root);
    let props = sarif_result_properties(f, cve, sev, &uris, Ghost(root_seq(root)));
    let evidence = evidence_locations(&cve.evidence, root);
    let decls = sarif_declaration_locations(&f.declarations, root);
    let fallback = manifest_locations(&uris);
    let has_evidence = evidence.len() > 0;
    let has_decls = decls.len() > 0;
    proof {
        crate::json::lemma_json_views_len(evidence@);
        crate::json::lemma_json_views_len(decls@);
        crate::json::lemma_json_views_len(fallback@);
    }
    let (locations, related) = if has_evidence {
        if has_decls {
            (evidence, decls)
        } else {
            (evidence, fallback)
        }
    } else if has_decls {
        (decls, Vec::new())
    } else {
        (fallback, Vec::new())
    };
    let mut m: Vec<(String, JsonValue)> = Vec::new();
    push_member(&mut m, "ruleId", json_string(cve.id.as_str()));
    push_member(&mut m, "level", json_string(severity_level_sarif(&sev)));
    push_member(&mut m, "message", json_object1("text", json_string(cve.description.as_str())));
    push_member(&mut m, "properties", props);
    let has_locations = locations.len() > 0;
    let has_related = related.len() > 0;
    proof {
        crate::json::lemma_json_views_len(locations@);
        crate::json::lemma_json_views_len(related@);
    }
    if has_locations {
        push_member(&mut m, "locations", JsonValue::Array(locations));
    }
    if has_evidence && has_related {
        push_member(&mut m, "relatedLocations", JsonValue::Array(related));
    }
    proof {
        let want = match sarif_result(*f, *cve, sev, root_seq(root)) {
            Json::Object(x) => x,
            _ => Seq::empty(),
        };
        assert(member_views(m@) =~= want);
    }
    JsonValue::Object(m)
}


/// The results of one finding, one per CVE.
pub fn finding_results_json(f: &Finding, root: Option<&str>) -> (r: Vec<JsonValue>)
    ensures
        json_views(r@) == finding_results(*f, root_seq(root)),
{
    let mut out: Vec<JsonValue> = Vec::new();
    let mut j: usize = 0;
    while j < f.cves.len()
        invariant
            j <= f.cves.len(),
            json_views(out@) =~= f.cves@.take(j as int).map_values(
                |c: (CveRecord, Severity)| sarif_result(*f, c.0, c.1, root_seq(root)),
            ),
        decreases f.cves.len() - j,
    {
        let (cve, sev) = &f.cves[j];
        push_item(&mut out, sarif_result_json(f, cve, *sev, root));
        assert(f.cves@.take(j + 1) =~= f.cves@.take(j as int).push(f.cves@[j as int]));
        j = j + 1;
    }
    assert(f.cves@.take(f.cves.len() as int) =~= f.cves@);
    out
}

/// The results of all findings.
pub fn sarif_results_json(findings: &Vec<Finding>, root: Option<&str>) -> (r: Vec<JsonValue>)
    ensures
        json_views(r@) == sarif_results(findings@, root_seq(root)),
{
    let mut out: Vec<JsonValue> = Vec::new();
    let mut i: usize = 0;
    while i < findings.len()
        invariant
            i <= findings.len(),
            json_views(out@) == sarif_results(findings@.take(i as int), root_seq(root)),
        decreases findings.len() - i,
    {
        let rs = finding_results_json(&findings[i], root);
        append_items(&mut out, rs);
        assert(findings@.take(i + 1).drop_last() =~= findings@.take(i as int));
        i = i + 1;
    }
    assert(findings@.take(findings.len() as int) =~= findings@);
    out
}

fn contains_text(v: &Vec<String>, x: &str) -> (r: bool)
    ensures
        r == v@.map_values(|s: String| s@).contains(x@),
{
    let ghost views = v@.map_values(|s: String| s@);
    let mut i: usize = 0;
    while i < v.len()
        invariant
            i <= v.len(),
            views == v@.map_values(|s: String| s@),
            forall|k: int| 0 <= k < i ==> views[k] != x@,
        decreases v.len() - i,
    {
        if crate::text::str_eq(v[i].as_str(), x) {
            assert(views[i as int] == x@);
            return true;
        }
        i = i + 1;
    }
    false
}

/// The rule of a CVE id.
pub fn sarif_rule_json(id: &str) -> (r: JsonValue)
    ensures
        r@ == sarif_rule(id@),
{
    let mut help = String::from_str(NVD_DETAIL_URI_PREFIX);
    help.append(id);
    let mut m: Vec<(String, JsonValue)> = Vec::new();
    push_member(&mut m, "id", json_string(id));
    push_member(&mut m, "shortDescription", json_object1("text", json_string(id)));
    push_member(&mut m, "helpUri", JsonValue::String(help));
    assert(member_views(m@) =~= seq![
        ("id"@, Json::Str(id@)),
        ("shortDescription"@, jobj1("text"@, Json::Str(id@))),
        ("helpUri"@, Json::Str(NVD_DETAIL_URI_PREFIX@ + id@)),
    ]);
    JsonValue::Object(m)
}

/// One rule per distinct CVE id, in order of first occurrence.
pub fn sarif_rules_json(findings: &Vec<Finding>) -> (r: Vec<JsonValue>)
    ensures
        json_views(r@) == first_occurrences(all_cve_ids(findings@)).map_values(|id: Seq<char>| sarif_rule(id)),
{
    let mut seen: Vec<String> = Vec::new();
    let mut rules: Vec<JsonValue> = Vec::new();
    let mut i: usize = 0;
    while i < findings.len()
        invariant
            i <= findings.len(),
            seen@.map_values(|s: String| s@) == first_occurrences(all_cve_ids(findings@.take(i as int))),
            json_views(rules@) =~= seen@.map_values(|s: String| s@).map_values(|id: Seq<char>| sarif_rule(id)),
        decreases findings.len() - i,
    {
        let f = &findings[i];
        let ghost prefix = all_cve_ids(findings@.take(i as int));
        let mut j: usize = 0;
        while j < f.cves.len()
            invariant
                j <= f.cves.len(),
                seen@.map_values(|s: String| s@) == first_occurrences(
                    prefix + f.cves@.take(j as int).map_values(|c: (CveRecord, Severity)| c.0.id@),
                ),
                json_views(rules@) =~= seen@.map_values(|s: String| s@).map_values(|id: Seq<char>| sarif_rule(id)),
            decreases f.cves.len() - j,
        {
            let id = f.cves[j].0.id.as_str();
            let ghost ids = prefix + f.cves@.take(j as int).map_values(|c: (CveRecord, Severity)| c.0.id@);
            let ghost ids1 = prefix + f.cves@.take(j + 1).map_values(|c: (CveRecord, Severity)| c.0.id@);
            assert(ids1.drop_last() =~= ids);
            assert(ids1.last() == id@);
            if !contains_text(&seen, id) {
                let ghost before = seen@;
                seen.push(String::from_str(id));
                push_item(&mut rules, sarif_rule_json(id));
                assert(seen@.map_values(|s: String| s@) =~= before.map_values(|s: String| s@).push(id@));
            }
            j = j + 1;
        }
        assert(f.cves@.take(f.cves.len() as int) =~= f.cves@);
        assert(findings@.take(i + 1).drop_last() =~= findings@.take(i as int));
        assert(findings@.take(i + 1).last() == *f);
        i = i + 1;
    }
    assert(findings@.take(findings.len() as int) =~= findings@);
    rules
}

/// The JSON entries of the manifest coverage: path as shown, language,
/// status, and the direct-only reason and error when present.
pub fn manifest_coverage_json(coverage: &[ManifestCoverageEntry], root: Option<&str>) -> (r: Vec<JsonValue>)
    ensures
        json_views(r@) == coverage_entries(coverage@, root_seq(root)),
{
    let mut out: Vec<JsonValue> = Vec::new();
    let mut i: usize = 0;
    while i < coverage.len()
        invariant
            i <= coverage.len(),
            json_views(out@) =~= coverage_entries(coverage@.take(i as int), root_seq(root)),
        decreases coverage.len() - i,
    {
        let e = &coverage[i];
        let mut m: Vec<(String, JsonValue)> = Vec::new();
        push_member(&mut m, "path", JsonValue::String(relative_path_string(e.path.as_str(), root)));
        push_member(&mut m, "language", json_string(e.language.as_str()));
        push_member(&mut m, "status", json_string(e.status.as_str()));
        opt_text_member(&mut m, "direct_only_reason", &e.direct_only_reason);
        opt_text_member(&mut m, "error", &e.error);
        proof {
            assert(member_views(m@) =~= match coverage_entry(*e, root_seq(root)) {
                Json::Object(x) => x,
                _ => Seq::empty(),
            });
        }
        push_item(&mut out, JsonValue::Object(m));
        assert(coverage@.take(i + 1) =~= coverage@.take(i as int).push(coverage@[i as int]));
        i = i + 1;
    }
    assert(coverage@.take(coverage.len() as int) =~= coverage@);
    out
}

fn root_str(root: &Option<String>) -> (r: Option<&str>)
    ensures
        root_seq(r) == opt_seq(*root),
{
    match root {
        Some(s) => Some(s.as_str()),
        None => None,
    }
}

impl crate::report::SarifReporter {
    /// The SARIF 2.1.0 document of a report.
    pub fn document(&self, data: &ReportData) -> (r: JsonValue)
        ensures
            r@ == sarif_document(*data),
    {
        let root = root_str(&data.root_path);
        assert(root_seq(root) == root_view(*data));
        let rules = sarif_rules_json(&data.findings);
        let results = sarif_results_json(&data.findings, root);
        let mut driver: Vec<(String, JsonValue)> = Vec::new();
        push_member(&mut driver, "name", json_string("vlz"));
        push_member(&mut driver, "informationUri", json_string(VLZ_REPOSITORY_URL));
        push_member(&mut driver, "rules", JsonValue::Array(rules));
        let mut run: Vec<(String, JsonValue)> = Vec::new();
        push_member(&mut run, "tool", json_object1("driver", JsonValue::Object(driver)));
        push_member(&mut run, "results", JsonValue::Array(results));
        let mut props: Vec<(String, JsonValue)> = Vec::new();
        opt_text_member(&mut props, "project_id", &data.project_id);
        if data.manifest_coverage.len() > 0 {
            let coverage = manifest_coverage_json(data.manifest_coverage.as_slice(), root);
            push_member(&mut props, "manifest_coverage", JsonValue::Array(coverage));
        }
        let ghost run_base = member_views(run@);
        let ghost prop_members = member_views(props@);
        proof {
            crate::json::lemma_member_views_len(props@);
            let want = opt_member("project_id"@, opt_seq(data.project_id)) + if data.manifest_coverage.len() > 0 {
                seq![("manifest_coverage"@, Json::Array(coverage_entries(data.manifest_coverage@, root_view(*data))))]
            } else {
                Seq::empty()
            };
            assert(prop_members =~= want);
            assert(run_properties(*data) =~= if want.len() > 0 {
                seq![("properties"@, Json::Object(want))]
            } else {
                Seq::empty()
            });
        }
        let has_props = props.len() > 0;
        if has_props {
            push_member(&mut run, "properties", JsonValue::Object(props));
        }
        proof {
            let rules_s = first_occurrences(all_cve_ids(data.findings@)).map_values(|id: Seq<char>| sarif_rule(id));
            let driver_s = Json::Object(
                seq![
                    ("name"@, Json::Str("vlz"@)),
                    ("informationUri"@, Json::Str(VLZ_REPOSITORY_URL@)),
                    ("rules"@, Json::Array(rules_s)),
                ],
            );
            assert(member_views(driver@) =~= seq![
                    ("name"@, Json::Str("vlz"@)),
                    ("informationUri"@, Json::Str(VLZ_REPOSITORY_URL@)),
                    ("rules"@, Json::Array(rules_s)),
                ]);
            assert(run_base =~= seq![
                ("tool"@, jobj1("driver"@, driver_s)),
                ("results"@, Json::Array(sarif_results(data.findings@, root_view(*data)))),
            ]);
            if has_props {
                assert(member_views(run@) =~= run_base + run_properties(*data));
            } else {
                assert(member_views(run@) =~= run_base + run_properties(*data));
            }
            assert(member_views(run@) =~= match sarif_document(*data) {
                Json::Object(x) => match x[2].1 {
                    Json::Array(runs) => match runs[0] {
                        Json::Object(y) => y,
                        _ => Seq::empty(),
                    },
                    _ => Seq::empty(),
                },
                _ => Seq::empty(),
            });
        }
        let mut runs: Vec<JsonValue> = Vec::new();
        push_item(&mut runs, JsonValue::Object(run));
        let mut doc: Vec<(String, JsonValue)> = Vec::new();
        push_member(&mut doc, "$schema", json_string(SARIF_SCHEMA_URI));
        push_member(&mut doc, "version", json_string("2.1.0"));
        push_member(&mut doc, "runs", JsonValue::Array(runs));
        proof {
            assert(member_views(doc@) =~= match sarif_document(*data) {
                Json::Object(x) => x,
                _ => Seq::empty(),
            });
        }
        JsonValue::Object(doc)
    }
}

} // verus!
