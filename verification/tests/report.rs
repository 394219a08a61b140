use vlz_core::json::JsonValue;
use vlz_core::lsp::is_dependency_save_path;
use vlz_core::model::{CveEvidenceLocation, CveRecord, FpEntry, Package, Severity};
use vlz_core::remediate::{
    ApplyStrategy, DependencyKind, UpgradePlan, UpgradePlanConfidence, MIN_FIXED_VERSION_UNKNOWN,
};
use vlz_core::report::{
    manifest_coverage_needs_section, percent_encode_sarif_segment, sarif_percent_encode_path,
    severity_level_sarif, Finding, ManifestCoverageEntry, ManifestScanStatus, ReportData,
    DEGRADED_COVERAGE_NO_VULNERABILITIES_MESSAGE, NO_VULNERABILITIES_FOUND_MESSAGE,
    SCAN_INCOMPLETE_MESSAGE,
};
use vlz_core::vex::{
    cisa_justifications, cisa_to_cyclonedx_justification, cyclonedx_analysis_for,
    derive_vex_statements, evidence_detail, VexConfig, VexJustification, VexStatement, VexStatus,
    DEFAULT_VEX_AUTHOR_NAME, OPENVEX_CONTEXT,
};
use vlz_core::vex_ingest::{
    ingest_justification_as_vex, ingest_status_as_vex, map_cyclonedx_state, map_openvex_status,
    merge_suppress_keys, openvex_context_ok, parse_vex_ingest_value, suppress_vuln_ids, VexIngestKind, IngestStatus, IngestedVexStatement,
    VexIngestPolicy, VexIngestSource,
};

fn coverage(status: ManifestScanStatus) -> ManifestCoverageEntry {
    ManifestCoverageEntry {
        path: "requirements.txt".to_string(),
        language: "python".to_string(),
        status,
        direct_only_reason: None,
        error: None,
    }
}

#[test]
fn manifest_coverage_needs_section_true_for_failures() {
    let mut entry = coverage(ManifestScanStatus::FailedResolution);
    entry.error = Some("err".to_string());
    assert!(manifest_coverage_needs_section(&[entry]));
}

#[test]
fn manifest_coverage_needs_section_false_for_transitive_only() {
    assert!(!manifest_coverage_needs_section(&[coverage(ManifestScanStatus::ScannedTransitive)]));
}

#[test]
fn sarif_percent_encodes_spaces_in_path() {
    assert_eq!(sarif_percent_encode_path("src/my file.rs"), "src/my%20file.rs");
}

#[test]
fn sarif_percent_encoding_of_backslashes_and_utf8() {
    assert_eq!(sarif_percent_encode_path("a\\b c"), "a/b%20c");
    assert_eq!(percent_encode_sarif_segment("é#"), "%C3%A9%23");
    assert_eq!(percent_encode_sarif_segment("ok-_.~!$&'()*+,;=@"), "ok-_.~!$&'()*+,;=@");
}

#[test]
fn sarif_levels_by_severity() {
    assert_eq!(severity_level_sarif(&Severity::Critical), "error");
    assert_eq!(severity_level_sarif(&Severity::Low), "warning");
    assert_eq!(severity_level_sarif(&Severity::Unknown), "note");
}

fn coverage_entry(
    path: &str,
    status: ManifestScanStatus,
    reason: Option<&str>,
    error: Option<&str>,
) -> ManifestCoverageEntry {
    ManifestCoverageEntry {
        path: path.to_string(),
        language: "python".to_string(),
        status,
        direct_only_reason: reason.map(|r| r.to_string()),
        error: error.map(|e| e.to_string()),
    }
}

#[test]
fn empty_findings_message_degraded_coverage() {
    let data = ReportData {
        findings: vec![],
        all_packages: None,
        project_id: None,
        root_path: None,
        manifest_coverage: vec![coverage_entry(
            "pyproject.toml",
            ManifestScanStatus::ScannedDirectOnly,
            Some("offline mode"),
            None,
        )],
        offline_cache_miss: false,
        provider_fetch_failed: false,
    };
    assert!(data.has_degraded_coverage());
    assert!(!data.is_analysis_incomplete());
    assert_eq!(data.empty_findings_message(), DEGRADED_COVERAGE_NO_VULNERABILITIES_MESSAGE);
}

#[test]
fn empty_findings_message_incomplete_overrides_degraded() {
    let data = ReportData {
        findings: vec![],
        all_packages: None,
        project_id: None,
        root_path: None,
        manifest_coverage: vec![
            coverage_entry(
                "pyproject.toml",
                ManifestScanStatus::ScannedDirectOnly,
                Some("offline mode"),
                None,
            ),
            coverage_entry("broken.txt", ManifestScanStatus::FailedResolution, None, Some("err")),
        ],
        offline_cache_miss: false,
        provider_fetch_failed: false,
    };
    assert!(data.has_degraded_coverage());
    assert!(data.is_analysis_incomplete());
    assert_eq!(data.empty_findings_message(), SCAN_INCOMPLETE_MESSAGE);
}

#[test]
fn empty_findings_message_without_coverage_issues_is_plain() {
    let mut data = ReportData {
        findings: vec![],
        all_packages: None,
        project_id: None,
        root_path: None,
        manifest_coverage: vec![coverage(ManifestScanStatus::ScannedTransitive)],
        offline_cache_miss: false,
        provider_fetch_failed: false,
    };
    assert_eq!(data.empty_findings_message(), NO_VULNERABILITIES_FOUND_MESSAGE);
    data.offline_cache_miss = true;
    assert_eq!(data.empty_findings_message(), SCAN_INCOMPLETE_MESSAGE);
    assert!(ManifestScanStatus::FailedParse.is_blocking());
    assert!(!ManifestScanStatus::ScannedDirectOnly.is_blocking());
}

#[test]
fn cisa_justification_roundtrip_and_allowlist() {
    for s in cisa_justifications() {
        let j = VexJustification::parse(s).expect(s);
        assert_eq!(j.as_str(), s);
        assert!(!cisa_to_cyclonedx_justification(j).is_empty());
    }
    assert!(VexJustification::parse("not_a_real_reason").is_none());
}

#[test]
fn cisa_to_cyclonedx_mapping_table() {
    assert_eq!(cisa_to_cyclonedx_justification(VexJustification::VulnerableCodeNotPresent), "code_not_present");
    assert_eq!(
        cisa_to_cyclonedx_justification(VexJustification::VulnerableCodeNotInExecutePath),
        "code_not_reachable"
    );
    assert_eq!(
        cisa_to_cyclonedx_justification(VexJustification::VulnerableCodeCannotBeControlledByAdversary),
        "protected_at_perimeter"
    );
    assert_eq!(
        cisa_to_cyclonedx_justification(VexJustification::InlineMitigationsAlreadyExist),
        "protected_by_mitigating_control"
    );
    assert_eq!(cisa_to_cyclonedx_justification(VexJustification::ComponentNotPresent), "requires_dependency");
}

#[test]
fn blank_product_id_normalizes_to_none() {
    let mut cfg = VexConfig {
        product_id: Some("  ".into()),
        author_namespace: Some("".into()),
        author_name: "  ".into(),
        ..VexConfig::default()
    };
    cfg.normalize_optional_ids();
    assert!(cfg.product_id.is_none());
    assert!(cfg.author_namespace.is_none());
    assert_eq!(cfg.author_name, DEFAULT_VEX_AUTHOR_NAME);
    assert!(cfg.effective_product_id(Some("")).is_none());
    assert_eq!(cfg.effective_product_id(Some(" pkg:app@1 ")), Some("pkg:app@1".to_string()));
}

fn demo_pkg() -> Package {
    Package {
        name: "demo".into(),
        version: "1.0.0".into(),
        ecosystem: Some("PyPI".into()),
    }
}

fn cve(id: &str, reachable: Option<bool>) -> CveRecord {
    CveRecord {
        id: id.into(),
        cvss_version: None,
        description: "desc".into(),
        reachable,
        advisory_symbols: vec![],
        evidence: vec![],
        symbol_usage: None,
        affected_ranges: vec![],
    }
}

fn finding(cve: CveRecord) -> Finding {
    Finding {
        package: demo_pkg(),
        manifest_paths: vec![],
        declarations: vec![],
        upgrade_plan: UpgradePlan {
            minimal_fixed_version: MIN_FIXED_VERSION_UNKNOWN.to_string(),
            dependency_kind: DependencyKind::Unknown,
            apply_strategy: ApplyStrategy::Unavailable,
            confidence: UpgradePlanConfidence::Unknown,
        },
        cves: vec![(cve, Severity::High)],
    }
}

fn fp(justification: Option<&str>, status: Option<&str>, detail: Option<&str>, comment: &str) -> FpEntry {
    FpEntry {
        comment: comment.into(),
        timestamp_secs: 1,
        user: None,
        host: None,
        project_id: None,
        justification: justification.map(str::to_string),
        status: status.map(str::to_string),
        detail: detail.map(str::to_string),
    }
}

#[test]
fn fp_mark_with_justification_is_not_affected() {
    let suppressed = vec![finding(cve("CVE-1", None))];
    let entries = vec![(
        "CVE-1".to_string(),
        fp(Some("vulnerable_code_not_present"), Some("not_affected"), Some("never imported"), "unused"),
    )];
    let stmts = derive_vex_statements(&[], &suppressed, &entries, &VexConfig::default());
    assert_eq!(stmts.len(), 1);
    assert_eq!(stmts[0].status, VexStatus::NotAffected);
    assert_eq!(stmts[0].justification, Some(VexJustification::VulnerableCodeNotPresent));
    assert_eq!(stmts[0].detail.as_deref(), Some("never imported"));
    assert_eq!(stmts[0].purl, "pkg:pypi/demo@1.0.0");
}

#[test]
fn fp_mark_without_justification_uses_fallback() {
    let suppressed = vec![finding(cve("CVE-2", None))];
    let entries = vec![("CVE-2".to_string(), fp(None, None, None, "triaged"))];
    let stmts = derive_vex_statements(&[], &suppressed, &entries, &VexConfig::default());
    assert_eq!(stmts[0].status, VexStatus::NotAffected);
    assert_eq!(stmts[0].justification, Some(VexJustification::InlineMitigationsAlreadyExist));
    assert_eq!(stmts[0].detail.as_deref(), Some("triaged"));
}

#[test]
fn reachable_false_defaults_to_in_triage() {
    let findings = vec![finding(cve("CVE-3", Some(false)))];
    let stmts = derive_vex_statements(&findings, &[], &[], &VexConfig::default());
    assert_eq!(stmts[0].status, VexStatus::UnderInvestigation);
    assert!(stmts[0].justification.is_none());
    assert_eq!(stmts[0].status.as_cyclonedx_state(), "in_triage");
    assert!(stmts[0].detail.as_deref().unwrap().starts_with("Reachability analysis did not find"));
}

#[test]
fn reachable_false_opt_in_not_affected() {
    let findings = vec![finding(cve("CVE-4", Some(false)))];
    let cfg = VexConfig {
        reachability_not_affected: true,
        ..VexConfig::default()
    };
    let stmts = derive_vex_statements(&findings, &[], &[], &cfg);
    assert_eq!(stmts[0].status, VexStatus::NotAffected);
    assert_eq!(stmts[0].justification, Some(VexJustification::VulnerableCodeNotInExecutePath));
}

#[test]
fn reachable_true_is_affected() {
    let findings = vec![finding(cve("CVE-5", Some(true)))];
    let stmts = derive_vex_statements(&findings, &[], &[], &VexConfig::default());
    assert_eq!(stmts[0].status, VexStatus::Affected);
    assert_eq!(stmts[0].status.as_cyclonedx_state(), "exploitable");
}

#[test]
fn reachable_unknown_is_in_triage() {
    let findings = vec![finding(cve("CVE-6", None))];
    let stmts = derive_vex_statements(&findings, &[], &[], &VexConfig::default());
    assert_eq!(stmts[0].status, VexStatus::UnderInvestigation);
}

#[test]
fn upgrade_plan_fixed_version_does_not_infer_fixed_status() {
    let mut f = finding(cve("CVE-FIXED-PLAN", Some(true)));
    f.upgrade_plan.minimal_fixed_version = "2.0.0".into();
    let stmts = derive_vex_statements(&[f], &[], &[], &VexConfig::default());
    assert_eq!(stmts.len(), 1);
    assert_eq!(stmts[0].status, VexStatus::Affected);
    assert_ne!(stmts[0].status.as_str(), "fixed");
}

#[test]
fn fp_mark_takes_precedence_over_reachable_true() {
    let suppressed = vec![finding(cve("CVE-FP", Some(true)))];
    let entries = vec![(
        "CVE-FP".to_string(),
        fp(Some("vulnerable_code_not_in_execute_path"), Some("not_affected"), None, "accepted"),
    )];
    let stmts = derive_vex_statements(&[], &suppressed, &entries, &VexConfig::default());
    assert_eq!(stmts.len(), 1);
    assert_eq!(stmts[0].status, VexStatus::NotAffected);
    assert_eq!(stmts[0].justification, Some(VexJustification::VulnerableCodeNotInExecutePath));
}

#[test]
fn evidence_detail_lists_first_five_sites() {
    let mut c = cve("CVE-E", Some(true));
    for i in 1..=6u32 {
        c.evidence.push(CveEvidenceLocation {
            path: format!("f{i}.py"),
            start_line: i * 10,
            end_line: None,
            symbol: "g".to_string(),
        });
    }
    assert_eq!(
        evidence_detail(&c).unwrap(),
        "Evidence: f1.py:10 (g); f2.py:20 (g); f3.py:30 (g); f4.py:40 (g); f5.py:50 (g)"
    );
    assert!(evidence_detail(&cve("CVE-N", None)).is_none());
}

#[test]
fn cyclonedx_analysis_includes_justification_when_not_affected() {
    let stmt = VexStatement {
        cve_id: "CVE-7".into(),
        purl: "pkg:pypi/demo@1.0.0".into(),
        status: VexStatus::NotAffected,
        justification: Some(VexJustification::VulnerableCodeNotInExecutePath),
        detail: Some("detail".into()),
    };
    let analysis = cyclonedx_analysis_for(&stmt);
    assert_eq!(analysis.state, "not_affected");
    assert_eq!(analysis.justification, Some("code_not_reachable"));
    assert_eq!(analysis.detail.as_deref(), Some("detail"));
}

fn ingested(id: &str, status: IngestStatus, trusted: bool, products: Vec<String>) -> IngestedVexStatement {
    IngestedVexStatement {
        vuln_id: id.to_string(),
        purl: None,
        product_ids: products,
        status,
        justification: None,
        detail: None,
        source: VexIngestSource::OpenVex,
        source_path: "a.openvex.json".to_string(),
        trusted,
    }
}

#[test]
fn merge_suppress_keys_unions_ignore_and_ingest() {
    let ignore = vec!["CVE-1".to_string()];
    let ingest = vec!["CVE-2".to_string(), "CVE-1".to_string()];
    let merged = merge_suppress_keys(&ignore, ingest);
    assert!(merged.contains(&"CVE-1".to_string()));
    assert!(merged.contains(&"CVE-2".to_string()));
}

#[test]
fn suppress_ids_apply_policy_and_warn() {
    let statements = vec![
        ingested(" cve-2024-1 ", IngestStatus::NotAffected, true, vec![]),
        ingested("CVE-2024-2", IngestStatus::Unknown, true, vec![]),
        ingested("CVE-2024-3", IngestStatus::Fixed, false, vec![]),
        ingested("CVE-2024-4", IngestStatus::Fixed, true, vec!["pkg:generic/other@1".to_string()]),
        ingested("CVE-2024-1", IngestStatus::Fixed, true, vec![" pkg:generic/app@1 ".to_string()]),
        ingested("CVE-2024-5", IngestStatus::Affected, true, vec![]),
    ];
    let policy = VexIngestPolicy {
        allow_unsigned: true,
        product_id: Some("pkg:generic/app@1".to_string()),
    };
    let mut warnings = Vec::new();
    let keys = suppress_vuln_ids(&statements, &policy, &mut warnings);
    assert_eq!(keys, vec!["CVE-2024-1".to_string()]);
    assert_eq!(
        warnings,
        vec![
            "VEX ingest a.openvex.json: unknown status for CVE-2024-2; finding kept".to_string(),
            "VEX ingest a.openvex.json: unsigned statement for CVE-2024-3 ignored (allow_unsigned_vex is false)"
                .to_string(),
            "VEX ingest a.openvex.json: product mismatch for CVE-2024-4 (want pkg:generic/app@1); finding kept"
                .to_string(),
        ]
    );
}

#[test]
fn ingest_vocabulary_mappings() {
    assert_eq!(map_openvex_status(" fixed "), IngestStatus::Fixed);
    assert_eq!(map_openvex_status("bogus"), IngestStatus::Unknown);
    assert_eq!(map_cyclonedx_state("false_positive"), IngestStatus::NotAffected);
    assert_eq!(map_cyclonedx_state("resolved_with_pedigree"), IngestStatus::Fixed);
    assert_eq!(map_cyclonedx_state("in_triage"), IngestStatus::UnderInvestigation);
    assert_eq!(ingest_justification_as_vex(Some("code_not_reachable")), Some(VexJustification::VulnerableCodeNotInExecutePath));
    assert_eq!(ingest_justification_as_vex(Some("component_not_present")), Some(VexJustification::ComponentNotPresent));
    assert_eq!(ingest_justification_as_vex(None), None);
    assert_eq!(ingest_status_as_vex(IngestStatus::Fixed), Some(VexStatus::NotAffected));
    assert_eq!(ingest_status_as_vex(IngestStatus::Unknown), None);
    assert!(openvex_context_ok(" https://openvex.dev/ns/v0.2.0 "));
    assert!(openvex_context_ok("https://openvex.dev/ns/v0.3"));
    assert!(!openvex_context_ok("https://example.com/ns"));
    assert!(IngestStatus::Fixed.may_suppress());
    assert!(!IngestStatus::Affected.may_suppress());
}

#[test]
fn is_dependency_save_path_recognizes_manifests() {
    assert!(is_dependency_save_path("/x/Cargo.toml"));
    assert!(is_dependency_save_path("/x/package-lock.json"));
    assert!(!is_dependency_save_path("/x/README.md"));
    assert!(!is_dependency_save_path("/x/src/main.rs"));
}

#[test]
fn dependency_save_path_accepts_sbom_pylock_and_gemspec() {
    assert!(is_dependency_save_path("/x/app.cdx.json"));
    assert!(is_dependency_save_path("pylock.dev.toml"));
    assert!(is_dependency_save_path("gems/x.gemspec"));
    assert!(!is_dependency_save_path("/"));
}

fn report_data(findings: Vec<Finding>, coverage: Vec<ManifestCoverageEntry>) -> ReportData {
    ReportData {
        findings,
        all_packages: None,
        project_id: Some("proj".to_string()),
        root_path: Some("/repo".to_string()),
        manifest_coverage: coverage,
        offline_cache_miss: false,
        provider_fetch_failed: false,
    }
}

#[test]
fn plain_report_lists_findings_and_coverage() {
    let mut c = cve("CVE-9", None);
    c.description = "line one\nline two".to_string();
    c.advisory_symbols = vec!["mod.fn".to_string()];
    let mut f = finding(c);
    f.manifest_paths = vec!["/repo/requirements.txt".to_string()];
    f.cves.push((cve("CVE-10", None), Severity::Low));
    let mut cov = coverage(ManifestScanStatus::ScannedDirectOnly);
    cov.path = "/repo/requirements.txt".to_string();
    cov.direct_only_reason = Some("offline mode".to_string());
    let text = vlz_core::render::render_plain_report(&report_data(vec![f], vec![cov]));
    let dashes = "-".repeat(100);
    let expected = format!(
        "Project: proj\nManifest coverage:\nPath | Language | Status | Direct-only reason | Error\n{dashes}\n\
requirements.txt | python | scanned_direct_only | offline mode | -\n\n\
Package | Version | CVE ID | Severity | Manifest(s) | Description\n{dashes}\n\
demo | 1.0.0 | CVE-9 | HIGH | requirements.txt | line one line two\n  advisory_symbols: mod.fn\n\
\x20\x20|  | CVE-10 | LOW |  | desc\n"
    );
    assert_eq!(text, expected);
}

#[test]
fn plain_report_truncates_long_descriptions_and_shows_empty_message() {
    let mut c = cve("CVE-11", Some(true));
    c.description = "x".repeat(61);
    let text = vlz_core::render::render_plain_report(&report_data(vec![finding(c)], vec![]));
    assert!(text.contains(&format!("| - | {}...\n", "x".repeat(60))));
    let empty = vlz_core::render::render_plain_report(&report_data(vec![], vec![]));
    assert_eq!(empty, "Project: proj\nNo vulnerabilities found.\n");
}

#[test]
fn html_report_escapes_text() {
    let mut c = cve("CVE-12", None);
    c.description = "a < b & \"c\"".to_string();
    let html = vlz_core::render::render_html_report(&report_data(vec![finding(c)], vec![]));
    assert!(html.starts_with("<!DOCTYPE html>"));
    assert!(html.contains("<td>a &lt; b &amp; &quot;c&quot;</td>"));
    assert!(html.contains("<p><strong>Project:</strong> proj</p>"));
    assert!(html.ends_with("</tbody></table>\n</body></html>\n"));
    assert_eq!(vlz_core::render::html_escape("<&>"), "&lt;&amp;&gt;");
}

fn js(s: &str) -> JsonValue {
    JsonValue::String(s.to_string())
}

fn obj(members: Vec<(&str, JsonValue)>) -> JsonValue {
    JsonValue::Object(members.into_iter().map(|(k, v)| (k.to_string(), v)).collect())
}

#[test]
fn openvex_document_statements_are_ingested() {
    use_ingest_openvex(obj(vec![
        ("@context", js("https://openvex.dev/ns/v0.2.0")),
        (
            "statements",
            JsonValue::Array(vec![
                obj(vec![
                    ("vulnerability", obj(vec![("name", js(" CVE-2024-1 "))])),
                    (
                        "products",
                        JsonValue::Array(vec![obj(vec![
                            ("@id", js("pkg:generic/app@1")),
                            ("subcomponents", JsonValue::Array(vec![obj(vec![("@id", js("pkg:npm/lodash@4.17.21"))])])),
                        ])]),
                    ),
                    ("status", js("not_affected")),
                    ("justification", js("vulnerable_code_not_present")),
                ]),
                obj(vec![("status", js("fixed"))]),
                obj(vec![("vulnerability", js("CVE-2024-2")), ("status", js("bogus"))]),
            ]),
        ),
    ]));
}

fn use_ingest_openvex(doc: JsonValue) {
    let parsed = parse_vex_ingest_value(&doc, "a.openvex.json", &VexIngestPolicy::default());
    assert_eq!(parsed.kind, Some(VexIngestKind::OpenVex));
    assert_eq!(parsed.statements.len(), 2);
    let s = &parsed.statements[0];
    assert_eq!(s.vuln_id, "CVE-2024-1");
    assert_eq!(s.product_ids, vec!["pkg:generic/app@1".to_string()]);
    assert_eq!(s.purl.as_deref(), Some("pkg:npm/lodash@4.17.21"));
    assert_eq!(s.status, IngestStatus::NotAffected);
    assert_eq!(s.justification.as_deref(), Some("vulnerable_code_not_present"));
    assert_eq!(parsed.statements[1].status, IngestStatus::Unknown);
    assert_eq!(
        parsed.warnings,
        vec![
            "VEX ingest a.openvex.json: statement missing vulnerability.name; skipped".to_string(),
            "VEX ingest a.openvex.json: unknown OpenVEX status `bogus` for CVE-2024-2; finding kept".to_string(),
        ]
    );
    let mut warnings = Vec::new();
    let keys = suppress_vuln_ids(&parsed.statements, &VexIngestPolicy::default(), &mut warnings);
    assert_eq!(keys, vec!["CVE-2024-1".to_string()]);
}

#[test]
fn cyclonedx_analysis_and_unrecognized_documents() {
    let doc = obj(vec![
        ("bomFormat", js("cyclonedx")),
        (
            "vulnerabilities",
            JsonValue::Array(vec![
                obj(vec![
                    ("id", js("CVE-2024-4")),
                    ("analysis", obj(vec![("state", js("not_affected")), ("detail", js("triaged"))])),
                    ("affects", JsonValue::Array(vec![obj(vec![("ref", js("pkg:npm/left-pad@1.0.0"))])])),
                ]),
                obj(vec![("id", js("CVE-2024-5"))]),
                obj(vec![("analysis", obj(vec![]))]),
            ]),
        ),
    ]);
    let parsed = parse_vex_ingest_value(&doc, "bom.cdx.json", &VexIngestPolicy::default());
    assert_eq!(parsed.kind, Some(VexIngestKind::CycloneDxAnalysis));
    assert_eq!(parsed.statements.len(), 1);
    assert_eq!(parsed.statements[0].purl.as_deref(), Some("pkg:npm/left-pad@1.0.0"));
    assert_eq!(parsed.statements[0].detail.as_deref(), Some("triaged"));
    assert_eq!(
        parsed.warnings,
        vec!["VEX ingest bom.cdx.json: CycloneDX vulnerability missing id; skipped".to_string()]
    );
    let other = parse_vex_ingest_value(&obj(vec![("hello", js("world"))]), "x.json", &VexIngestPolicy::default());
    assert!(other.kind.is_none());
    assert!(other.statements.is_empty());
    assert_eq!(other.warnings.len(), 1);
}

fn openvex_doc(statement: JsonValue) -> JsonValue {
    obj(vec![
        ("@context", js(OPENVEX_CONTEXT)),
        ("statements", JsonValue::Array(vec![statement])),
    ])
}

fn vuln(name: &str) -> (&'static str, JsonValue) {
    ("vulnerability", obj(vec![("name", js(name))]))
}

#[test]
fn openvex_not_affected_suppresses() {
    let doc = obj(vec![
        ("@context", js(OPENVEX_CONTEXT)),
        ("author", js("test")),
        ("timestamp", js("2026-01-01T00:00:00Z")),
        ("version", JsonValue::Number("1".to_string())),
        (
            "statements",
            JsonValue::Array(vec![obj(vec![
                vuln("CVE-2024-1"),
                (
                    "products",
                    JsonValue::Array(vec![obj(vec![
                        ("@id", js("pkg:generic/app@1")),
                        ("subcomponents", JsonValue::Array(vec![obj(vec![("@id", js("pkg:npm/lodash@4.17.21"))])])),
                    ])]),
                ),
                ("status", js("not_affected")),
                ("justification", js("vulnerable_code_not_present")),
            ])]),
        ),
    ]);
    let policy = VexIngestPolicy::default();
    let parsed = parse_vex_ingest_value(&doc, "a.openvex.json", &policy);
    assert_eq!(parsed.kind, Some(VexIngestKind::OpenVex));
    assert_eq!(parsed.statements.len(), 1);
    let mut warnings = Vec::new();
    let keys = suppress_vuln_ids(&parsed.statements, &policy, &mut warnings);
    assert!(keys.contains(&"CVE-2024-1".to_string()));
    assert!(warnings.is_empty());
}

#[test]
fn openvex_unknown_status_does_not_suppress() {
    let doc = openvex_doc(obj(vec![vuln("CVE-2024-2"), ("status", js("not-a-real-status"))]));
    let policy = VexIngestPolicy::default();
    let parsed = parse_vex_ingest_value(&doc, "b.openvex.json", &policy);
    let mut warnings = Vec::new();
    let keys = suppress_vuln_ids(&parsed.statements, &policy, &mut warnings);
    assert!(keys.is_empty());
    assert!(!warnings.is_empty());
}

#[test]
fn openvex_fixed_suppresses_but_upgrade_plans_are_irrelevant() {
    let doc = openvex_doc(obj(vec![vuln("CVE-2024-3"), ("status", js("fixed"))]));
    let policy = VexIngestPolicy::default();
    let parsed = parse_vex_ingest_value(&doc, "c.openvex.json", &policy);
    let mut warnings = Vec::new();
    let keys = suppress_vuln_ids(&parsed.statements, &policy, &mut warnings);
    assert!(keys.contains(&"CVE-2024-3".to_string()));
}

#[test]
fn cyclonedx_analysis_not_affected_suppresses() {
    let doc = obj(vec![
        ("bomFormat", js("CycloneDX")),
        ("specVersion", js("1.6")),
        ("version", JsonValue::Number("1".to_string())),
        (
            "vulnerabilities",
            JsonValue::Array(vec![obj(vec![
                ("id", js("CVE-2024-4")),
                (
                    "analysis",
                    obj(vec![
                        ("state", js("not_affected")),
                        ("justification", js("code_not_present")),
                        ("detail", js("triaged")),
                    ]),
                ),
                ("affects", JsonValue::Array(vec![obj(vec![("ref", js("pkg:npm/left-pad@1.0.0"))])])),
            ])]),
        ),
    ]);
    let policy = VexIngestPolicy::default();
    let parsed = parse_vex_ingest_value(&doc, "bom.cdx.json", &policy);
    assert_eq!(parsed.kind, Some(VexIngestKind::CycloneDxAnalysis));
    let mut warnings = Vec::new();
    let keys = suppress_vuln_ids(&parsed.statements, &policy, &mut warnings);
    assert!(keys.contains(&"CVE-2024-4".to_string()));
}

#[test]
fn cyclonedx_without_analysis_does_not_suppress() {
    let doc = obj(vec![
        ("bomFormat", js("CycloneDX")),
        ("specVersion", js("1.6")),
        ("vulnerabilities", JsonValue::Array(vec![obj(vec![("id", js("CVE-2024-5"))])])),
    ]);
    let policy = VexIngestPolicy::default();
    let parsed = parse_vex_ingest_value(&doc, "inv.cdx.json", &policy);
    let mut warnings = Vec::new();
    let keys = suppress_vuln_ids(&parsed.statements, &policy, &mut warnings);
    assert!(keys.is_empty());
}

#[test]
fn unsigned_rejected_when_disallowed() {
    let doc = openvex_doc(obj(vec![vuln("CVE-2024-6"), ("status", js("not_affected"))]));
    let policy = VexIngestPolicy {
        allow_unsigned: false,
        product_id: None,
    };
    let parsed = parse_vex_ingest_value(&doc, "u.openvex.json", &policy);
    assert!(!parsed.statements[0].trusted);
    let mut warnings = Vec::new();
    let keys = suppress_vuln_ids(&parsed.statements, &policy, &mut warnings);
    assert!(keys.is_empty());
    assert!(!warnings.is_empty());
}

#[test]
fn product_filter_keeps_mismatched_findings() {
    let doc = openvex_doc(obj(vec![
        vuln("CVE-2024-7"),
        ("products", JsonValue::Array(vec![obj(vec![("@id", js("pkg:generic/other@1"))])])),
        ("status", js("not_affected")),
    ]));
    let policy = VexIngestPolicy {
        allow_unsigned: true,
        product_id: Some("pkg:generic/app@1".into()),
    };
    let parsed = parse_vex_ingest_value(&doc, "p.openvex.json", &policy);
    let mut warnings = Vec::new();
    let keys = suppress_vuln_ids(&parsed.statements, &policy, &mut warnings);
    assert!(keys.is_empty());
    assert!(!warnings.is_empty());
}

#[test]
fn unrecognized_document_warns_without_suppress() {
    let doc = obj(vec![("hello", js("world"))]);
    let policy = VexIngestPolicy::default();
    let parsed = parse_vex_ingest_value(&doc, "x.json", &policy);
    assert!(parsed.kind.is_none());
    assert!(!parsed.warnings.is_empty());
    assert!(parsed.statements.is_empty());
}
