use vlz_core::json::JsonValue;
use vlz_core::model::{
    CveEvidenceLocation, CveRecord, CvssVersion, DeclarationKind, Package, PackageDeclarationLocation,
    Severity, CRATES_IO_ECOSYSTEM, GO_ECOSYSTEM, PYPI_ECOSYSTEM,
};
use vlz_core::remediate::{
    ApplyStrategy, DependencyKind, UpgradePlan, UpgradePlanConfidence, MIN_FIXED_VERSION_UNKNOWN,
};
use vlz_core::render::{render_html_report, render_plain_report};
use vlz_core::report::{
    CycloneDxReporter, Finding, JsonReporter, ManifestCoverageEntry, ManifestScanStatus, ReportData, SarifReporter,
    SpdxReporter, DEGRADED_COVERAGE_NO_VULNERABILITIES_MESSAGE, MANIFEST_STATUS_FAILED_RESOLUTION,
    NO_VULNERABILITIES_FOUND_MESSAGE, SCAN_INCOMPLETE_MESSAGE,
};
use vlz_core::time::{days_to_ymd, format_timestamp_at, secs_to_ymdhms};

fn get<'a>(v: &'a JsonValue, key: &str) -> &'a JsonValue {
    v.get(key).unwrap_or_else(|| panic!("missing member {key}"))
}

fn idx(v: &JsonValue, i: usize) -> &JsonValue {
    &v.as_array().expect("array")[i]
}

fn text(v: &JsonValue) -> &str {
    v.as_str().expect("string")
}

fn number(v: &JsonValue) -> &str {
    match v {
        JsonValue::Number(n) => n.as_str(),
        _ => panic!("not a number"),
    }
}

fn plan() -> UpgradePlan {
    UpgradePlan {
        minimal_fixed_version: MIN_FIXED_VERSION_UNKNOWN.to_string(),
        dependency_kind: DependencyKind::Unknown,
        apply_strategy: ApplyStrategy::Unavailable,
        confidence: UpgradePlanConfidence::Unknown,
    }
}

fn cve_record(id: &str, description: &str) -> CveRecord {
    CveRecord {
        id: id.to_string(),
        cvss_version: Some(CvssVersion::V3),
        description: description.to_string(),
        reachable: None,
        advisory_symbols: Vec::new(),
        evidence: Vec::new(),
        symbol_usage: None,
        affected_ranges: Vec::new(),
    }
}

fn data(findings: Vec<Finding>, all_packages: Option<Vec<Package>>) -> ReportData {
    ReportData {
        findings,
        all_packages,
        project_id: None,
        root_path: None,
        manifest_coverage: vec![],
        offline_cache_miss: false,
        provider_fetch_failed: false,
    }
}

fn sample_report_data_one_finding() -> ReportData {
    let pkg = Package {
        name: "foo".to_string(),
        version: "1.0".to_string(),
        ecosystem: None,
    };
    data(
        vec![Finding {
            package: pkg,
            manifest_paths: vec!["Cargo.toml".to_string()],
            declarations: Vec::new(),
            upgrade_plan: plan(),
            cves: vec![(cve_record("CVE-2023-1234", "A bug"), Severity::High)],
        }],
        None,
    )
}

fn sample_report_data_with_all_packages() -> ReportData {
    let pkg_foo = Package {
        name: "foo".to_string(),
        version: "1.0".to_string(),
        ecosystem: Some(CRATES_IO_ECOSYSTEM.to_string()),
    };
    let pkg_bar = Package {
        name: "bar".to_string(),
        version: "2.0".to_string(),
        ecosystem: Some(PYPI_ECOSYSTEM.to_string()),
    };
    data(
        vec![Finding {
            package: pkg_foo.clone(),
            manifest_paths: vec!["Cargo.toml".to_string()],
            declarations: Vec::new(),
            upgrade_plan: plan(),
            cves: vec![(cve_record("CVE-2023-1234", "A bug"), Severity::High)],
        }],
        Some(vec![pkg_foo, pkg_bar]),
    )
}

fn sample_report_data_with_manifest_coverage() -> ReportData {
    let mut d = data(vec![], None);
    d.root_path = Some("/root".to_string());
    d.manifest_coverage = vec![
        ManifestCoverageEntry {
            path: "/root/good/requirements.txt".to_string(),
            language: "python".to_string(),
            status: ManifestScanStatus::ScannedTransitive,
            direct_only_reason: None,
            error: None,
        },
        ManifestCoverageEntry {
            path: "/root/broken/requirements.txt".to_string(),
            language: "python".to_string(),
            status: ManifestScanStatus::FailedResolution,
            direct_only_reason: None,
            error: Some("resolve failed".to_string()),
        },
    ];
    d
}

fn evidence_cve() -> CveRecord {
    let mut cve = cve_record("CVE-EVID", "Symbol usage");
    cve.reachable = Some(true);
    cve.advisory_symbols = vec!["VulnFn".to_string()];
    cve.evidence = vec![CveEvidenceLocation {
        path: "main.go".to_string(),
        start_line: 4,
        end_line: None,
        symbol: "VulnFn".to_string(),
    }];
    cve.symbol_usage = Some("used".to_string());
    cve
}

fn go_pkg() -> Package {
    Package {
        name: "foo".to_string(),
        version: "1.0".to_string(),
        ecosystem: Some(GO_ECOSYSTEM.to_string()),
    }
}

#[test]
fn sarif_reporter_includes_manifest_coverage_in_properties() {
    let doc = SarifReporter::new().document(&sample_report_data_with_manifest_coverage());
    let props = get(get(idx(get(&doc, "runs"), 0), "properties"), "manifest_coverage");
    assert_eq!(props.as_array().expect("array").len(), 2);
    assert_eq!(text(get(idx(props, 0), "path")), "good/requirements.txt");
    assert_eq!(text(get(idx(props, 1), "status")), "failed_resolution");
    assert_eq!(text(get(idx(props, 1), "error")), "resolve failed");
    assert!(idx(props, 0).get("error").is_none());
}

#[test]
fn sarif_reporter_uses_declarations_as_primary_when_no_evidence() {
    let pkg = Package {
        name: "requests".to_string(),
        version: "2.31.0".to_string(),
        ecosystem: Some(PYPI_ECOSYSTEM.to_string()),
    };
    let d = data(
        vec![Finding {
            package: pkg,
            manifest_paths: vec!["pyproject.toml".to_string()],
            declarations: vec![PackageDeclarationLocation {
                path: "pyproject.toml".to_string(),
                start_line: 8,
                end_line: None,
                kind: DeclarationKind::Manifest,
            }],
            upgrade_plan: plan(),
            cves: vec![(cve_record("CVE-DECL", "Declaration only"), Severity::Medium)],
        }],
        None,
    );
    let doc = SarifReporter::new().document(&d);
    let result = idx(get(idx(get(&doc, "runs"), 0), "results"), 0);
    let location = idx(get(result, "locations"), 0);
    assert_eq!(number(get(get(get(location, "physicalLocation"), "region"), "startLine")), "8");
    assert_eq!(text(get(get(location, "properties"), "location_kind")), "declaration");
    assert!(result.get("relatedLocations").is_none());
    assert_eq!(text(get(result, "level")), "warning");
}

#[test]
fn sarif_reporter_puts_declarations_in_related_when_evidence_present() {
    let d = data(
        vec![Finding {
            package: go_pkg(),
            manifest_paths: vec!["go.mod".to_string()],
            declarations: vec![PackageDeclarationLocation {
                path: "go.mod".to_string(),
                start_line: 3,
                end_line: None,
                kind: DeclarationKind::Manifest,
            }],
            upgrade_plan: plan(),
            cves: vec![(evidence_cve(), Severity::High)],
        }],
        None,
    );
    let doc = SarifReporter::new().document(&d);
    let result = idx(get(idx(get(&doc, "runs"), 0), "results"), 0);
    let location = get(idx(get(result, "locations"), 0), "physicalLocation");
    assert_eq!(text(get(get(location, "artifactLocation"), "uri")), "main.go");
    let related = get(result, "relatedLocations");
    assert_eq!(related.as_array().expect("relatedLocations").len(), 1);
    assert_eq!(number(get(get(get(idx(related, 0), "physicalLocation"), "region"), "startLine")), "3");
    assert_eq!(text(get(get(idx(related, 0), "properties"), "location_kind")), "declaration");
}

#[test]
fn sarif_reporter_uses_evidence_as_primary_location() {
    let d = data(
        vec![Finding {
            package: go_pkg(),
            manifest_paths: vec!["go.mod".to_string()],
            declarations: Vec::new(),
            upgrade_plan: plan(),
            cves: vec![(evidence_cve(), Severity::High)],
        }],
        None,
    );
    let doc = SarifReporter::new().document(&d);
    let result = idx(get(idx(get(&doc, "runs"), 0), "results"), 0);
    let location = get(idx(get(result, "locations"), 0), "physicalLocation");
    assert_eq!(text(get(get(location, "artifactLocation"), "uri")), "main.go");
    assert_eq!(number(get(get(location, "region"), "startLine")), "4");
    let related = get(result, "relatedLocations");
    assert_eq!(related.as_array().expect("relatedLocations").len(), 1);
    assert_eq!(
        text(get(get(get(idx(related, 0), "physicalLocation"), "artifactLocation"), "uri")),
        "go.mod"
    );
    assert_eq!(text(get(get(result, "properties"), "symbol_usage")), "used");
    assert!(matches!(get(get(result, "properties"), "reachable"), JsonValue::Bool(true)));
}

#[test]
fn sarif_reporter_contains_schema_version_and_results() {
    let doc = SarifReporter::new().document(&sample_report_data_one_finding());
    assert!(doc.get("$schema").is_some());
    assert_eq!(text(get(&doc, "version")), "2.1.0");
    let results = get(idx(get(&doc, "runs"), 0), "results");
    assert_eq!(results.as_array().unwrap().len(), 1);
    assert_eq!(text(get(idx(results, 0), "ruleId")), "CVE-2023-1234");
    assert!(idx(results, 0).get("message").is_some());
}

#[test]
fn sarif_reporter_has_required_schema_fields() {
    let doc = SarifReporter::new().document(&sample_report_data_one_finding());
    assert!(doc.get("$schema").is_some());
    assert_eq!(text(get(&doc, "version")), "2.1.0");
    let runs = get(&doc, "runs").as_array().unwrap();
    assert!(!runs.is_empty());
    let driver = get(get(&runs[0], "tool"), "driver");
    assert_eq!(text(get(driver, "name")), "vlz");
    assert!(driver.get("rules").is_some());
}

#[test]
fn sarif_reporter_includes_rules_for_each_cve() {
    let doc = SarifReporter::new().document(&sample_report_data_one_finding());
    let rules = get(get(get(idx(get(&doc, "runs"), 0), "tool"), "driver"), "rules");
    assert_eq!(rules.as_array().unwrap().len(), 1);
    assert_eq!(text(get(idx(rules, 0), "id")), "CVE-2023-1234");
    assert_eq!(text(get(idx(rules, 0), "helpUri")), "https://nvd.nist.gov/vuln/detail/CVE-2023-1234");
}

#[test]
fn sarif_rules_list_each_cve_id_once_in_first_order() {
    let mut d = sample_report_data_one_finding();
    let mut second = d.findings[0].clone();
    second.cves.push((cve_record("CVE-2", "other"), Severity::Low));
    d.findings.push(second);
    let doc = SarifReporter::new().document(&d);
    let rules = get(get(get(idx(get(&doc, "runs"), 0), "tool"), "driver"), "rules");
    let ids: Vec<&str> = rules.as_array().unwrap().iter().map(|r| text(get(r, "id"))).collect();
    assert_eq!(ids, vec!["CVE-2023-1234", "CVE-2"]);
    assert_eq!(get(idx(get(&doc, "runs"), 0), "results").as_array().unwrap().len(), 3);
}

#[test]
fn cyclonedx_reporter_empty_findings_produces_valid_bom() {
    let doc = CycloneDxReporter::new().document(&data(vec![], Some(vec![])), &vec![]);
    assert_eq!(text(get(&doc, "bomFormat")), "CycloneDX");
    assert_eq!(text(get(&doc, "specVersion")), "1.6");
    assert!(doc.get("metadata").is_some());
    assert!(get(&doc, "components").as_array().unwrap().is_empty());
}

#[test]
fn cyclonedx_reporter_includes_all_packages_as_components() {
    let doc = CycloneDxReporter::new().document(&sample_report_data_with_all_packages(), &vec![]);
    let components = get(&doc, "components").as_array().unwrap();
    assert_eq!(components.len(), 2);
    let names: Vec<&str> = components.iter().map(|c| text(get(c, "name"))).collect();
    assert!(names.contains(&"foo"));
    assert!(names.contains(&"bar"));
    let purls: Vec<&str> = components.iter().map(|c| text(get(c, "purl"))).collect();
    assert!(purls.contains(&"pkg:cargo/foo@1.0"));
    assert!(purls.contains(&"pkg:pypi/bar@2.0"));
}

#[test]
fn cyclonedx_reporter_includes_vulnerabilities_with_affects() {
    let doc = CycloneDxReporter::new().document(&sample_report_data_with_all_packages(), &vec![]);
    let vulns = get(&doc, "vulnerabilities").as_array().unwrap();
    assert_eq!(vulns.len(), 1);
    assert_eq!(text(get(&vulns[0], "id")), "CVE-2023-1234");
    let affects = get(&vulns[0], "affects");
    assert_eq!(affects.as_array().unwrap().len(), 1);
    assert_eq!(text(get(idx(affects, 0), "ref")), "pkg:cargo/foo@1.0");
    assert!(vulns[0].get("ratings").is_none());
}

#[test]
fn cyclonedx_rating_uses_given_score_method_and_severity() {
    let scores = vec![vec![Some("7.5".to_string())]];
    let doc = CycloneDxReporter::new().document_at(&sample_report_data_with_all_packages(), 0, &scores);
    let vuln = idx(get(&doc, "vulnerabilities"), 0);
    let rating = idx(get(vuln, "ratings"), 0);
    assert_eq!(text(get(rating, "method")), "CVSSv3");
    assert_eq!(number(get(rating, "score")), "7.5");
    assert_eq!(text(get(rating, "severity")), "High");
    assert_eq!(text(get(get(&doc, "metadata"), "timestamp")), "1970-01-01T00:00:00Z");
    assert_eq!(text(get(idx(get(vuln, "properties"), 0), "value")), "Cargo.toml");
}

#[test]
fn cyclonedx_reporter_collision_names_use_cargo_purls() {
    let collision_crates = [("ryu", "1.0.23"), ("h2", "0.4.13"), ("idna", "1.1.0"), ("wiremock", "0.6.5")];
    let packages: Vec<Package> = collision_crates
        .iter()
        .map(|(name, version)| Package {
            name: (*name).to_string(),
            version: (*version).to_string(),
            ecosystem: Some(CRATES_IO_ECOSYSTEM.to_string()),
        })
        .collect();
    let doc = CycloneDxReporter::new().document(&data(vec![], Some(packages)), &vec![]);
    let components = get(&doc, "components").as_array().unwrap();
    for (name, version) in collision_crates {
        let expected = format!("pkg:cargo/{}@{}", name, version);
        assert!(
            components.iter().any(|c| c.get("purl").and_then(|p| p.as_str()) == Some(expected.as_str())),
            "expected cargo PURL for {name}, not pkg:pypi"
        );
    }
}

#[test]
fn cyclonedx_reporter_go_packages_use_golang_purls() {
    let pkg = Package {
        name: "github.com/example/mod".to_string(),
        version: "v1.2.3".to_string(),
        ecosystem: Some(GO_ECOSYSTEM.to_string()),
    };
    let doc = CycloneDxReporter::new().document(&data(vec![], Some(vec![pkg])), &vec![]);
    assert_eq!(text(get(idx(get(&doc, "components"), 0), "purl")), "pkg:golang/github.com/example/mod@v1.2.3");
}

#[test]
fn cyclonedx_reporter_schema_key_fields() {
    let doc = CycloneDxReporter::new().document(&sample_report_data_one_finding(), &vec![]);
    assert_eq!(text(get(&doc, "bomFormat")), "CycloneDX");
    assert_eq!(text(get(&doc, "specVersion")), "1.6");
    assert!(doc.get("metadata").is_some());
    assert!(doc.get("components").is_some());
    assert!(doc.get("vulnerabilities").is_some());
}

#[test]
fn spdx_reporter_empty_produces_valid_document() {
    let doc = SpdxReporter::new().document(&data(vec![], Some(vec![])));
    assert!(doc.get("@context").is_some());
    assert_eq!(text(get(&doc, "@type")), "SpdxDocument");
    assert!(text(get(&doc, "spdxId")).starts_with("urn:spdx.dev:doc-"));
    assert!(doc.get("creationInfo").is_some());
}

#[test]
fn spdx_reporter_includes_packages_as_elements() {
    let doc = SpdxReporter::new().document(&sample_report_data_with_all_packages());
    let elements = get(&doc, "element").as_array().unwrap();
    let pkg_urls: Vec<&str> = elements
        .iter()
        .filter(|e| e.get("@type").and_then(|t| t.as_str()) == Some("Package"))
        .map(|e| text(get(e, "packageUrl")))
        .collect();
    assert!(pkg_urls.len() >= 2);
    assert!(pkg_urls.contains(&"pkg:cargo/foo@1.0"));
    assert!(pkg_urls.contains(&"pkg:pypi/bar@2.0"));
    assert_eq!(text(get(&elements[0], "spdxId")), "urn:spdx.dev:pkg-cargo-foo-1-0");
}

#[test]
fn spdx_reporter_includes_vulnerabilities_and_relationships() {
    let doc = SpdxReporter::new().document(&sample_report_data_with_all_packages());
    let elements = get(&doc, "element").as_array().unwrap();
    let vuln_count = elements
        .iter()
        .filter(|e| e.get("@type").and_then(|t| t.as_str()) == Some("Vulnerability"))
        .count();
    assert_eq!(vuln_count, 1);
    let rels = get(&doc, "relationship").as_array().unwrap();
    assert!(!rels.is_empty());
    assert_eq!(text(get(&rels[0], "relationshipType")), "hasAssociatedVulnerability");
    assert_eq!(text(get(idx(get(&rels[0], "annotations"), 0), "comment")), "Manifest(s): Cargo.toml");
}

#[test]
fn spdx_reporter_uses_external_identifier_for_cve() {
    let doc = SpdxReporter::new().document(&sample_report_data_one_finding());
    let elements = get(&doc, "element").as_array().unwrap();
    let vuln = elements
        .iter()
        .find(|e| e.get("@type").and_then(|t| t.as_str()) == Some("Vulnerability"))
        .unwrap();
    assert_eq!(text(get(get(vuln, "externalIdentifier"), "identifier")), "CVE-2023-1234");
    assert_eq!(text(get(vuln, "spdxId")), "urn:spdx.dev:vuln-CVE-2023-1234");
}

#[test]
fn spdx_document_at_fixed_time_is_stamped() {
    let doc = SpdxReporter::new().document_at(&sample_report_data_one_finding(), 86_400);
    assert_eq!(text(get(&doc, "spdxId")), "urn:spdx.dev:doc-86400");
    assert_eq!(text(get(get(&doc, "creationInfo"), "created")), "1970-01-02T00:00:00Z");
}

#[test]
fn days_to_ymd_known_dates() {
    assert_eq!(days_to_ymd(0), (1970, 1, 1));
    assert_eq!(days_to_ymd(59), (1970, 3, 1));
    assert_eq!(days_to_ymd(365), (1971, 1, 1));
    assert_eq!(days_to_ymd(789), (1972, 2, 29));
    assert_eq!(days_to_ymd(10_957), (2000, 1, 1));
    assert_eq!(days_to_ymd(11_016), (2000, 2, 29));
    assert_eq!(days_to_ymd(19_723), (2024, 1, 1));
}

#[test]
fn timestamps_format_as_rfc3339() {
    assert_eq!(secs_to_ymdhms(1_700_000_000), (2023, 11, 14, 22, 13, 20));
    assert_eq!(format_timestamp_at(1_700_000_000), "2023-11-14T22:13:20Z");
    assert_eq!(format_timestamp_at(951_782_400), "2000-02-29T00:00:00Z");
}

#[test]
fn default_reporter_empty_findings() {
    let out = render_plain_report(&data(vec![], None));
    assert!(out.contains(NO_VULNERABILITIES_FOUND_MESSAGE));
}

#[test]
fn default_reporter_incomplete_scan_empty_findings() {
    let out = render_plain_report(&sample_report_data_with_manifest_coverage());
    assert!(out.contains(SCAN_INCOMPLETE_MESSAGE));
    assert!(!out.contains(NO_VULNERABILITIES_FOUND_MESSAGE));
    assert!(!out.contains(DEGRADED_COVERAGE_NO_VULNERABILITIES_MESSAGE));
}

#[test]
fn default_reporter_degraded_coverage_empty_findings() {
    let mut d = data(vec![], None);
    d.manifest_coverage = vec![ManifestCoverageEntry {
        path: "requirements.txt".to_string(),
        language: "python".to_string(),
        status: ManifestScanStatus::ScannedDirectOnly,
        direct_only_reason: Some("transitive resolution failed; direct-only fallback enabled".to_string()),
        error: None,
    }];
    let out = render_plain_report(&d);
    assert!(out.contains(DEGRADED_COVERAGE_NO_VULNERABILITIES_MESSAGE));
    assert!(!out.contains(NO_VULNERABILITIES_FOUND_MESSAGE));
    assert!(!out.contains(SCAN_INCOMPLETE_MESSAGE));
}

#[test]
fn default_reporter_one_finding() {
    let out = render_plain_report(&sample_report_data_one_finding());
    assert!(out.contains("foo"));
    assert!(out.contains("CVE-2023-1234"));
    assert!(out.contains("HIGH"));
    assert!(out.contains("Manifest(s)"));
    assert!(out.contains("Cargo.toml"));
}

#[test]
fn default_reporter_includes_manifest_coverage_section() {
    let out = render_plain_report(&sample_report_data_with_manifest_coverage());
    assert!(out.contains("Manifest coverage:"));
    assert!(out.contains("failed_resolution"));
    assert!(out.contains("broken/requirements.txt"));
}

#[test]
fn default_reporter_includes_project_id_when_provided_fr015a() {
    let mut d = data(vec![], None);
    d.project_id = Some("myproj".to_string());
    assert!(render_plain_report(&d).contains("Project: myproj"));
}

#[test]
fn html_reporter_includes_manifest_coverage_table() {
    let out = render_html_report(&sample_report_data_with_manifest_coverage());
    assert!(out.contains("Manifest coverage"));
    assert!(out.contains("failed_resolution"));
}

#[test]
fn html_reporter_contains_table_and_escapes() {
    let pkg = Package {
        name: "pkg".to_string(),
        version: "1.0".to_string(),
        ecosystem: None,
    };
    let mut cve = cve_record("CVE-X", "a <b> & \"quoted\"");
    cve.cvss_version = None;
    let d = data(
        vec![Finding {
            package: pkg,
            manifest_paths: vec!["pyproject.toml".to_string()],
            declarations: Vec::new(),
            upgrade_plan: plan(),
            cves: vec![(cve, Severity::Medium)],
        }],
        None,
    );
    let out = render_html_report(&d);
    assert!(out.contains("<table"));
    assert!(out.contains("&lt;"));
    assert!(out.contains("&amp;"));
    assert!(out.contains("&quot;"));
}

#[test]
fn json_reporter_includes_manifest_coverage() {
    let d = sample_report_data_with_manifest_coverage();
    let doc = JsonReporter::new().document(&d, &Vec::new());
    let coverage = get(&doc, "manifest_coverage").as_array().expect("array");
    assert_eq!(coverage.len(), 2);
    assert_eq!(text(get(&coverage[1], "status")), MANIFEST_STATUS_FAILED_RESOLUTION);
    assert_eq!(text(get(&coverage[1], "path")), "broken/requirements.txt");
    assert_eq!(text(get(&coverage[1], "error")), "resolve failed");
    assert!(coverage[0].get("error").is_none());
}

#[test]
fn json_report_lists_findings_with_scores_and_severity() {
    let mut d = sample_report_data_one_finding();
    d.project_id = Some("proj-1".to_string());
    d.findings[0].declarations = vec![PackageDeclarationLocation {
        path: "Cargo.toml".to_string(),
        start_line: 3,
        end_line: None,
        kind: DeclarationKind::Manifest,
    }];
    d.findings[0].cves[0].0.reachable = Some(true);
    let doc = JsonReporter::new().document(&d, &vec![vec![Some("7.5".to_string())]]);
    let JsonValue::Object(members) = &doc else { panic!("object expected") };
    let keys: Vec<&str> = members.iter().map(|(k, _)| k.as_str()).collect();
    assert_eq!(keys, vec!["$schema", "project_id", "manifest_coverage", "findings"]);
    assert_eq!(text(get(&doc, "project_id")), "proj-1");
    let finding = idx(get(&doc, "findings"), 0);
    assert_eq!(text(get(get(finding, "package"), "name")), "foo");
    assert!(get(finding, "package").get("ecosystem").is_none());
    assert_eq!(text(idx(get(finding, "manifest_paths"), 0)), "Cargo.toml");
    let decl = idx(get(finding, "declarations"), 0);
    assert_eq!(number(get(decl, "start_line")), "3");
    assert_eq!(text(get(decl, "kind")), "manifest");
    assert!(decl.get("end_line").is_none());
    let cve = idx(get(finding, "cves"), 0);
    assert_eq!(text(get(cve, "id")), "CVE-2023-1234");
    assert_eq!(number(get(cve, "cvss_score")), "7.5");
    assert_eq!(text(get(cve, "cvss_version")), "v3");
    assert!(matches!(get(cve, "reachable"), JsonValue::Bool(true)));
    assert_eq!(text(get(cve, "severity")), "HIGH");
    assert!(cve.get("advisory_symbols").is_none());
    let unscored = JsonReporter::new().document(&d, &Vec::new());
    let cve = idx(get(idx(get(&unscored, "findings"), 0), "cves"), 0);
    assert!(matches!(get(cve, "cvss_score"), JsonValue::Null));
}
