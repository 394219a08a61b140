use vlz_core::annotate::vuln_for_cve_id;
use vlz_core::db::{importable_entries, CorpusDocument, CorpusEntry, CorpusImportError};
use vlz_core::declarations::{
    lock_declarations_from_parsed, manifest_declarations_for_packages, merge_declaration_maps,
    ParsedDependency,
};
use vlz_core::json::JsonValue;
use vlz_core::model::{DeclarationKind, Package, PackageDeclarationLocation, CRATES_IO_ECOSYSTEM};
use vlz_core::purl::normalize_purl_name;
use vlz_core::reach::measure_tier_b_counters;
use vlz_core::scan::{extract_inline_version, parse_dep_key_line, parse_toml_key_value};
use vlz_core::time::format_timestamp_rfc3339;
use vlz_core::vex::vex_fp_statuses;

#[test]
fn toml_key_value_trims_quotes_and_needs_a_key() {
    assert_eq!(
        parse_toml_key_value(r#"  name = "requests" "#),
        Some(("name".to_string(), "requests".to_string()))
    );
    assert_eq!(
        parse_toml_key_value(r#""version" = '2.31.0'"#),
        Some(("version".to_string(), "2.31.0".to_string()))
    );
    assert_eq!(parse_toml_key_value(" = 1"), None);
    assert_eq!(parse_toml_key_value("no equals sign"), None);
}

#[test]
fn inline_table_version_or_any() {
    assert_eq!(extract_inline_version(r#"{ version = "1.0", features = ["derive"] }"#), "1.0");
    assert_eq!(extract_inline_version(r#"{ path = "../local" }"#), "any");
    assert_eq!(extract_inline_version(r#"{ git = "https://example.com/x" }"#), "any");
}

#[test]
fn dependency_key_lines() {
    assert_eq!(parse_dep_key_line(r#"serde = "1.0""#), Some(("serde".to_string(), "1.0".to_string())));
    assert_eq!(
        parse_dep_key_line(r#"tokio = { version = "1.38", features = ["full"] }"#),
        Some(("tokio".to_string(), "1.38".to_string()))
    );
    assert_eq!(parse_dep_key_line("[dependencies]"), None);
    assert_eq!(parse_dep_key_line("just text"), None);
}

#[test]
fn purl_names_normalize_maven_coordinates() {
    assert_eq!(
        normalize_purl_name("maven", "org.apache/commons-lang3"),
        Some("org.apache:commons-lang3".to_string())
    );
    assert_eq!(
        normalize_purl_name("MAVEN", "org.apache/commons-lang3/jar"),
        Some("org.apache:commons-lang3".to_string())
    );
    assert_eq!(normalize_purl_name("maven", "/artifact"), None);
    assert_eq!(normalize_purl_name("maven", "g:a"), Some("g:a".to_string()));
    assert_eq!(normalize_purl_name("pypi", "requests"), Some("requests".to_string()));
}

fn vuln(id: &str) -> JsonValue {
    JsonValue::Object(vec![("id".to_string(), JsonValue::String(id.to_string()))])
}

#[test]
fn vulnerability_found_by_first_matching_id() {
    let vulns = vec![vuln("GHSA-1"), vuln("CVE-2024-1"), vuln("CVE-2024-1")];
    assert_eq!(vuln_for_cve_id(&vulns, "CVE-2024-1"), Some(1));
    assert_eq!(vuln_for_cve_id(&vulns, "CVE-2024-9"), None);
    assert_eq!(vuln_for_cve_id(&[], "CVE-2024-1"), None);
}

#[test]
fn vex_mark_statuses_allow_not_affected_only() {
    assert_eq!(vex_fp_statuses(), vec!["not_affected"]);
}

#[test]
fn counters_are_zero_without_instrumentation() {
    let (value, counters) = measure_tier_b_counters(|| 41 + 1);
    assert_eq!(value, 42);
    assert_eq!(counters, (0, 0, 0, 0));
}

#[test]
fn current_timestamp_has_rfc3339_shape() {
    let t = format_timestamp_rfc3339();
    assert_eq!(t.len(), 20);
    assert!(t.ends_with('Z'));
    assert_eq!(&t[4..5], "-");
    assert_eq!(&t[10..11], "T");
}

fn entry(key: &str, ttl: u64) -> CorpusEntry {
    CorpusEntry {
        key: key.to_string(),
        ttl_secs: ttl,
        added_at_secs: None,
        raw_vulns: vec![],
    }
}

#[test]
fn importable_entries_split_keys_and_raise_ttl() {
    let doc = CorpusDocument {
        schema_version: 1,
        entries: vec![entry("serde::1.0.0::osv", 0), entry("a::b::c::2.0::osv", 60)],
    };
    let out = importable_entries(&doc).expect("valid keys");
    assert_eq!(out.len(), 2);
    assert_eq!(out[0].package.name, "serde");
    assert_eq!(out[0].package.version, "1.0.0");
    assert_eq!(out[0].provider_id, "osv");
    assert_eq!(out[0].ttl_secs, 1);
    assert_eq!(out[1].package.name, "a::b::c");
    assert_eq!(out[1].package.version, "2.0");
    assert_eq!(out[1].ttl_secs, 60);
    let bad = CorpusDocument {
        schema_version: 1,
        entries: vec![entry("no-separators", 5)],
    };
    assert!(matches!(importable_entries(&bad), Err(CorpusImportError::InvalidKey(k)) if k == "no-separators"));
}

fn pkg(name: &str, version: &str) -> Package {
    Package {
        name: name.to_string(),
        version: version.to_string(),
        ecosystem: Some(CRATES_IO_ECOSYSTEM.to_string()),
    }
}

fn parsed(p: Package, path: &str, line: u32, kind: DeclarationKind) -> ParsedDependency {
    ParsedDependency {
        package: p,
        path: path.to_string(),
        start_line: line,
        end_line: None,
        kind,
    }
}

fn decl(path: &str, line: u32, kind: DeclarationKind) -> PackageDeclarationLocation {
    PackageDeclarationLocation {
        path: path.to_string(),
        start_line: line,
        end_line: None,
        kind,
    }
}

#[test]
fn lock_and_manifest_declarations_are_indexed_and_merged() {
    let serde = pkg("serde", "1.0.200");
    let deps = vec![
        parsed(serde.clone(), "Cargo.lock", 40, DeclarationKind::Lockfile),
        parsed(pkg("Serde", "1"), "Cargo.toml", 7, DeclarationKind::Manifest),
        parsed(serde.clone(), "Cargo.lock", 12, DeclarationKind::Lockfile),
    ];
    let locks = lock_declarations_from_parsed(&deps);
    assert_eq!(locks.len(), 1);
    assert_eq!(
        locks.get(&serde).cloned(),
        Some(vec![decl("Cargo.lock", 12, DeclarationKind::Lockfile), decl("Cargo.lock", 40, DeclarationKind::Lockfile)])
    );

    let mut manifests = manifest_declarations_for_packages(&deps, &[serde.clone(), pkg("rand", "0.8.5")]);
    assert_eq!(manifests.len(), 1);
    assert_eq!(manifests.get(&serde).cloned(), Some(vec![decl("Cargo.toml", 7, DeclarationKind::Manifest)]));

    merge_declaration_maps(&mut manifests, locks);
    assert_eq!(
        manifests.get(&serde).cloned(),
        Some(vec![
            decl("Cargo.toml", 7, DeclarationKind::Manifest),
            decl("Cargo.lock", 12, DeclarationKind::Lockfile),
            decl("Cargo.lock", 40, DeclarationKind::Lockfile),
        ])
    );
}
