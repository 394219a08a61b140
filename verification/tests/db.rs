use vlz_core::db::{
    check_corpus_envelope, corpus_from_listing, importable_entries, CorpusDocument, CorpusEntry,
    SlimCorpusEntry, CORPUS_SCHEMA_VERSION, entry_is_expired, legacy_redb_path_for_json, new_stored_entry, normalize_stored_entry,
    parse_pkg_cache_key, pkg_cache_key, sha256_hex, verify_sha256, CorpusImportError, StoredEntry,
};
use vlz_core::ignore::IgnoreTable;
use vlz_core::model::FpEntry;
use vlz_core::model::{
    DatabaseStats, Package, Severity, CRATES_IO_ECOSYSTEM, MAVEN_ECOSYSTEM, PYPI_ECOSYSTEM,
};
use vlz_core::purl::{ecosystem_for_purl_type, package_from_purl, purl_for_package};

#[test]
fn pkg_cache_key_includes_provider() {
    let pkg = Package {
        name: "foo".into(),
        version: "1.0".into(),
        ecosystem: None,
    };
    assert_eq!(pkg_cache_key(&pkg, "osv"), "foo::1.0::osv");
}

#[test]
fn parse_pkg_cache_key_round_trip() {
    let pkg = Package {
        name: "a::b".into(),
        version: "9".into(),
        ecosystem: None,
    };
    let key = pkg_cache_key(&pkg, "osv");
    let (parsed, provider) = parse_pkg_cache_key(&key).unwrap();
    assert_eq!(parsed.name, "a::b");
    assert_eq!(parsed.version, "9");
    assert_eq!(provider, "osv");
}

#[test]
fn legacy_redb_path_for_json_uses_stem() {
    assert_eq!(
        legacy_redb_path_for_json("/data/verilyze/vlz-ignore.json"),
        "/data/verilyze/vlz-ignore.redb"
    );
    assert_eq!(legacy_redb_path_for_json("/repo/fps.json"), "/repo/fps.redb");
}

#[test]
fn severity_as_str_fr013() {
    assert_eq!(Severity::Critical.as_str(), "CRITICAL");
    assert_eq!(Severity::High.as_str(), "HIGH");
    assert_eq!(Severity::Medium.as_str(), "MEDIUM");
    assert_eq!(Severity::Low.as_str(), "LOW");
    assert_eq!(Severity::Unknown.as_str(), "UNKNOWN");
}

#[test]
fn database_stats_default() {
    let s = DatabaseStats::default();
    assert_eq!(s.cached_entries, 0);
    assert_eq!(s.hits, 0);
    assert_eq!(s.misses, 0);
    assert_eq!(s.cache_ttl_secs, None);
}

#[test]
fn purl_round_trip_pypi() {
    let pkg = Package {
        name: "requests".to_string(),
        version: "2.31.0".to_string(),
        ecosystem: Some(PYPI_ECOSYSTEM.to_string()),
    };
    let purl = purl_for_package(&pkg);
    assert_eq!(purl, "pkg:pypi/requests@2.31.0");
    assert_eq!(package_from_purl(&purl), Some(pkg));
}

#[test]
fn package_from_purl_maven_standard_and_colon() {
    let std = package_from_purl("pkg:maven/org.apache.commons/commons-lang3@3.12.0").unwrap();
    assert_eq!(std.name, "org.apache.commons:commons-lang3");
    assert_eq!(std.version, "3.12.0");
    assert_eq!(std.ecosystem.as_deref(), Some(MAVEN_ECOSYSTEM));

    let colon = package_from_purl("pkg:maven/org.apache.commons:commons-lang3@3.12.0").unwrap();
    assert_eq!(colon.name, "org.apache.commons:commons-lang3");
}

#[test]
fn package_from_purl_rejects_unknown_type() {
    assert!(package_from_purl("pkg:apk/openssl@3.0.0").is_none());
    assert!(package_from_purl("not-a-purl").is_none());
    assert!(package_from_purl("pkg:pypi/foo@").is_none());
}

#[test]
fn ecosystem_for_purl_type_case_insensitive() {
    assert_eq!(ecosystem_for_purl_type("PyPI"), Some(PYPI_ECOSYSTEM));
    assert_eq!(ecosystem_for_purl_type("CARGO"), Some(CRATES_IO_ECOSYSTEM));
}

#[test]
fn purl_round_trip_crates_io_package() {
    let pkg = Package {
        name: "serde".to_string(),
        version: "1.0.200".to_string(),
        ecosystem: Some(CRATES_IO_ECOSYSTEM.to_string()),
    };
    let purl = purl_for_package(&pkg);
    assert_eq!(purl, "pkg:cargo/serde@1.0.200");
    assert_eq!(package_from_purl(&purl), Some(pkg));
}

#[test]
fn cache_key_round_trip_with_colons_in_version() {
    let pkg = Package {
        name: "x".into(),
        version: "1::2".into(),
        ecosystem: None,
    };
    let key = pkg_cache_key(&pkg, "nvd");
    assert_eq!(key, "x::1::2::nvd");
    let (parsed, provider) = parse_pkg_cache_key(&key).unwrap();
    assert_eq!(provider, "nvd");
    assert_eq!(format!("{}::{}", parsed.name, parsed.version), "x::1::2");
}

#[test]
fn parse_pkg_cache_key_rejects_key_without_separator() {
    assert!(parse_pkg_cache_key("no-separators").is_err());
}

#[test]
fn sha256_hex_of_abc_is_the_standard_digest() {
    assert_eq!(
        vlz_core::db::sha256_hex(b"abc"),
        "ba7816bf8f01cfea414140de5dae2223b00361a396177a9cb410ff61f20015ad"
    );
}

#[test]
fn verify_sha256_accepts_upper_case_and_rejects_mismatch() {
    assert!(verify_sha256(
        b"abc",
        "  BA7816BF8F01CFEA414140DE5DAE2223B00361A396177A9CB410FF61F20015AD\n"
    )
    .is_ok());
    assert_eq!(
        verify_sha256(b"abc", "xyz"),
        Err(CorpusImportError::InvalidSha256Digest)
    );
    assert!(matches!(
        verify_sha256(
            b"abd",
            "ba7816bf8f01cfea414140de5dae2223b00361a396177a9cb410ff61f20015ad"
        ),
        Err(CorpusImportError::Sha256Mismatch { .. })
    ));
}

#[test]
fn normalize_fills_missing_added_and_ttl() {
    let mut entry = StoredEntry {
        raw_vulns: vec![],
        provider_id: "osv".into(),
        expires_at_secs: 1000,
        added_at_secs: None,
        ttl_secs: None,
    };
    normalize_stored_entry(&mut entry, 100);
    assert_eq!(entry.ttl_secs, Some(100));
    assert_eq!(entry.added_at_secs, Some(900));
}

#[test]
fn normalize_uses_existing_ttl_when_added_missing() {
    let mut entry = StoredEntry {
        raw_vulns: vec![],
        provider_id: "osv".into(),
        expires_at_secs: 500,
        added_at_secs: None,
        ttl_secs: Some(50),
    };
    normalize_stored_entry(&mut entry, 999);
    assert_eq!(entry.ttl_secs, Some(50));
    assert_eq!(entry.added_at_secs, Some(450));
}

#[test]
fn new_stored_entry_clamps_ttl_and_sets_expiry() {
    let entry = new_stored_entry("osv", &[], 0, 1000);
    assert_eq!(entry.ttl_secs, Some(1));
    assert_eq!(entry.expires_at_secs, 1001);
    assert_eq!(entry.added_at_secs, Some(1000));
}

#[test]
fn entry_is_expired_at_boundary() {
    let entry = new_stored_entry("osv", &[], 10, 100);
    assert!(!entry_is_expired(&entry, 109));
    assert!(entry_is_expired(&entry, 110));
}

#[test]
fn sha256_verify_ok_and_mismatch() {
    let bytes = b"hello corpus";
    let digest = sha256_hex(bytes);
    verify_sha256(bytes, &digest).unwrap();
    let err = verify_sha256(bytes, &"0".repeat(64)).unwrap_err();
    assert!(matches!(err, CorpusImportError::Sha256Mismatch { .. }));
    assert!(verify_sha256(bytes, "abc").is_err());
}

#[test]
fn corpus_error_messages_match_display_text() {
    assert_eq!(
        CorpusImportError::UnsupportedSchema { found: 2, supported: 1 }.message(),
        "unsupported corpus schema_version 2 (supported: 1)"
    );
    assert_eq!(
        CorpusImportError::InvalidKey("k".into()).message(),
        "invalid cache key (expected name::version::provider): k"
    );
}

fn fp(comment: &str, project_id: Option<&str>) -> FpEntry {
    FpEntry {
        comment: comment.to_string(),
        timestamp_secs: 1,
        user: None,
        host: None,
        project_id: project_id.map(str::to_string),
        justification: None,
        status: None,
        detail: None,
    }
}

fn sorted(mut v: Vec<String>) -> Vec<String> {
    v.sort();
    v
}

#[test]
fn ignore_db_trait_marked_ids_global_only_when_no_project() {
    let mut db = IgnoreTable::new();
    db.mark("CVE-A", fp("a", None));
    db.mark("CVE-B", fp("b", Some("proj1")));
    let ids = db.marked_ids(None);
    assert_eq!(ids.len(), 1);
    assert!(ids.contains(&"CVE-A".to_string()));
}

#[test]
fn ignore_db_trait_marked_ids_includes_global_and_scoped() {
    let mut db = IgnoreTable::new();
    db.mark("CVE-GLOBAL", fp("g", None));
    db.mark("CVE-PROJ", fp("p", Some("myproj")));
    let ids = db.marked_ids(Some("myproj"));
    assert_eq!(ids.len(), 2);
    assert_eq!(sorted(ids), vec!["CVE-GLOBAL".to_string(), "CVE-PROJ".to_string()]);
}

#[test]
fn mark_unmark_roundtrip_persists() {
    let mut db = IgnoreTable::new();
    db.mark("CVE-2023-1", fp("fp", None));
    assert!(db.is_marked("CVE-2023-1"));
    let reloaded = IgnoreTable::from_entries(db.entries().clone());
    assert!(reloaded.is_marked("CVE-2023-1"));
    db.unmark("CVE-2023-1");
    assert!(!db.is_marked("CVE-2023-1"));
    let reloaded = IgnoreTable::from_entries(db.entries().clone());
    assert!(!reloaded.is_marked("CVE-2023-1"));
}

#[test]
fn marked_ids_project_scoping_fr015() {
    let mut db = IgnoreTable::new();
    db.mark("CVE-GLOBAL", fp("g", None));
    db.mark("CVE-P1", fp("p", Some("proj1")));
    db.mark("CVE-P2", fp("p", Some("proj2")));
    let global = db.marked_ids(None);
    assert_eq!(global.len(), 1);
    assert!(global.contains(&"CVE-GLOBAL".to_string()));
    let p1 = db.marked_ids(Some("proj1"));
    assert_eq!(p1.len(), 2);
    assert_eq!(sorted(p1), vec!["CVE-GLOBAL".to_string(), "CVE-P1".to_string()]);
}

#[test]
fn marking_again_replaces_the_entry() {
    let mut db = IgnoreTable::new();
    db.mark("CVE-1", fp("first", None));
    db.mark("CVE-1", fp("second", Some("p")));
    assert_eq!(db.entries().len(), 1);
    assert_eq!(db.entries()[0].1.comment, "second");
    assert!(db.marked_ids(None).is_empty());
}

#[test]
fn from_entries_keeps_the_last_mark_of_an_id() {
    let table = IgnoreTable::from_entries(vec![
        ("CVE-1".to_string(), fp("old", None)),
        ("CVE-2".to_string(), fp("two", None)),
        ("CVE-1".to_string(), fp("new", None)),
    ]);
    assert_eq!(table.entries().len(), 2);
    assert!(table.entries().iter().any(|(k, e)| k == "CVE-1" && e.comment == "new"));
}

fn raw(text: &str) -> serde_json::Value {
    serde_json::from_str(text).expect("test JSON")
}

#[test]
fn parse_envelope_v1() {
    let doc = check_corpus_envelope(CorpusDocument {
        schema_version: 1,
        entries: vec![CorpusEntry {
            key: "requests::2.0.0::osv".to_string(),
            ttl_secs: 100,
            added_at_secs: None,
            raw_vulns: vec![raw(r#"{"id": "CVE-2024-1"}"#)],
        }],
    })
    .unwrap();
    assert_eq!(doc.entries.len(), 1);
    let ready = importable_entries(&doc).unwrap();
    assert_eq!(ready[0].package.name, "requests");
    assert_eq!(ready[0].package.version, "2.0.0");
    assert_eq!(ready[0].provider_id, "osv");
    assert_eq!(ready[0].ttl_secs, 100);
}

fn slim(key: &str, raw_vulns: Option<Vec<serde_json::Value>>) -> Result<SlimCorpusEntry, String> {
    Ok(SlimCorpusEntry {
        key: key.to_string(),
        ttl_secs: 50,
        added_at_secs: Some(10),
        raw_vulns,
    })
}

#[test]
fn parse_db_show_array_requires_raw_vulns() {
    let err = corpus_from_listing(vec![slim("foo::1.0::osv", None)]).unwrap_err();
    assert!(matches!(err, CorpusImportError::MissingRawVulns(_)));
}

#[test]
fn parse_db_show_array_with_raw_vulns() {
    let doc = corpus_from_listing(vec![slim("group:artifact::1.2.3::osv", Some(vec![raw(r#"{"id": "CVE-1"}"#)]))])
        .unwrap();
    assert_eq!(doc.schema_version, 1);
    assert_eq!(doc.entries[0].added_at_secs, Some(10));
    let ready = importable_entries(&doc).unwrap();
    assert_eq!(ready[0].package.name, "group:artifact");
    assert_eq!(ready[0].package.version, "1.2.3");
}

#[test]
fn reject_unsupported_schema() {
    let err = check_corpus_envelope(CorpusDocument { schema_version: 99, entries: vec![] }).unwrap_err();
    assert_eq!(err, CorpusImportError::UnsupportedSchema { found: 99, supported: CORPUS_SCHEMA_VERSION });
}

#[test]
fn reject_bad_key() {
    let err = check_corpus_envelope(CorpusDocument {
        schema_version: 1,
        entries: vec![CorpusEntry {
            key: "not-a-key".to_string(),
            ttl_secs: 1,
            added_at_secs: None,
            raw_vulns: vec![],
        }],
    })
    .unwrap_err();
    assert!(matches!(err, CorpusImportError::InvalidKey(_)));
}

#[test]
fn listing_element_that_failed_to_decode_is_a_parse_error() {
    let err = corpus_from_listing(vec![
        slim("a::1::osv", Some(vec![])),
        Err("missing field `key`".to_string()),
        slim("b::2::osv", None),
    ])
    .unwrap_err();
    assert_eq!(err, CorpusImportError::Parse("missing field `key`".to_string()));
}
