use vlz_core::db::{corpus_json_shape, CorpusImportError, CorpusShape, CORPUS_SHAPE_MESSAGE};
use vlz_core::lsp::{is_initialized_notification, route_notification, NotificationRoute, MAX_MESSAGE_BYTES};
use vlz_core::model::Package;
use vlz_core::tiers::{decision_cache_key, PackageContext};
use vlz_core::vex_ingest::{parse_vex_ingest_bytes, IngestStatus, VexIngestError, VexIngestKind, VexIngestPolicy};

#[test]
fn handle_message_ignores_oversized_invalid_and_other_methods() {
    let oversized = format!(
        r#"{{"jsonrpc":"2.0","method":"initialized","params":{{"pad":"{}"}}}}"#,
        "x".repeat(MAX_MESSAGE_BYTES)
    );
    assert!(!is_initialized_notification(&oversized));
    assert!(!is_initialized_notification("not-json"));
    assert!(!is_initialized_notification(r#"{"jsonrpc":"2.0","method":"exit"}"#));
}

#[test]
fn initialized_notification_is_recognized() {
    assert!(is_initialized_notification(r#"{"jsonrpc":"2.0","method":"initialized","params":{}}"#));
    assert!(!is_initialized_notification(r#"{"method":1}"#));
    assert!(!is_initialized_notification(r#"["initialized"]"#));
    assert!(!is_initialized_notification(r#"{"params":{"method":"initialized"}}"#));
}

#[test]
fn notifications_route_exit_save_and_others() {
    assert_eq!(route_notification("exit"), NotificationRoute::Exit);
    assert_eq!(route_notification("textDocument/didSave"), NotificationRoute::DidSave);
    assert_eq!(route_notification("textDocument/didOpen"), NotificationRoute::Ignored);
    assert_eq!(route_notification(""), NotificationRoute::Ignored);
}

#[test]
fn vex_ingest_bytes_rejects_invalid_json() {
    let err = parse_vex_ingest_bytes(b"{not json", "bad.json", &VexIngestPolicy::default()).unwrap_err();
    match &err {
        VexIngestError::Json { path, message } => {
            assert_eq!(path, "bad.json");
            assert!(!message.is_empty());
        }
        other => panic!("unexpected error: {other:?}"),
    }
    assert!(err.message().starts_with("VEX ingest file bad.json is not valid JSON: "));
}

#[test]
fn vex_ingest_bytes_reads_openvex_document() {
    let bytes = br#"{
        "@context": "https://openvex.dev/ns/v0.2.0",
        "statements": [
            {"vulnerability": {"name": "CVE-2024-1"}, "status": "not_affected",
             "justification": "vulnerable_code_not_present"}
        ]
    }"#;
    let parsed = parse_vex_ingest_bytes(bytes, "a.openvex.json", &VexIngestPolicy::default()).unwrap();
    assert_eq!(parsed.kind, Some(VexIngestKind::OpenVex));
    assert_eq!(parsed.statements.len(), 1);
    assert_eq!(parsed.statements[0].vuln_id, "CVE-2024-1");
    assert_eq!(parsed.statements[0].status, IngestStatus::NotAffected);
    assert!(parsed.warnings.is_empty());
}

#[test]
fn vex_ingest_bytes_warns_on_unrecognized_document() {
    let parsed = parse_vex_ingest_bytes(br#"{"hello":"world"}"#, "x.json", &VexIngestPolicy::default()).unwrap();
    assert!(parsed.kind.is_none());
    assert!(parsed.statements.is_empty());
    assert_eq!(parsed.warnings.len(), 1);
}

#[test]
fn vex_ingest_io_error_names_the_file() {
    let err = VexIngestError::Io { path: "/no/such.json".to_string(), message: "not found".to_string() };
    assert_eq!(err.message(), "failed to read VEX ingest file /no/such.json: not found");
}

#[test]
fn manifest_paths_sort_by_component_in_keys() {
    let package = Package { name: "serde".to_string(), version: "1.0.0".to_string(), ecosystem: Some("crates.io".to_string()) };
    let context = PackageContext {
        languages: vec!["rust".to_string()],
        manifest_paths: vec!["a-b/Cargo.toml".to_string(), "a/b/Cargo.toml".to_string()],
    };
    let key = decision_cache_key(&package, Some(&context), &[]);
    assert_eq!(key, "serde|1.0.0|crates.io|rust|a/b/Cargo.toml|0|a-b/Cargo.toml|0");
}

#[test]
fn corpus_shape_follows_the_document_layout() {
    assert_eq!(corpus_json_shape(b"[]").unwrap(), CorpusShape::Listing);
    assert_eq!(corpus_json_shape(br#"{"schema_version":1,"entries":[]}"#).unwrap(), CorpusShape::Envelope);
    assert_eq!(corpus_json_shape(br#"{"entries":[]}"#).unwrap(), CorpusShape::Envelope);
    for bytes in [&br#"{"x":1}"#[..], &b"42"[..], &br#""text""#[..]] {
        match corpus_json_shape(bytes) {
            Err(CorpusImportError::Parse(m)) => assert_eq!(m, CORPUS_SHAPE_MESSAGE),
            other => panic!("unexpected: {other:?}"),
        }
    }
    match corpus_json_shape(b"nope") {
        Err(CorpusImportError::Parse(m)) => assert_ne!(m, CORPUS_SHAPE_MESSAGE),
        other => panic!("unexpected: {other:?}"),
    }
}
