use vlz_core::json::JsonValue;
use vlz_core::lsp::{
    advertised_commands, apply_arguments_rejected, apply_finished, code_actions,
    execute_command_outcome, file_uri_for_path, route_request, workspace_root_uri,
    ApplyUpgradeRequest, CommandOutcome, LspErrorKind, LspServer, RequestRoute, ScanDiagnostic,
    ScanResult, ScanService, APPLY_REQUIRES_ARGUMENTS_MESSAGE, APPLY_REQUIRES_TRUST_MESSAGE,
    APPLY_UPGRADE_COMMAND, APPLY_UPGRADE_TITLE, FIX_DRY_RUN_CLI, NO_UPGRADE_PLAN_MESSAGE,
    SHOW_FIX_DRY_RUN_COMMAND, SHOW_FIX_DRY_RUN_TITLE, SHOW_UPGRADE_PLAN_COMMAND,
    UNSUPPORTED_COMMAND_MESSAGE,
};

fn js(s: &str) -> JsonValue {
    JsonValue::String(s.to_string())
}

fn obj(members: Vec<(&str, JsonValue)>) -> JsonValue {
    JsonValue::Object(members.into_iter().map(|(k, v)| (k.to_string(), v)).collect())
}

fn get<'a>(v: &'a JsonValue, key: &str) -> &'a JsonValue {
    v.get(key).unwrap_or_else(|| panic!("missing member {key}"))
}

fn titles(actions: &JsonValue) -> Vec<String> {
    actions
        .as_array()
        .expect("actions array")
        .iter()
        .map(|a| get(a, "title").as_str().expect("title").to_string())
        .collect()
}

fn first_argument(action: &JsonValue) -> &JsonValue {
    &get(get(action, "command"), "arguments").as_array().expect("arguments")[0]
}

#[test]
fn capabilities_advertise_save_only_sync_and_plan_command() {
    assert_eq!(
        advertised_commands(false),
        vec![SHOW_UPGRADE_PLAN_COMMAND.to_string(), SHOW_FIX_DRY_RUN_COMMAND.to_string()]
    );
}

#[test]
fn capabilities_include_apply_when_folder_trusted() {
    assert_eq!(
        advertised_commands(true),
        vec![
            SHOW_UPGRADE_PLAN_COMMAND.to_string(),
            SHOW_FIX_DRY_RUN_COMMAND.to_string(),
            APPLY_UPGRADE_COMMAND.to_string(),
        ]
    );
}

#[test]
fn root_uri_is_used_without_workspace_folders() {
    assert_eq!(workspace_root_uri(&[], Some("file:///workspace")), Some("file:///workspace"));
    assert_eq!(workspace_root_uri(&[], None), None);
}

#[test]
fn workspace_folders_take_precedence_over_root_uri() {
    let folders = vec!["file:///workspace".to_string()];
    assert_eq!(workspace_root_uri(&folders, Some("file:///ignored")), Some("file:///workspace"));
}

#[test]
fn file_uri_for_path_round_trips_absolute_paths() {
    let uri = file_uri_for_path("/tmp/vlz-lsp-fixture/Cargo.toml").expect("absolute path should encode");
    assert!(uri.starts_with("file://"));
    assert!(uri.contains("Cargo.toml"));
    assert_eq!(uri, "file:///tmp/vlz-lsp-fixture/Cargo.toml");
    assert_eq!(file_uri_for_path("relative.toml"), None);
}

#[test]
fn show_plan_action_falls_back_when_diagnostic_missing() {
    let actions = code_actions(&obj(vec![("context", obj(vec![]))]), false);
    assert_eq!(titles(&actions), vec!["Show upgrade plan".to_string(), SHOW_FIX_DRY_RUN_TITLE.to_string()]);
    let list = actions.as_array().unwrap();
    assert_eq!(first_argument(&list[0]).as_str(), Some(NO_UPGRADE_PLAN_MESSAGE));
    assert_eq!(get(get(&list[1], "command"), "command").as_str(), Some(SHOW_FIX_DRY_RUN_COMMAND));
    assert_eq!(first_argument(&list[1]).as_str(), Some(FIX_DRY_RUN_CLI));
    assert!(!titles(&actions).contains(&APPLY_UPGRADE_TITLE.to_string()));
}

fn request_with_diagnostic(data: Option<JsonValue>) -> JsonValue {
    let mut diagnostic = vec![("message", js("CVE-2026-1: update to 1.2.3"))];
    if let Some(d) = data {
        diagnostic.push(("data", d));
    }
    obj(vec![("context", obj(vec![("diagnostics", JsonValue::Array(vec![obj(diagnostic)]))]))])
}

#[test]
fn code_actions_offer_apply_only_under_trust_with_a_plan() {
    let payload = obj(vec![("package_name", js("serde")), ("apply_strategy", js("lockfile"))]);
    let params = request_with_diagnostic(Some(payload));
    let trusted = code_actions(&params, true);
    assert_eq!(titles(&trusted).len(), 3);
    assert_eq!(titles(&trusted)[2], APPLY_UPGRADE_TITLE);
    let list = trusted.as_array().unwrap();
    assert_eq!(first_argument(&list[0]).as_str(), Some("CVE-2026-1: update to 1.2.3"));
    assert_eq!(get(first_argument(&list[2]), "package_name").as_str(), Some("serde"));
    assert_eq!(titles(&code_actions(&params, false)).len(), 2);
    let unavailable = obj(vec![("package_name", js("serde")), ("apply_strategy", js("unavailable"))]);
    assert_eq!(titles(&code_actions(&request_with_diagnostic(Some(unavailable)), true)).len(), 2);
    assert_eq!(titles(&code_actions(&request_with_diagnostic(None), true)).len(), 2);
}

fn command(name: &str, args: Vec<JsonValue>) -> JsonValue {
    obj(vec![("command", js(name)), ("arguments", JsonValue::Array(args))])
}

#[test]
fn execute_command_outcomes_follow_command_and_trust() {
    assert_eq!(
        execute_command_outcome(&command(SHOW_UPGRADE_PLAN_COMMAND, vec![js("plan text")]), false),
        CommandOutcome::ShowMessage("plan text".to_string())
    );
    assert_eq!(
        execute_command_outcome(&command(SHOW_UPGRADE_PLAN_COMMAND, vec![]), false),
        CommandOutcome::ShowMessage(NO_UPGRADE_PLAN_MESSAGE.to_string())
    );
    assert_eq!(
        execute_command_outcome(&command(SHOW_FIX_DRY_RUN_COMMAND, vec![]), false),
        CommandOutcome::ShowMessage(FIX_DRY_RUN_CLI.to_string())
    );
    assert_eq!(
        execute_command_outcome(&command(APPLY_UPGRADE_COMMAND, vec![obj(vec![])]), false),
        CommandOutcome::Fail(LspErrorKind::InvalidRequest, APPLY_REQUIRES_TRUST_MESSAGE.to_string())
    );
    assert_eq!(
        execute_command_outcome(&command(APPLY_UPGRADE_COMMAND, vec![]), true),
        CommandOutcome::Fail(LspErrorKind::InvalidParams, APPLY_REQUIRES_ARGUMENTS_MESSAGE.to_string())
    );
    assert_eq!(execute_command_outcome(&command(APPLY_UPGRADE_COMMAND, vec![obj(vec![])]), true), CommandOutcome::Apply);
    assert_eq!(
        execute_command_outcome(&command("vlz.other", vec![]), true),
        CommandOutcome::Fail(LspErrorKind::MethodNotFound, UNSUPPORTED_COMMAND_MESSAGE.to_string())
    );
    assert_eq!(
        apply_arguments_rejected("missing field"),
        CommandOutcome::Fail(LspErrorKind::InvalidParams, "invalid Apply upgrade arguments: missing field".to_string())
    );
}

fn apply_request() -> ApplyUpgradeRequest {
    ApplyUpgradeRequest {
        package_name: "serde".to_string(),
        target_version: "1.0.200".to_string(),
        apply_strategy: "lockfile".to_string(),
        dependency_kind: "direct".to_string(),
        declarations: vec![],
    }
}

#[test]
fn apply_finished_reports_success_or_internal_error() {
    assert_eq!(
        apply_finished(&apply_request(), Ok(())),
        CommandOutcome::ShowMessage("Applied upgrade for serde to 1.0.200".to_string())
    );
    assert_eq!(
        apply_finished(&apply_request(), Err("boom".to_string())),
        CommandOutcome::Fail(LspErrorKind::InternalError, "boom".to_string())
    );
}

#[test]
fn requests_are_routed_by_method() {
    assert_eq!(route_request("shutdown"), RequestRoute::Shutdown);
    assert_eq!(route_request("textDocument/codeAction"), RequestRoute::CodeAction);
    assert_eq!(route_request("workspace/executeCommand"), RequestRoute::ExecuteCommand);
    assert_eq!(
        route_request("textDocument/hover"),
        RequestRoute::Unsupported("unsupported LSP request: textDocument/hover".to_string())
    );
}

struct CountingScan {
    diagnostics: Vec<(String, String)>,
}

impl ScanService for CountingScan {
    fn scan(&self, _root: Option<&str>, _changed: Option<&str>) -> ScanResult {
        ScanResult {
            diagnostics: self
                .diagnostics
                .iter()
                .map(|(uri, code)| ScanDiagnostic {
                    uri: uri.clone(),
                    line: 0,
                    code: code.clone(),
                    message: format!("{code}: update"),
                    apply: None,
                })
                .collect(),
        }
    }
}

#[test]
fn scan_for_root_reuses_last_result_for_non_dependency_saves() {
    let service = CountingScan {
        diagnostics: vec![("file:///w/Cargo.toml".to_string(), "CVE-2026-1".to_string())],
    };
    let mut server = LspServer::new(service, false);
    assert!(!server.folder_trust());
    let skipped = server.scan_for_root(Some("/w"), Some("/w/src/main.rs"));
    assert!(skipped.diagnostics.is_empty());
    let fresh = server.scan_for_root(Some("/w"), Some("/w/Cargo.toml"));
    assert_eq!(fresh.diagnostics.len(), 1);
    let reused = server.scan_for_root(Some("/w"), Some("/w/README.md"));
    assert_eq!(reused.diagnostics.len(), 1);
    assert_eq!(reused.diagnostics[0].code, "CVE-2026-1");
}

#[test]
fn diagnostic_messages_clear_stale_uris_and_filter_workspace() {
    let inside_uri = "file:///tmp/vlz-ws/Cargo.toml".to_string();
    let outside_uri = "file:///tmp/outside-vlz-lsp/Cargo.toml".to_string();
    let service = CountingScan {
        diagnostics: vec![
            (inside_uri.clone(), "CVE-2026-1".to_string()),
            (outside_uri.clone(), "CVE-2026-2".to_string()),
        ],
    };
    let mut server = LspServer::new(service, false);
    let first = server.scan_for_root(Some("/tmp/vlz-ws"), None);
    let (groups, stale) = server.publish_plan(&first, &[true, false]);
    assert_eq!(groups, vec![(inside_uri.clone(), vec![0usize])]);
    assert!(stale.is_empty());
    let (groups, stale) = server.publish_plan(&ScanResult::default(), &[]);
    assert!(groups.is_empty());
    assert_eq!(stale, vec![inside_uri]);
}

#[test]
fn publish_plan_groups_by_uri_in_order() {
    let service = CountingScan { diagnostics: vec![] };
    let mut server = LspServer::new(service, true);
    let result = ScanResult {
        diagnostics: vec![
            ScanDiagnostic { uri: "file:///b".into(), line: 1, code: "C1".into(), message: "m".into(), apply: None },
            ScanDiagnostic { uri: "file:///a".into(), line: 2, code: "C2".into(), message: "m".into(), apply: None },
            ScanDiagnostic { uri: "file:///b".into(), line: 3, code: "C3".into(), message: "m".into(), apply: None },
        ],
    };
    let (groups, stale) = server.publish_plan(&result, &[true, true, true]);
    assert_eq!(groups, vec![("file:///a".to_string(), vec![1usize]), ("file:///b".to_string(), vec![0usize, 2])]);
    assert!(stale.is_empty());
    let (groups, stale) = server.publish_plan(&result, &[false, true, false]);
    assert_eq!(groups, vec![("file:///a".to_string(), vec![1usize])]);
    assert_eq!(stale, vec!["file:///b".to_string()]);
}
