use cli_hub::app_config::{AppType, McpApps, McpServer};
use cli_hub::errors::AppError;
use cli_hub::jsonio::parse_json;
use cli_hub::model::JsonVal;
use cli_hub::store::CanonicalStore;
use cli_hub::sync::client_a::{import_from_client_a, remove_server_from_client_a, sync_enabled_to_client_a};
use cli_hub::sync::gemini::sync_enabled_to_gemini;
use cli_hub::deeplink::import_mcp_from_deeplink;
use cli_hub::helpers::normalize_server_keys;
use cli_hub::validation::validate_server_spec;

fn record(id: &str, spec_json: &str, apps: McpApps) -> McpServer {
    McpServer {
        id: id.to_string(),
        name: id.to_string(),
        server: parse_json(spec_json).expect("spec json"),
        apps,
        description: None,
        homepage: None,
        docs: None,
        tags: Vec::new(),
    }
}

fn client_a_only() -> McpApps {
    McpApps { client_a: true, codex: false, gemini: false }
}

fn no_apps() -> McpApps {
    McpApps { client_a: false, codex: false, gemini: false }
}

#[test]
fn importing_live_file_into_empty_store_enables_only_that_client() {
    let mut store = CanonicalStore::new();
    let live = r#"{"mcpServers":{"echo":{"type":"stdio","command":"echo","args":["hi"]}}}"#;
    let changed = import_from_client_a(&mut store, Some(live)).expect("import");
    assert_eq!(changed, 1);
    assert_eq!(store.servers.len(), 1);
    let entry = &store.servers[0];
    assert_eq!(entry.id, "echo");
    assert!(entry.apps.client_a);
    assert!(!entry.apps.codex);
    assert!(!entry.apps.gemini);
}

#[test]
fn exporting_writes_exactly_the_enabled_servers() {
    let mut store = CanonicalStore::new();
    store
        .upsert_server(record("X", r#"{"type":"stdio","command":"run"}"#, client_a_only()))
        .expect("upsert X");
    store
        .upsert_server(record("Y", r#"{"type":"stdio","command":"other"}"#, no_apps()))
        .expect("upsert Y");

    let text = sync_enabled_to_client_a(&store, None).expect("export");
    let root: serde_json::Value = serde_json::from_str(&text).expect("valid json");
    let servers = root
        .get("mcpServers")
        .and_then(|v| v.as_object())
        .expect("mcpServers object");
    assert_eq!(servers.len(), 1);
    let x = servers.get("X").and_then(|v| v.as_object()).expect("X present");
    assert_eq!(x.get("type").and_then(|v| v.as_str()), Some("stdio"));
    assert_eq!(x.get("command").and_then(|v| v.as_str()), Some("run"));
}

#[test]
fn export_then_reimport_reports_zero_changes_and_keeps_the_store() {
    let mut store = CanonicalStore::new();
    store
        .upsert_server(record(
            "alpha",
            r#"{"type":"stdio","command":"run","args":["a","b"],"timeout":7}"#,
            client_a_only(),
        ))
        .expect("upsert");

    let text = sync_enabled_to_client_a(&store, None).expect("export");
    let before_len = store.servers.len();
    let changed = import_from_client_a(&mut store, Some(&text)).expect("reimport");
    assert_eq!(changed, 0);
    assert_eq!(store.servers.len(), before_len);
    assert!(store.servers[0].apps.client_a);
}

#[test]
fn importing_the_same_live_file_twice_reports_zero_changes() {
    let mut store = CanonicalStore::new();
    let live = r#"{"mcpServers":{"a":{"command":"one"},"b":{"command":"two"}}}"#;
    let first = import_from_client_a(&mut store, Some(live)).expect("first import");
    assert_eq!(first, 2);
    let second = import_from_client_a(&mut store, Some(live)).expect("second import");
    assert_eq!(second, 0);
}

#[test]
fn importing_never_overwrites_existing_fields() {
    let mut store = CanonicalStore::new();
    let mut kept = record("srv", r#"{"type":"stdio","command":"orig"}"#, no_apps());
    kept.name = "Kept Name".to_string();
    kept.description = Some("kept description".to_string());
    kept.tags = vec!["one".to_string()];
    store.upsert_server(kept).expect("seed");

    let live = r#"{"mcpServers":{"srv":{"type":"stdio","command":"imported"}}}"#;
    let changed = import_from_client_a(&mut store, Some(live)).expect("import");
    assert_eq!(changed, 1);

    let entry = &store.servers[0];
    assert_eq!(entry.name, "Kept Name");
    assert_eq!(entry.description.as_deref(), Some("kept description"));
    assert_eq!(entry.tags, vec!["one".to_string()]);
    let spec = cli_hub::jsonio::render_json_compact(&entry.server);
    assert!(spec.contains("\"command\":\"orig\""), "spec overwritten: {spec}");
    assert!(entry.apps.client_a, "only the flag should have flipped");
}

#[test]
fn a_missing_live_file_is_zero_changes_and_a_malformed_one_is_an_error() {
    let mut store = CanonicalStore::new();
    assert_eq!(import_from_client_a(&mut store, None).expect("missing file"), 0);
    let err = import_from_client_a(&mut store, Some("{ not json")).expect_err("hard error");
    assert!(matches!(err, AppError::Parse(_)));
    assert_eq!(store.servers.len(), 0);
}

#[test]
fn invalid_entries_are_skipped_without_aborting_the_batch() {
    let mut store = CanonicalStore::new();
    let live = r#"{"mcpServers":{"bad":{"type":"weird"},"blank":{"command":"  "},"good":{"command":"ok"}}}"#;
    let changed = import_from_client_a(&mut store, Some(live)).expect("import");
    assert_eq!(changed, 1);
    assert_eq!(store.servers.len(), 1);
    assert_eq!(store.servers[0].id, "good");
}

#[test]
fn exporting_preserves_unrelated_top_level_json_keys() {
    let mut store = CanonicalStore::new();
    store
        .upsert_server(record("X", r#"{"command":"run"}"#, client_a_only()))
        .expect("upsert");
    let live = r#"{"theme":"dark","mcpServers":{"old":{"command":"gone"}},"numbers":[1,2]}"#;
    let text = sync_enabled_to_client_a(&store, Some(live)).expect("export");
    let root: serde_json::Value = serde_json::from_str(&text).expect("valid json");
    assert_eq!(root.get("theme").and_then(|v| v.as_str()), Some("dark"));
    assert!(root.get("numbers").is_some());
    let servers = root.get("mcpServers").and_then(|v| v.as_object()).expect("object");
    assert!(servers.contains_key("X"));
    assert!(!servers.contains_key("old"));
}

#[test]
fn gemini_export_renames_url_for_http_and_strips_bookkeeping() {
    let mut store = CanonicalStore::new();
    let mut rec = record(
        "net",
        r#"{"type":"http","url":"https://x.example","headers":{"a":"b"}}"#,
        McpApps { client_a: false, codex: false, gemini: true },
    );
    rec.description = Some("ui only".to_string());
    store.upsert_server(rec).expect("upsert");

    let text = sync_enabled_to_gemini(&store, None).expect("export");
    let root: serde_json::Value = serde_json::from_str(&text).expect("valid json");
    let servers = root.get("mcpServers").and_then(|v| v.as_object()).expect("object");
    let net = servers.get("net").and_then(|v| v.as_object()).expect("net");
    assert_eq!(net.get("httpUrl").and_then(|v| v.as_str()), Some("https://x.example"));
    assert!(net.get("url").is_none());
    assert!(net.get("type").is_none());
    assert!(net.get("description").is_none());
}

#[test]
fn removing_a_server_rewrites_the_live_file_without_it() {
    let live = r#"{"mcpServers":{"a":{"command":"one"},"b":{"command":"two"}}}"#;
    let text = remove_server_from_client_a(Some(live), "a").expect("remove");
    let root: serde_json::Value = serde_json::from_str(&text).expect("valid json");
    let servers = root.get("mcpServers").and_then(|v| v.as_object()).expect("object");
    assert!(!servers.contains_key("a"));
    assert!(servers.contains_key("b"));
}

#[test]
fn store_mutations_behave_like_a_map() {
    let mut store = CanonicalStore::new();
    store
        .upsert_server(record("one", r#"{"command":"c"}"#, no_apps()))
        .expect("insert");
    assert!(store.toggle_app("one", &AppType::Gemini, true));
    assert!(!store.toggle_app("ghost", &AppType::Gemini, true));
    assert!(store.servers[0].apps.gemini);
    assert!(store.delete_server("one"));
    assert!(!store.delete_server("one"));
    assert_eq!(store.servers.len(), 0);

    let bad = record("bad", r#"{"type":"nope"}"#, no_apps());
    let err = store.upsert_server(bad).expect_err("invalid spec rejected");
    assert!(matches!(err, AppError::McpValidation(_)));
}

#[test]
fn validator_accepts_the_three_transports_and_rejects_others() {
    let ok_stdio = parse_json(r#"{"command":"run"}"#).unwrap();
    assert!(validate_server_spec(&ok_stdio).is_ok());
    let ok_http = parse_json(r#"{"type":"http","url":"https://u"}"#).unwrap();
    assert!(validate_server_spec(&ok_http).is_ok());
    let ok_sse = parse_json(r#"{"type":"sse","url":"https://u"}"#).unwrap();
    assert!(validate_server_spec(&ok_sse).is_ok());
    let missing_cmd = parse_json(r#"{"type":"stdio","command":"   "}"#).unwrap();
    assert!(validate_server_spec(&missing_cmd).is_err());
    let missing_url = parse_json(r#"{"type":"http"}"#).unwrap();
    assert!(validate_server_spec(&missing_url).is_err());
    let unknown = parse_json(r#"{"type":"carrier-pigeon"}"#).unwrap();
    assert!(validate_server_spec(&unknown).is_err());
    let not_object = JsonVal::Bool(true);
    assert!(validate_server_spec(&not_object).is_err());
}

#[test]
fn normalize_server_keys_repairs_mismatched_ids() {
    let doc = parse_json(
        r#"{"mismatch":{"id":"other"},"kept":{"id":"kept"},"missing":{},"plain":true}"#,
    )
    .expect("json");
    let mut entries = match doc {
        JsonVal::Obj(entries) => entries,
        _ => panic!("object expected"),
    };
    let changed = normalize_server_keys(&mut entries);
    // the mismatched and the missing id are repaired; the matching one
    // and the non-object entry are untouched
    assert_eq!(changed, 2);
    for (key, value) in &entries {
        match key.as_str() {
            "plain" => assert!(matches!(value, JsonVal::Bool(true))),
            k => {
                let t = cli_hub::jsonio::render_json_compact(value);
                assert!(t.contains(&format!("\"id\":\"{k}\"")), "{k}: got {t}");
            }
        }
    }
}

#[test]
fn deep_link_import_merges_flags_and_tags_new_entries() {
    let mut store = CanonicalStore::new();
    store
        .upsert_server(record("known", r#"{"command":"kept"}"#, no_apps()))
        .expect("seed");
    let request = match parse_json(r#"{"fresh":{"command":"new"},"known":{"command":"ignored"}}"#)
        .expect("entries")
    {
        JsonVal::Obj(entries) => entries,
        _ => panic!("object expected"),
    };
    let apps = McpApps { client_a: true, codex: true, gemini: false };
    let outcome = import_mcp_from_deeplink(&mut store, &request, &apps);
    assert_eq!(outcome.imported_count, 2);
    assert!(outcome.failed.is_empty());

    let known = store.servers.iter().find(|s| s.id == "known").expect("known");
    let spec = cli_hub::jsonio::render_json_compact(&known.server);
    assert!(spec.contains("kept"), "existing definition must win: {spec}");
    assert!(known.apps.client_a && known.apps.codex && !known.apps.gemini);
    assert!(known.tags.is_empty());

    let fresh = store.servers.iter().find(|s| s.id == "fresh").expect("fresh");
    assert_eq!(fresh.tags, vec!["imported".to_string()]);
    assert!(fresh.apps.client_a && fresh.apps.codex && !fresh.apps.gemini);
}
