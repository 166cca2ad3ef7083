use cli_hub::app_config::{McpApps, McpServer};
use cli_hub::jsonio::parse_json;
use cli_hub::model::{JsonVal, TomlVal};
use cli_hub::store::CanonicalStore;
use cli_hub::sync::codex::{import_from_codex, sync_enabled_to_codex};
use cli_hub::toml_convert::{json_server_to_toml_table, json_value_to_toml_item};

fn codex_only() -> McpApps {
    McpApps { client_a: false, codex: true, gemini: false }
}

fn record(id: &str, spec_json: &str, apps: McpApps) -> McpServer {
    McpServer {
        id: id.to_string(),
        name: id.to_string(),
        server: parse_json(spec_json).expect("spec json"),
        apps,
        description: None,
        homepage: None,
        docs: None,
        tags: Vec::new(),
    }
}

#[test]
fn legacy_nested_table_is_migrated_to_the_canonical_location() {
    let live = "[mcp.servers.x]\ntype = \"stdio\"\ncommand = \"run\"\n";
    let mut store = CanonicalStore::new();
    let changed = import_from_codex(&mut store, Some(live)).expect("import");
    assert_eq!(changed, 1);

    let text = sync_enabled_to_codex(&store, Some(live)).expect("export");
    assert!(text.contains("[mcp_servers.x]"), "got {text}");
    assert!(!text.contains("[mcp.servers"), "legacy table must be gone: {text}");
}

#[test]
fn export_preserves_unrelated_toml_content_and_comments() {
    let live = "# top-comment\ntitle = \"keep-me\"\n\n[profile]\nmode = \"dev\"\n";
    let mut store = CanonicalStore::new();
    store
        .upsert_server(record("s", r#"{"command":"echo","args":["ok"]}"#, codex_only()))
        .expect("upsert");
    let text = sync_enabled_to_codex(&store, Some(live)).expect("export");
    assert!(text.contains("# top-comment"));
    assert!(text.contains("title = \"keep-me\""));
    assert!(text.contains("[profile]"));
    assert!(text.contains("mode = \"dev\""));
    assert!(text.contains("[mcp_servers.s]"));
    assert!(text.contains("command = \"echo\""));
}

#[test]
fn exporting_no_enabled_servers_removes_the_table_entirely() {
    let live = "title = \"keep\"\n\n[mcp_servers.old]\ncommand = \"gone\"\n";
    let store = CanonicalStore::new();
    let text = sync_enabled_to_codex(&store, Some(live)).expect("export");
    assert!(!text.contains("mcp_servers"), "table should be removed: {text}");
    assert!(text.contains("title = \"keep\""));
}

#[test]
fn malformed_toml_is_a_hard_error_and_nothing_is_written() {
    let mut store = CanonicalStore::new();
    let err = import_from_codex(&mut store, Some("not = = toml")).expect_err("parse error");
    assert!(matches!(err, cli_hub::errors::AppError::Parse(_)));
    assert!(sync_enabled_to_codex(&store, Some("not = = toml")).is_err());
}

#[test]
fn codex_import_reads_core_and_extended_fields() {
    let live = "[mcp_servers.full]\ntype = \"stdio\"\ncommand = \"run\"\nargs = [\"a\", \"b\"]\ncwd = \"/work\"\ntimeout = 30\n[mcp_servers.full.env]\nKEY = \"VALUE\"\n";
    let mut store = CanonicalStore::new();
    let changed = import_from_codex(&mut store, Some(live)).expect("import");
    assert_eq!(changed, 1);
    let spec = cli_hub::jsonio::render_json_compact(&store.servers[0].server);
    assert!(spec.contains("\"command\":\"run\""), "got {spec}");
    assert!(spec.contains("\"args\":[\"a\",\"b\"]"), "got {spec}");
    assert!(spec.contains("\"cwd\":\"/work\""), "got {spec}");
    assert!(spec.contains("\"timeout\":30"), "got {spec}");
    assert!(spec.contains("\"env\":{\"KEY\":\"VALUE\"}"), "got {spec}");
}

#[test]
fn generic_converter_is_all_or_nothing() {
    let scalars = parse_json(r#"["a","b"]"#).unwrap();
    assert!(json_value_to_toml_item(&scalars, "f").is_some());
    let mixed = parse_json(r#"["a",1]"#).unwrap();
    assert!(json_value_to_toml_item(&mixed, "f").is_none());
    let nested = parse_json(r#"[["a"]]"#).unwrap();
    assert!(json_value_to_toml_item(&nested, "f").is_none());
    let str_obj = parse_json(r#"{"k":"v"}"#).unwrap();
    assert!(json_value_to_toml_item(&str_obj, "f").is_some());
    let bad_obj = parse_json(r#"{"k":1}"#).unwrap();
    assert!(json_value_to_toml_item(&bad_obj, "f").is_none());
    assert!(json_value_to_toml_item(&JsonVal::Null, "f").is_none());
}

#[test]
fn server_encoder_emits_type_then_core_then_extended_fields() {
    let spec = parse_json(
        r#"{"type":"http","url":"https://u","http_headers":{"h":"v"},"retry_count":3}"#,
    )
    .unwrap();
    let table = json_server_to_toml_table(&spec).expect("encode");
    match table {
        TomlVal::Table(entries) => {
            let keys: Vec<&str> = entries.iter().map(|(k, _)| k.as_str()).collect();
            assert_eq!(keys, vec!["type", "url", "retry_count"]);
        }
        _ => panic!("table expected"),
    }
    let stdio = parse_json(r#"{"command":"run","args":["a"],"timeout":9}"#).unwrap();
    let table = json_server_to_toml_table(&stdio).expect("encode");
    match table {
        TomlVal::Table(entries) => {
            let keys: Vec<&str> = entries.iter().map(|(k, _)| k.as_str()).collect();
            assert_eq!(keys, vec!["type", "command", "args", "timeout"]);
        }
        _ => panic!("table expected"),
    }
}

#[test]
fn codex_export_then_import_recovers_typed_fields() {
    let mut store = CanonicalStore::new();
    store
        .upsert_server(record(
            "rt",
            r#"{"type":"stdio","command":"run","args":["a","b"],"cwd":"/work","env":{"K":"V"}}"#,
            codex_only(),
        ))
        .expect("valid record");
    let text = sync_enabled_to_codex(&store, None).expect("export");

    let mut back = CanonicalStore::new();
    let changed = import_from_codex(&mut back, Some(&text)).expect("reimport");
    assert_eq!(changed, 1);
    let spec = cli_hub::jsonio::render_json_compact(&back.servers[0].server);
    assert!(spec.contains("\"type\":\"stdio\""), "got {spec}");
    assert!(spec.contains("\"command\":\"run\""), "got {spec}");
    assert!(spec.contains("\"args\":[\"a\",\"b\"]"), "got {spec}");
    assert!(spec.contains("\"cwd\":\"/work\""), "got {spec}");
    assert!(spec.contains("\"env\":{\"K\":\"V\"}"), "got {spec}");

    let mut net = CanonicalStore::new();
    net.upsert_server(record(
        "web",
        r#"{"type":"http","url":"https://x.example/mcp","headers":{"A":"B"}}"#,
        codex_only(),
    ))
    .expect("valid record");
    let text = sync_enabled_to_codex(&net, None).expect("export");
    let mut back = CanonicalStore::new();
    let changed = import_from_codex(&mut back, Some(&text)).expect("reimport");
    assert_eq!(changed, 1);
    let spec = cli_hub::jsonio::render_json_compact(&back.servers[0].server);
    assert!(spec.contains("\"type\":\"http\""), "got {spec}");
    assert!(spec.contains("\"url\":\"https://x.example/mcp\""), "got {spec}");
    assert!(spec.contains("\"headers\":{\"A\":\"B\"}"), "got {spec}");
}
