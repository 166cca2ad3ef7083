use cli_hub::app_config::{McpApps, McpServer};
use cli_hub::database::backup::{backups_to_delete, sanitize_import_sql, DB_BACKUP_RETAIN};
use cli_hub::database::Database;
use cli_hub::app_config::{
    CommonConfigSnippets, McpConfig, McpRoot, MultiAppConfig, PromptConfig, PromptRoot,
};
use cli_hub::jsonio::parse_json;
use cli_hub::provider::{Provider, ProviderManager};
use cli_hub::model::JsonVal;

fn sample_record(id: &str) -> McpServer {
    McpServer {
        id: id.to_string(),
        name: id.to_string(),
        server: parse_json(r#"{"command":"run"}"#).expect("spec"),
        apps: McpApps { client_a: true, codex: false, gemini: false },
        description: None,
        homepage: None,
        docs: None,
        tags: vec!["t1".to_string()],
    }
}

#[test]
fn retention_deletes_only_the_oldest_backups() {
    let mut entries: Vec<(String, i64)> = Vec::new();
    for i in 0..11i64 {
        entries.push((format!("db_backup_{i}.db"), 1000 + i));
    }
    let victims = backups_to_delete(&entries, DB_BACKUP_RETAIN);
    assert_eq!(victims, vec!["db_backup_0.db".to_string()]);

    let few = backups_to_delete(&entries[0..3].to_vec(), DB_BACKUP_RETAIN);
    assert!(few.is_empty());
}

#[test]
fn retention_breaks_mtime_ties_by_listing_order() {
    let entries = vec![
        ("b.db".to_string(), 5i64),
        ("a.db".to_string(), 5i64),
        ("c.db".to_string(), 9i64),
    ];
    let victims = backups_to_delete(&entries, 1);
    assert_eq!(victims, vec!["b.db".to_string(), "a.db".to_string()]);
}

#[test]
fn sanitizer_drops_reserved_statements_and_blanks() {
    let cleaned = sanitize_import_sql(
        "CREATE TABLE t (x);\n  \nDELETE FROM sqlite_sequence;\nINSERT INTO t VALUES (1);",
    );
    assert_eq!(cleaned, "CREATE TABLE t (x);\nINSERT INTO t VALUES (1);\n");
}

#[test]
fn export_sql_contains_schema_and_rows() {
    let mut db = Database::memory().expect("open store");
    db.save_mcp_server(&sample_record("dump-me")).expect("save");
    let text = db.export_sql("20240101_000000").expect("export");
    assert!(text.starts_with("-- CLI Hub SQLite Export\n-- Generated: 20240101_000000\n"));
    assert!(text.contains("-- user_version: 1"));
    assert!(text.contains("CREATE TABLE IF NOT EXISTS mcp_servers"));
    assert!(text.contains("INSERT INTO \"mcp_servers\""));
    assert!(text.contains("'dump-me'"));
    assert!(text.contains("'[\"t1\"]'"));
    assert!(text.contains("BEGIN TRANSACTION;"));
    assert!(text.contains("COMMIT;"));
}

#[test]
fn export_then_import_round_trips_the_rows() {
    let mut db = Database::memory().expect("open store");
    db.save_mcp_server(&sample_record("keeper")).expect("save");
    let dump = db.export_sql("20240101_000000").expect("export");

    let mut fresh = Database::memory().expect("second store");
    fresh.import_sql(&dump).expect("import accepted");
    let store = fresh.get_all_mcp_servers().expect("load");
    assert_eq!(store.servers.len(), 1);
    assert_eq!(store.servers[0].id, "keeper");
    assert!(store.servers[0].apps.client_a);
    assert_eq!(store.servers[0].tags, vec!["t1".to_string()]);
}

#[test]
fn corrupt_backup_is_rejected_and_the_live_store_is_untouched() {
    let mut db = Database::memory().expect("open store");
    db.save_mcp_server(&sample_record("survivor")).expect("save");

    // structurally fine SQL, but both primary tables stay empty
    let corrupt = "CREATE TABLE IF NOT EXISTS unrelated (x INTEGER);\nINSERT INTO unrelated VALUES (1);";
    let err = db.import_sql(corrupt).expect_err("must be rejected");
    assert!(matches!(err, cli_hub::errors::AppError::ImportValidation(_)));

    let store = db.get_all_mcp_servers().expect("load");
    assert_eq!(store.servers.len(), 1);
    assert_eq!(store.servers[0].id, "survivor");
}

#[test]
fn store_rows_round_trip_through_save_and_load() {
    let mut db = Database::memory().expect("open store");
    let mut rec = sample_record("full");
    rec.description = Some("desc".to_string());
    rec.homepage = Some("https://h".to_string());
    db.save_mcp_server(&rec).expect("save");
    db.save_mcp_server(&sample_record("other")).expect("save other");
    db.delete_mcp_server("other").expect("delete");

    let store = db.get_all_mcp_servers().expect("load");
    assert_eq!(store.servers.len(), 1);
    let loaded = &store.servers[0];
    assert_eq!(loaded.id, "full");
    assert_eq!(loaded.description.as_deref(), Some("desc"));
    assert_eq!(loaded.homepage.as_deref(), Some("https://h"));
    let spec = cli_hub::jsonio::render_json_compact(&loaded.server);
    assert_eq!(spec, "{\"command\":\"run\"}");
}

#[test]
fn migrating_legacy_per_client_maps_builds_the_unified_store() {
    let client_a_entry = parse_json(
        r#"{"enabled":true,"name":"Echo","server":{"command":"echo"}}"#,
    )
    .expect("entry");
    let codex_entry = parse_json(r#"{"enabled":false,"server":{"command":"echo"}}"#)
        .expect("entry");
    let mut client_a = McpConfig::new();
    client_a.servers.push(("echo".to_string(), client_a_entry));
    let mut codex = McpConfig::new();
    codex.servers.push(("echo".to_string(), codex_entry));
    let mut config = MultiAppConfig {
        version: 2,
        apps: Vec::new(),
        mcp: McpRoot { servers: None, client_a, codex, gemini: McpConfig::new() },
        prompts: PromptRoot {
            client_a: PromptConfig { prompts: Vec::new() },
            codex: PromptConfig { prompts: Vec::new() },
            gemini: PromptConfig { prompts: Vec::new() },
        },
        skills: cli_hub::skills::SkillStore::new(),
        common_config_snippets: CommonConfigSnippets { client_a: None, codex: None, gemini: None },
        client_a_common_config_snippet: None,
    };
    let migrated = config.migrate_mcp_to_unified().expect("migrate");
    assert!(migrated);
    let unified = config.mcp.servers.as_ref().expect("unified");
    assert_eq!(unified.len(), 1);
    assert_eq!(unified[0].id, "echo");
    assert_eq!(unified[0].name, "Echo");
    assert!(unified[0].apps.client_a);
    assert!(!unified[0].apps.codex);
    match &unified[0].server {
        JsonVal::Obj(_) => {}
        _ => panic!("server definition expected"),
    }
    // a second run is a no-op
    let again = config.migrate_mcp_to_unified().expect("again");
    assert!(!again);
}

#[test]
fn migrating_a_whole_configuration_persists_providers_and_servers() {
    let provider = Provider::with_id(
        "p1".to_string(),
        "Prov".to_string(),
        parse_json(r#"{"env":{"K":"v"}}"#).expect("settings"),
        None,
    );
    let mut mgr = ProviderManager::new();
    mgr.providers.push(provider);
    mgr.current = "p1".to_string();
    let config = MultiAppConfig {
        version: 2,
        apps: vec![("client_a".to_string(), mgr)],
        mcp: McpRoot {
            servers: Some(vec![sample_record("srv")]),
            client_a: McpConfig::new(),
            codex: McpConfig::new(),
            gemini: McpConfig::new(),
        },
        prompts: PromptRoot {
            client_a: PromptConfig { prompts: Vec::new() },
            codex: PromptConfig { prompts: Vec::new() },
            gemini: PromptConfig { prompts: Vec::new() },
        },
        skills: cli_hub::skills::SkillStore::new(),
        common_config_snippets: CommonConfigSnippets {
            client_a: Some("snippet-a".to_string()),
            codex: None,
            gemini: None,
        },
        client_a_common_config_snippet: None,
    };
    let mut db = Database::memory().expect("store");
    db.migrate_from_json(&config).expect("migrate");
    let dump = db.export_sql("t").expect("dump");
    assert!(dump.contains("'p1'"), "provider row missing: {dump}");
    assert!(dump.contains("'srv'"), "server row missing: {dump}");
    assert!(dump.contains("'common_config_client_a'"), "snippet missing: {dump}");
    assert!(dump.contains("'snippet-a'"), "snippet value missing: {dump}");
}

#[test]
fn settings_rows_round_trip() {
    let mut db = Database::memory().expect("store");
    assert!(db.get_setting("app_settings").expect("read").is_none());
    db.set_setting("app_settings", "{}").expect("write");
    assert_eq!(db.get_setting("app_settings").expect("read").as_deref(), Some("{}"));
}
