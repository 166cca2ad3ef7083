use rusqlite::Connection;

use cli_hub::database::schema::{
    add_column_if_missing, apply_schema_migrations_on_conn, create_tables_on_conn, has_column,
    SCHEMA_VERSION,
};
use cli_hub::database::{get_user_version, set_user_version};

const LEGACY_SCHEMA_SQL: &str = r#"
        CREATE TABLE providers (
            id TEXT NOT NULL,
            app_type TEXT NOT NULL,
            name TEXT NOT NULL,
            settings_config TEXT NOT NULL,
            PRIMARY KEY (id, app_type)
        );
        CREATE TABLE provider_endpoints (
            id INTEGER PRIMARY KEY AUTOINCREMENT,
            provider_id TEXT NOT NULL,
            app_type TEXT NOT NULL,
            url TEXT NOT NULL
        );
        CREATE TABLE mcp_servers (
            id TEXT PRIMARY KEY,
            name TEXT NOT NULL,
            server_config TEXT NOT NULL
        );
        CREATE TABLE prompts (
            id TEXT NOT NULL,
            app_type TEXT NOT NULL,
            name TEXT NOT NULL,
            content TEXT NOT NULL,
            PRIMARY KEY (id, app_type)
        );
        CREATE TABLE skills (
            key TEXT PRIMARY KEY,
            installed BOOLEAN NOT NULL DEFAULT 0
        );
        CREATE TABLE skill_repos (
            owner TEXT NOT NULL,
            name TEXT NOT NULL,
            PRIMARY KEY (owner, name)
        );
        CREATE TABLE settings (
            key TEXT PRIMARY KEY,
            value TEXT
        );
    "#;

#[derive(Debug)]
struct ColumnInfo {
    name: String,
    ctype: String,
    notnull: i64,
    default: Option<String>,
}

fn get_column_info(conn: &Connection, table: &str, column: &str) -> ColumnInfo {
    let mut stmt = conn
        .prepare(&format!("PRAGMA table_info(\"{table}\");"))
        .expect("prepare pragma");
    let mut rows = stmt.query([]).expect("query pragma");
    while let Some(row) = rows.next().expect("read row") {
        let name: String = row.get(1).expect("name");
        if name.eq_ignore_ascii_case(column) {
            return ColumnInfo {
                name,
                ctype: row.get::<_, String>(2).expect("type"),
                notnull: row.get::<_, i64>(3).expect("notnull"),
                default: row.get::<_, Option<String>>(4).ok().flatten(),
            };
        }
    }
    panic!("column {table}.{column} not found");
}

fn normalize_default(default: &Option<String>) -> Option<String> {
    default
        .as_ref()
        .map(|s| s.trim_matches('\'').trim_matches('"').to_string())
}

#[test]
fn schema_migration_sets_user_version_when_missing() {
    let mut conn = Connection::open_in_memory().expect("open memory db");

    create_tables_on_conn(&mut conn).expect("create tables");
    assert_eq!(get_user_version(&conn).expect("read version before"), 0);

    apply_schema_migrations_on_conn(&mut conn).expect("apply migration");

    assert_eq!(
        get_user_version(&conn).expect("read version after"),
        SCHEMA_VERSION
    );
}

#[test]
fn schema_migration_rejects_future_version() {
    let mut conn = Connection::open_in_memory().expect("open memory db");
    create_tables_on_conn(&mut conn).expect("create tables");
    set_user_version(&mut conn, SCHEMA_VERSION + 1).expect("set future version");

    let err = apply_schema_migrations_on_conn(&mut conn)
        .expect_err("should reject higher version");
    assert!(
        err.message().contains("version too new") || err.message().contains("版本过新"),
        "unexpected error: {}",
        err.message()
    );
}

#[test]
fn schema_migration_adds_missing_columns_for_providers() {
    let mut conn = Connection::open_in_memory().expect("open memory db");

    conn.execute_batch(LEGACY_SCHEMA_SQL).expect("seed old schema");

    apply_schema_migrations_on_conn(&mut conn).expect("apply migrations");

    for (table, column) in [
        ("providers", "meta"),
        ("providers", "is_current"),
        ("provider_endpoints", "added_at"),
        ("mcp_servers", "enabled_gemini"),
        ("prompts", "updated_at"),
        ("skills", "installed_at"),
        ("skill_repos", "enabled"),
    ] {
        assert!(
            has_column(&conn, table, column).expect("check column"),
            "{table}.{column} should exist after migration"
        );
    }

    let meta = get_column_info(&conn, "providers", "meta");
    assert_eq!(meta.notnull, 1, "meta should be NOT NULL");
    assert_eq!(
        normalize_default(&meta.default).as_deref(),
        Some("{}"),
        "meta default should be '{{}}'"
    );

    assert_eq!(
        get_user_version(&conn).expect("version after migration"),
        SCHEMA_VERSION
    );
}

#[test]
fn schema_migration_aligns_column_defaults_and_types() {
    let mut conn = Connection::open_in_memory().expect("open memory db");
    conn.execute_batch(LEGACY_SCHEMA_SQL).expect("seed old schema");

    apply_schema_migrations_on_conn(&mut conn).expect("apply migrations");

    let is_current = get_column_info(&conn, "providers", "is_current");
    assert_eq!(is_current.ctype, "BOOLEAN");
    assert_eq!(is_current.notnull, 1);
    assert_eq!(normalize_default(&is_current.default).as_deref(), Some("0"));

    let tags = get_column_info(&conn, "mcp_servers", "tags");
    assert_eq!(tags.ctype, "TEXT");
    assert_eq!(tags.notnull, 1);
    assert_eq!(normalize_default(&tags.default).as_deref(), Some("[]"));

    let enabled = get_column_info(&conn, "prompts", "enabled");
    assert_eq!(enabled.ctype, "BOOLEAN");
    assert_eq!(enabled.notnull, 1);
    assert_eq!(normalize_default(&enabled.default).as_deref(), Some("1"));

    let installed_at = get_column_info(&conn, "skills", "installed_at");
    assert_eq!(installed_at.ctype, "INTEGER");
    assert_eq!(installed_at.notnull, 1);
    assert_eq!(normalize_default(&installed_at.default).as_deref(), Some("0"));

    let branch = get_column_info(&conn, "skill_repos", "branch");
    assert_eq!(branch.ctype, "TEXT");
    assert_eq!(normalize_default(&branch.default).as_deref(), Some("main"));

    let skill_repo_enabled = get_column_info(&conn, "skill_repos", "enabled");
    assert_eq!(skill_repo_enabled.ctype, "BOOLEAN");
    assert_eq!(skill_repo_enabled.notnull, 1);
    assert_eq!(normalize_default(&skill_repo_enabled.default).as_deref(), Some("1"));
}

#[test]
fn add_column_if_missing_resolves_names_case_insensitively() {
    let mut conn = Connection::open_in_memory().expect("open memory db");
    create_tables_on_conn(&mut conn).expect("create tables");

    let added = add_column_if_missing(&mut conn, "PROVIDERS", "Extra_Col", "TEXT")
        .expect("add column through uppercase names");
    assert!(added);
    assert!(has_column(&conn, "providers", "extra_col").expect("check column"));

    let again = add_column_if_missing(&mut conn, "providers", "EXTRA_COL", "TEXT")
        .expect("repeat through other case");
    assert!(!again);
}
