//! Schema creation and the versioned migration engine.
//!
//! On open the stored version is compared with the compiled-in
//! current version: a newer store is refused outright; an older one
//! is migrated inside one savepoint, each step an additive
//! add-column-if-missing, and any failure rolls the whole savepoint
//! back, leaving the store untouched.

use vstd::prelude::*;

use super::{
    begin_schema_savepoint, db_model, db_saved, get_user_version, release_schema_savepoint,
    rollback_schema_savepoint, set_user_version, sp_active, DbModel,
};
use crate::errors::AppError;
use crate::strutil;

verus! {

/// The schema version this build writes.
pub const SCHEMA_VERSION: i64 = 1;

/// An identifier safe to interpolate into DDL: ASCII letters,
/// digits and underscores, at least one character. Such names
/// cannot be bound as ordinary query parameters, so they are
/// checked against this allow-list before interpolation.
pub open spec fn is_sql_ident(s: Seq<char>) -> bool {
    s.len() > 0 && forall|i: int|
        0 <= i < s.len() ==> ('a' <= #[trigger] s[i] <= 'z' || 'A' <= s[i] <= 'Z' || '0' <= s[i]
            <= '9' || s[i] == '_')
}

/// The lowercase subset of the allow-list. SQLite resolves
/// identifiers ASCII-case-insensitively, and the model's table map
/// is keyed by the lowercase form of each stored name, so the
/// trusted wrappers that interpolate a name admit only this form;
/// validated names are lowercased before they reach one.
pub open spec fn is_lower_sql_ident(s: Seq<char>) -> bool {
    s.len() > 0 && forall|i: int|
        0 <= i < s.len() ==> ('a' <= #[trigger] s[i] <= 'z' || '0' <= s[i] <= '9' || s[i] == '_')
}

/// Lowercasing a validated identifier lands in the lowercase
/// allow-list.
proof fn lemma_lower_ident(s: Seq<char>)
    requires
        is_sql_ident(s),
    ensures
        is_lower_sql_ident(strutil::lower_spec(s)),
{
    assert forall|i: int| 0 <= i < strutil::lower_spec(s).len() implies ('a'
        <= #[trigger] strutil::lower_spec(s)[i] <= 'z' || '0' <= strutil::lower_spec(s)[i] <= '9'
        || strutil::lower_spec(s)[i] == '_') by {
        let c = s[i];
        assert(strutil::lower_spec(s)[i] == strutil::lower_char(c));
        if 'A' <= c && c <= 'Z' {
            assert('a' <= strutil::lower_char(c) <= 'z');
        }
    }
}

/// A name already in the lowercase allow-list is its own lowercase
/// form.
proof fn lemma_lower_fixed(s: Seq<char>)
    requires
        is_lower_sql_ident(s),
    ensures
        strutil::lower_spec(s) == s,
{
    assert forall|i: int| 0 <= i < s.len() implies #[trigger] strutil::lower_spec(s)[i] == s[i] by {
        let c = s[i];
        assert(!('A' <= c && c <= 'Z'));
    }
    assert(strutil::lower_spec(s) =~= s);
}

/// Accept exactly the identifiers of the allow-list.
pub fn validate_identifier(s: &str) -> (r: Result<(), AppError>)
    ensures
        r is Ok <==> is_sql_ident(s@),
        r is Err ==> r->Err_0 is Database,
{
    let cs = strutil::str_chars(s);
    if cs.len() == 0 {
        return Err(AppError::Database("identifier cannot be empty".to_owned()));
    }
    let mut i: usize = 0;
    while i < cs.len()
        invariant
            cs@ == s@,
            i <= cs@.len(),
            forall|j: int|
                0 <= j < i ==> ('a' <= #[trigger] cs@[j] <= 'z' || 'A' <= cs@[j] <= 'Z' || '0'
                    <= cs@[j] <= '9' || cs@[j] == '_'),
        decreases cs@.len() - i,
    {
        let c = cs[i];
        if !(('a' <= c && c <= 'z') || ('A' <= c && c <= 'Z') || ('0' <= c && c <= '9') || c == '_')
        {
            return Err(
                AppError::Database(
                    "invalid identifier: only alphanumeric characters and underscore are allowed".to_owned(),
                ),
            );
        }
        i = i + 1;
    }
    Ok(())
}

/// The columns of the providers table as this build creates it.
pub open spec fn providers_cols() -> Set<Seq<char>> {
    set![
        "id"@,
        "app_type"@,
        "name"@,
        "settings_config"@,
        "website_url"@,
        "category"@,
        "created_at"@,
        "sort_index"@,
        "notes"@,
        "icon"@,
        "icon_color"@,
        "meta"@,
        "is_current"@,
    ]
}

pub open spec fn provider_endpoints_cols() -> Set<Seq<char>> {
    set!["id"@, "provider_id"@, "app_type"@, "url"@, "added_at"@]
}

pub open spec fn mcp_servers_cols() -> Set<Seq<char>> {
    set![
        "id"@,
        "name"@,
        "server_config"@,
        "description"@,
        "homepage"@,
        "docs"@,
        "tags"@,
        "enabled_client_a"@,
        "enabled_codex"@,
        "enabled_gemini"@,
    ]
}

pub open spec fn prompts_cols() -> Set<Seq<char>> {
    set![
        "id"@,
        "app_type"@,
        "name"@,
        "content"@,
        "description"@,
        "enabled"@,
        "created_at"@,
        "updated_at"@,
    ]
}

pub open spec fn skills_cols() -> Set<Seq<char>> {
    set!["key"@, "installed"@, "installed_at"@]
}

pub open spec fn skill_repos_cols() -> Set<Seq<char>> {
    set!["owner"@, "name"@, "branch"@, "enabled"@, "skills_path"@]
}

pub open spec fn settings_cols() -> Set<Seq<char>> {
    set!["key"@, "value"@]
}

/// The tables a fresh creation pass adds: every one of the seven that
/// the store did not already have, with its standard columns.
pub open spec fn created_defaults(old_t: Map<Seq<char>, Set<Seq<char>>>) -> Map<
    Seq<char>,
    Set<Seq<char>>,
> {
    all_tables_map().remove_keys(old_t.dom())
}

pub open spec fn all_tables_map() -> Map<Seq<char>, Set<Seq<char>>> {
    map![
        "providers"@ => providers_cols(),
        "provider_endpoints"@ => provider_endpoints_cols(),
        "mcp_servers"@ => mcp_servers_cols(),
        "prompts"@ => prompts_cols(),
        "skills"@ => skills_cols(),
        "skill_repos"@ => skill_repos_cols(),
        "settings"@ => settings_cols(),
    ]
}

/// The table map after one conditional creation: an existing table
/// keeps its columns, a fresh one gets the given set.
pub open spec fn with_table(
    t: Map<Seq<char>, Set<Seq<char>>>,
    name: Seq<char>,
    cols: Set<Seq<char>>,
) -> Map<Seq<char>, Set<Seq<char>>> {
    t.insert(
        name,
        if t.dom().contains(name) {
            t[name]
        } else {
            cols
        },
    )
}

/// Relies on CREATE TABLE IF NOT EXISTS providers: the table exists
/// afterwards; an existing one keeps its columns and rows, a fresh
/// one has the standard columns and no rows.
#[verifier::external_body]
fn create_providers_table(c: &mut rusqlite::Connection) -> (r: Result<(), String>)
    ensures
        match r {
            Ok(_) => db_model(*final(c)) == (DbModel {
                tables: with_table(db_model(*old(c)).tables, "providers"@, providers_cols()),
                ..db_model(*old(c))
            }) && db_saved(*final(c)) == db_saved(*old(c)) && sp_active(*final(c)) == sp_active(
                *old(c),
            ),
            Err(_) => true,
        },
{
    c.execute(
        "CREATE TABLE IF NOT EXISTS providers (id TEXT NOT NULL, app_type TEXT NOT NULL, name TEXT NOT NULL, settings_config TEXT NOT NULL, website_url TEXT, category TEXT, created_at INTEGER, sort_index INTEGER, notes TEXT, icon TEXT, icon_color TEXT, meta TEXT NOT NULL DEFAULT '{}', is_current BOOLEAN NOT NULL DEFAULT 0, PRIMARY KEY (id, app_type))",
        [],
    ).map(|_| ()).map_err(|e| e.to_string())
}

/// Relies on CREATE TABLE IF NOT EXISTS provider_endpoints, as above.
#[verifier::external_body]
fn create_endpoints_table(c: &mut rusqlite::Connection) -> (r: Result<(), String>)
    ensures
        match r {
            Ok(_) => db_model(*final(c)) == (DbModel {
                tables: with_table(
                    db_model(*old(c)).tables,
                    "provider_endpoints"@,
                    provider_endpoints_cols(),
                ),
                ..db_model(*old(c))
            }) && db_saved(*final(c)) == db_saved(*old(c)) && sp_active(*final(c)) == sp_active(
                *old(c),
            ),
            Err(_) => true,
        },
{
    c.execute(
        "CREATE TABLE IF NOT EXISTS provider_endpoints (id INTEGER PRIMARY KEY AUTOINCREMENT, provider_id TEXT NOT NULL, app_type TEXT NOT NULL, url TEXT NOT NULL, added_at INTEGER, FOREIGN KEY (provider_id, app_type) REFERENCES providers(id, app_type) ON DELETE CASCADE)",
        [],
    ).map(|_| ()).map_err(|e| e.to_string())
}

/// Relies on CREATE TABLE IF NOT EXISTS mcp_servers, as above.
#[verifier::external_body]
fn create_mcp_table(c: &mut rusqlite::Connection) -> (r: Result<(), String>)
    ensures
        match r {
            Ok(_) => db_model(*final(c)) == (DbModel {
                tables: with_table(db_model(*old(c)).tables, "mcp_servers"@, mcp_servers_cols()),
                ..db_model(*old(c))
            }) && db_saved(*final(c)) == db_saved(*old(c)) && sp_active(*final(c)) == sp_active(
                *old(c),
            ),
            Err(_) => true,
        },
{
    c.execute(
        "CREATE TABLE IF NOT EXISTS mcp_servers (id TEXT PRIMARY KEY, name TEXT NOT NULL, server_config TEXT NOT NULL, description TEXT, homepage TEXT, docs TEXT, tags TEXT NOT NULL DEFAULT '[]', enabled_client_a BOOLEAN NOT NULL DEFAULT 0, enabled_codex BOOLEAN NOT NULL DEFAULT 0, enabled_gemini BOOLEAN NOT NULL DEFAULT 0)",
        [],
    ).map(|_| ()).map_err(|e| e.to_string())
}

/// Relies on CREATE TABLE IF NOT EXISTS prompts, as above.
#[verifier::external_body]
fn create_prompts_table(c: &mut rusqlite::Connection) -> (r: Result<(), String>)
    ensures
        match r {
            Ok(_) => db_model(*final(c)) == (DbModel {
                tables: with_table(db_model(*old(c)).tables, "prompts"@, prompts_cols()),
                ..db_model(*old(c))
            }) && db_saved(*final(c)) == db_saved(*old(c)) && sp_active(*final(c)) == sp_active(
                *old(c),
            ),
            Err(_) => true,
        },
{
    c.execute(
        "CREATE TABLE IF NOT EXISTS prompts (id TEXT NOT NULL, app_type TEXT NOT NULL, name TEXT NOT NULL, content TEXT NOT NULL, description TEXT, enabled BOOLEAN NOT NULL DEFAULT 1, created_at INTEGER, updated_at INTEGER, PRIMARY KEY (id, app_type))",
        [],
    ).map(|_| ()).map_err(|e| e.to_string())
}

/// Relies on CREATE TABLE IF NOT EXISTS skills, as above.
#[verifier::external_body]
fn create_skills_table(c: &mut rusqlite::Connection) -> (r: Result<(), String>)
    ensures
        match r {
            Ok(_) => db_model(*final(c)) == (DbModel {
                tables: with_table(db_model(*old(c)).tables, "skills"@, skills_cols()),
                ..db_model(*old(c))
            }) && db_saved(*final(c)) == db_saved(*old(c)) && sp_active(*final(c)) == sp_active(
                *old(c),
            ),
            Err(_) => true,
        },
{
    c.execute(
        "CREATE TABLE IF NOT EXISTS skills (key TEXT PRIMARY KEY, installed BOOLEAN NOT NULL DEFAULT 0, installed_at INTEGER NOT NULL DEFAULT 0)",
        [],
    ).map(|_| ()).map_err(|e| e.to_string())
}

/// Relies on CREATE TABLE IF NOT EXISTS skill_repos, as above.
#[verifier::external_body]
fn create_skill_repos_table(c: &mut rusqlite::Connection) -> (r: Result<(), String>)
    ensures
        match r {
            Ok(_) => db_model(*final(c)) == (DbModel {
                tables: with_table(db_model(*old(c)).tables, "skill_repos"@, skill_repos_cols()),
                ..db_model(*old(c))
            }) && db_saved(*final(c)) == db_saved(*old(c)) && sp_active(*final(c)) == sp_active(
                *old(c),
            ),
            Err(_) => true,
        },
{
    c.execute(
        "CREATE TABLE IF NOT EXISTS skill_repos (owner TEXT NOT NULL, name TEXT NOT NULL, branch TEXT NOT NULL DEFAULT 'main', enabled BOOLEAN NOT NULL DEFAULT 1, skills_path TEXT, PRIMARY KEY (owner, name))",
        [],
    ).map(|_| ()).map_err(|e| e.to_string())
}

/// Relies on CREATE TABLE IF NOT EXISTS settings, as above.
#[verifier::external_body]
fn create_settings_table(c: &mut rusqlite::Connection) -> (r: Result<(), String>)
    ensures
        match r {
            Ok(_) => db_model(*final(c)) == (DbModel {
                tables: with_table(db_model(*old(c)).tables, "settings"@, settings_cols()),
                ..db_model(*old(c))
            }) && db_saved(*final(c)) == db_saved(*old(c)) && sp_active(*final(c)) == sp_active(
                *old(c),
            ),
            Err(_) => true,
        },
{
    c.execute("CREATE TABLE IF NOT EXISTS settings (key TEXT PRIMARY KEY, value TEXT)", []).map(
        |_| (),
    ).map_err(|e| e.to_string())
}

/// Create any of the seven tables that are missing; existing ones
/// keep their columns and rows, fresh ones start with the standard
/// columns and no rows.
#[verifier::rlimit(60)]
pub fn create_tables_on_conn(c: &mut rusqlite::Connection) -> (r: Result<(), String>)
    ensures
        match r {
            Ok(_) => db_model(*final(c)) == (DbModel {
                tables: db_model(*old(c)).tables.union_prefer_right(
                    created_defaults(db_model(*old(c)).tables),
                ),
                ..db_model(*old(c))
            }) && db_saved(*final(c)) == db_saved(*old(c)) && sp_active(*final(c)) == sp_active(
                *old(c),
            ),
            Err(_) => true,
        },
{
    let ghost m0 = db_model(*c);
    proof {
        distinct_table_names();
    }
    if let Err(e) = create_providers_table(c) {
        return Err(e);
    }
    if let Err(e) = create_endpoints_table(c) {
        return Err(e);
    }
    if let Err(e) = create_mcp_table(c) {
        return Err(e);
    }
    if let Err(e) = create_prompts_table(c) {
        return Err(e);
    }
    if let Err(e) = create_skills_table(c) {
        return Err(e);
    }
    if let Err(e) = create_skill_repos_table(c) {
        return Err(e);
    }
    if let Err(e) = create_settings_table(c) {
        return Err(e);
    }
    proof {
        reveal_strlit("settings");
        reveal_strlit("providers");
        reveal_strlit("provider_endpoints");
        reveal_strlit("mcp_servers");
        reveal_strlit("prompts");
        reveal_strlit("skills");
        reveal_strlit("skill_repos");
        assert("settings"@.len() == 8);
        assert("providers"@.len() == 9);
        assert("provider_endpoints"@.len() == 18);
        assert("mcp_servers"@.len() == 11);
        assert("prompts"@.len() == 7);
        assert("skills"@.len() == 6);
        assert("skill_repos"@.len() == 11);
        assert("settings"@ != "providers"@ && "settings"@ != "provider_endpoints"@ && "settings"@
            != "mcp_servers"@ && "settings"@ != "prompts"@ && "settings"@ != "skills"@
            && "settings"@ != "skill_repos"@) by {
            assert("settings"@[0] == 's' && "skills"@[1] == 'k' && "settings"@[1] == 'e');
            assert("skill_repos"@[1] == 'k');
        }
        assert(db_model(*c).tables =~= m0.tables.union_prefer_right(created_defaults(m0.tables)));
    }
    Ok(())
}

/// Relies on PRAGMA table_info (rusqlite prepared query): whether the
/// table has a column of this name. SQLite resolves names
/// ASCII-case-insensitively and the model is keyed by lowercase
/// forms, so only lowercase names are admitted; for those the
/// case-insensitive probe coincides with model membership.
#[verifier::external_body]
pub fn has_column(c: &rusqlite::Connection, table: &str, column: &str) -> (r: Result<bool, String>)
    requires
        is_lower_sql_ident(table@),
        is_lower_sql_ident(column@),
    ensures
        match r {
            Ok(b) => b == (db_model(*c).tables.dom().contains(table@) && db_model(
                *c,
            ).tables[table@].contains(column@)),
            Err(_) => true,
        },
{
    let sql = format!("PRAGMA table_info(\"{}\");", table);
    let mut stmt = c.prepare(&sql).map_err(|e| e.to_string())?;
    let mut rows = stmt.query([]).map_err(|e| e.to_string())?;
    while let Some(row) = rows.next().map_err(|e| e.to_string())? {
        let name: String = row.get(1).map_err(|e| e.to_string())?;
        if name.eq_ignore_ascii_case(column) {
            return Ok(true);
        }
    }
    Ok(false)
}

/// Relies on a query over sqlite_master: whether the table exists.
/// Only lowercase names are admitted, for the same reason as
/// `has_column`.
#[verifier::external_body]
pub fn table_exists(c: &rusqlite::Connection, table: &str) -> (r: Result<bool, String>)
    requires
        is_lower_sql_ident(table@),
    ensures
        match r {
            Ok(b) => b == db_model(*c).tables.dom().contains(table@),
            Err(_) => true,
        },
{
    let mut stmt = c.prepare("SELECT name FROM sqlite_master WHERE type='table'").map_err(
        |e| e.to_string(),
    )?;
    let mut rows = stmt.query([]).map_err(|e| e.to_string())?;
    while let Some(row) = rows.next().map_err(|e| e.to_string())? {
        let name: String = row.get(0).map_err(|e| e.to_string())?;
        if name.eq_ignore_ascii_case(table) {
            return Ok(true);
        }
    }
    Ok(false)
}

/// Relies on ALTER TABLE ADD COLUMN: on success the named column
/// joins the table's column set and, the addition being purely
/// additive with a default, every modelled row map reads as before;
/// on failure the store is untouched. Only lowercase names are
/// admitted, so the stored name is the model's key.
#[verifier::external_body]
pub fn alter_add_column(
    c: &mut rusqlite::Connection,
    table: &str,
    column: &str,
    definition: &str,
) -> (r: Result<(), String>)
    requires
        is_lower_sql_ident(table@),
        is_lower_sql_ident(column@),
    ensures
        match r {
            Ok(_) => db_model(*final(c)) == (DbModel {
                tables: db_model(*old(c)).tables.insert(
                    table@,
                    db_model(*old(c)).tables[table@].insert(column@),
                ),
                ..db_model(*old(c))
            }) && db_model(*old(c)).tables.dom().contains(table@) && db_saved(*final(c))
                == db_saved(*old(c)) && sp_active(*final(c)) == sp_active(*old(c)),
            Err(_) => (db_model(*final(c)) == db_model(*old(c)) && db_saved(*final(c)) == db_saved(
                *old(c),
            ) && sp_active(*final(c)) == sp_active(*old(c))) || (sp_active(*old(c)) && db_model(
                *final(c),
            ) == db_saved(*old(c)) && !sp_active(*final(c))),
        },
{
    let sql = format!("ALTER TABLE \"{}\" ADD COLUMN \"{}\" {};", table, column, definition);
    match c.execute(&sql, []) {
        Ok(_) => Ok(()),
        Err(e) => Err(e.to_string()),
    }
}

/// Add a column unless the table already has it; report whether the
/// table changed. The table must exist. Validated names are
/// lowercased before use, which SQLite's case-insensitive resolution
/// makes behaviourally neutral, so the model speaks of the lowercase
/// forms.
pub fn add_column_if_missing(
    c: &mut rusqlite::Connection,
    table: &str,
    column: &str,
    definition: &str,
) -> (r: Result<bool, AppError>)
    ensures
        ({
            let lt = strutil::lower_spec(table@);
            let lc = strutil::lower_spec(column@);
            match r {
                Ok(added) => {
                    &&& is_sql_ident(table@) && is_sql_ident(column@)
                    &&& db_model(*old(c)).tables.dom().contains(lt)
                    &&& db_model(*final(c)) == (DbModel {
                        tables: db_model(*old(c)).tables.insert(
                            lt,
                            db_model(*old(c)).tables[lt].insert(lc),
                        ),
                        ..db_model(*old(c))
                    })
                    &&& added == !db_model(*old(c)).tables[lt].contains(lc)
                    &&& db_saved(*final(c)) == db_saved(*old(c))
                    &&& sp_active(*final(c)) == sp_active(*old(c))
                },
                Err(e) => {
                    &&& e is Database
                    &&& (db_model(*final(c)) == db_model(*old(c)) && db_saved(*final(c))
                        == db_saved(*old(c)) && sp_active(*final(c)) == sp_active(*old(c))) || (
                    sp_active(*old(c)) && db_model(*final(c)) == db_saved(*old(c)) && !sp_active(
                        *final(c),
                    ))
                },
            }
        }),
{
    if let Err(e) = validate_identifier(table) {
        return Err(e);
    }
    if let Err(e) = validate_identifier(column) {
        return Err(e);
    }
    let lt = strutil::chars_string(&strutil::lower_chars(&strutil::str_chars(table)));
    let lc = strutil::chars_string(&strutil::lower_chars(&strutil::str_chars(column)));
    proof {
        lemma_lower_ident(table@);
        lemma_lower_ident(column@);
    }
    let exists = match table_exists(c, lt.as_str()) {
        Ok(b) => b,
        Err(m) => {
            return Err(AppError::Database(m));
        },
    };
    if !exists {
        return Err(AppError::Database("the table does not exist; cannot add a column".to_owned()));
    }
    let present = match has_column(c, lt.as_str(), lc.as_str()) {
        Ok(b) => b,
        Err(m) => {
            return Err(AppError::Database(m));
        },
    };
    if present {
        proof {
            assert(db_model(*c).tables[lt@].insert(lc@) =~= db_model(*c).tables[lt@]);
            assert(db_model(*c).tables.insert(lt@, db_model(*c).tables[lt@].insert(lc@))
                =~= db_model(*c).tables);
            assert(db_model(*c) == (DbModel {
                tables: db_model(*c).tables.insert(lt@, db_model(*c).tables[lt@].insert(lc@)),
                ..db_model(*c)
            }));
        }
        return Ok(false);
    }
    match alter_add_column(c, lt.as_str(), lc.as_str(), definition) {
        Ok(_) => Ok(true),
        Err(m) => Err(AppError::Database(m)),
    }
}


/// The columns the one migration step adds, per table.
pub open spec fn added_providers() -> Set<Seq<char>> {
    set![
        "category"@,
        "created_at"@,
        "sort_index"@,
        "notes"@,
        "icon"@,
        "icon_color"@,
        "meta"@,
        "is_current"@,
    ]
}

pub open spec fn added_endpoints() -> Set<Seq<char>> {
    set!["added_at"@]
}

pub open spec fn added_mcp() -> Set<Seq<char>> {
    set!["description"@, "homepage"@, "docs"@, "tags"@, "enabled_codex"@, "enabled_gemini"@]
}

pub open spec fn added_prompts() -> Set<Seq<char>> {
    set!["description"@, "enabled"@, "created_at"@, "updated_at"@]
}

pub open spec fn added_skills() -> Set<Seq<char>> {
    set!["installed_at"@]
}

pub open spec fn added_skill_repos() -> Set<Seq<char>> {
    set!["branch"@, "enabled"@, "skills_path"@]
}

/// The table map after the migration step: each touched table's
/// column set grown by the step's additions.
pub open spec fn migrated_tables(t: Map<Seq<char>, Set<Seq<char>>>) -> Map<
    Seq<char>,
    Set<Seq<char>>,
> {
    t.insert("providers"@, t["providers"@] + added_providers()).insert(
        "provider_endpoints"@,
        t["provider_endpoints"@] + added_endpoints(),
    ).insert("mcp_servers"@, t["mcp_servers"@] + added_mcp()).insert(
        "prompts"@,
        t["prompts"@] + added_prompts(),
    ).insert("skills"@, t["skills"@] + added_skills()).insert(
        "skill_repos"@,
        t["skill_repos"@] + added_skill_repos(),
    )
}

/// Whether the six migrated tables are present, as they are after a
/// creation pass.
pub open spec fn migration_tables_present(t: Map<Seq<char>, Set<Seq<char>>>) -> bool {
    &&& t.dom().contains("providers"@)
    &&& t.dom().contains("provider_endpoints"@)
    &&& t.dom().contains("mcp_servers"@)
    &&& t.dom().contains("prompts"@)
    &&& t.dom().contains("skills"@)
    &&& t.dom().contains("skill_repos"@)
}

/// Migration monotonicity, column half: after migrating a version-0
/// store, every column this release expects is present.
#[verifier::rlimit(100)]
pub proof fn lemma_migrated_has_expected(t: Map<Seq<char>, Set<Seq<char>>>)
    requires
        migration_tables_present(t),
    ensures
        migrated_tables(t)["providers"@].contains("meta"@),
        migrated_tables(t)["providers"@].contains("is_current"@),
        migrated_tables(t)["provider_endpoints"@].contains("added_at"@),
        migrated_tables(t)["mcp_servers"@].contains("enabled_codex"@),
        migrated_tables(t)["mcp_servers"@].contains("enabled_gemini"@),
        migrated_tables(t)["mcp_servers"@].contains("tags"@),
        migrated_tables(t)["prompts"@].contains("enabled"@),
        migrated_tables(t)["prompts"@].contains("updated_at"@),
        migrated_tables(t)["skills"@].contains("installed_at"@),
        migrated_tables(t)["skill_repos"@].contains("branch"@),
        migrated_tables(t)["skill_repos"@].contains("enabled"@),
        migrated_tables(t)["skill_repos"@].contains("skills_path"@),
{
    distinct_table_names();
}

/// The six migrated table names are pairwise distinct.
proof fn distinct_table_names()
    ensures
        "providers"@ != "provider_endpoints"@,
        "providers"@ != "mcp_servers"@,
        "providers"@ != "prompts"@,
        "providers"@ != "skills"@,
        "providers"@ != "skill_repos"@,
        "provider_endpoints"@ != "mcp_servers"@,
        "provider_endpoints"@ != "prompts"@,
        "provider_endpoints"@ != "skills"@,
        "provider_endpoints"@ != "skill_repos"@,
        "mcp_servers"@ != "prompts"@,
        "mcp_servers"@ != "skills"@,
        "mcp_servers"@ != "skill_repos"@,
        "prompts"@ != "skills"@,
        "prompts"@ != "skill_repos"@,
        "skills"@ != "skill_repos"@,
{
    reveal_strlit("providers");
    reveal_strlit("provider_endpoints");
    reveal_strlit("mcp_servers");
    reveal_strlit("prompts");
    reveal_strlit("skills");
    reveal_strlit("skill_repos");
    assert("providers"@.len() == 9);
    assert("provider_endpoints"@.len() == 18);
    assert("mcp_servers"@.len() == 11);
    assert("prompts"@.len() == 7);
    assert("skills"@.len() == 6);
    assert("skill_repos"@.len() == 11);
    assert("mcp_servers"@[0] == 'm');
    assert("skill_repos"@[0] == 's');
}

/// Run the migration engine: refuse a store written by a newer
/// release, bring an older store up to the current version inside one
/// savepoint, and leave a current store as it is. On the
/// newer-store path nothing has been written, so the store is
/// untouched whatever else happens.
#[verifier::rlimit(60)]
pub fn apply_schema_migrations_on_conn(c: &mut rusqlite::Connection) -> (r: Result<(), AppError>)
    ensures
        ({
            let m0 = db_model(*old(c));
            match r {
                Ok(_) => {
                    ||| (m0.version == SCHEMA_VERSION && db_model(*final(c)) == m0)
                    ||| (m0.version == 0 && migration_tables_present(m0.tables) && db_model(
                        *final(c),
                    ) == (DbModel {
                        version: SCHEMA_VERSION as int,
                        tables: migrated_tables(m0.tables),
                        ..m0
                    }))
                },
                Err(e) => {
                    &&& e is Schema || e is Database
                    &&& (e is Schema ==> m0.version > SCHEMA_VERSION || m0.version < 0)
                    &&& (m0.version > SCHEMA_VERSION || m0.version < 0 ==> db_model(*final(c))
                        == m0)
                    &&& (db_model(*final(c)) == m0 || (sp_active(*final(c)) && db_saved(*final(c))
                        == m0))
                },
            }
        }),
{
    let ghost m0 = db_model(*c);
    if let Err(m) = begin_schema_savepoint(c) {
        return Err(AppError::Database(m));
    }
    let version = match get_user_version(c) {
        Ok(v) => v,
        Err(m) => {
            let _ = release_schema_savepoint(c);
            return Err(AppError::Database(m));
        },
    };
    if version > SCHEMA_VERSION {
        let _ = release_schema_savepoint(c);
        return Err(
            AppError::Schema(
                "store version too new: written by a newer release; refusing to operate on it".to_owned(),
            ),
        );
    }
    if version == SCHEMA_VERSION {
        let _ = release_schema_savepoint(c);
        return Ok(());
    }
    if version < 0 {
        let _ = release_schema_savepoint(c);
        return Err(AppError::Schema("unknown schema version; cannot migrate".to_owned()));
    }
    // version == 0: one additive step brings the store to version 1.
    let step = migrate_v0_to_v1(c);
    match step {
        Ok(_) => {},
        Err(e) => {
            match rollback_schema_savepoint(c) {
                Ok(_) => {
                    let _ = release_schema_savepoint(c);
                    return Err(e);
                },
                Err(_) => {
                    return Err(
                        AppError::Database(
                            "migration failed and the rollback failed too".to_owned(),
                        ),
                    );
                },
            }
        },
    }
    match set_user_version(c, SCHEMA_VERSION) {
        Ok(_) => {},
        Err(m) => {
            match rollback_schema_savepoint(c) {
                Ok(_) => {
                    let _ = release_schema_savepoint(c);
                    return Err(AppError::Database(m));
                },
                Err(_) => {
                    return Err(
                        AppError::Database(
                            "migration failed and the rollback failed too".to_owned(),
                        ),
                    );
                },
            }
        },
    }
    match release_schema_savepoint(c) {
        Ok(_) => Ok(()),
        Err(m) => Err(AppError::Database(m)),
    }
}

/// The migrated names are already lowercase, hence their own
/// lowercase forms.
#[verifier::rlimit(100)]
proof fn lower_fixed_tables()
    ensures
        strutil::lower_spec("providers"@) == "providers"@,
        strutil::lower_spec("provider_endpoints"@) == "provider_endpoints"@,
        strutil::lower_spec("mcp_servers"@) == "mcp_servers"@,
        strutil::lower_spec("prompts"@) == "prompts"@,
        strutil::lower_spec("skills"@) == "skills"@,
        strutil::lower_spec("skill_repos"@) == "skill_repos"@,
{
    reveal_strlit("providers");
    assert("providers"@.len() == 9);
    assert(is_lower_sql_ident("providers"@));
    lemma_lower_fixed("providers"@);
    reveal_strlit("provider_endpoints");
    assert("provider_endpoints"@.len() == 18);
    assert(is_lower_sql_ident("provider_endpoints"@));
    lemma_lower_fixed("provider_endpoints"@);
    reveal_strlit("mcp_servers");
    assert("mcp_servers"@.len() == 11);
    assert(is_lower_sql_ident("mcp_servers"@));
    lemma_lower_fixed("mcp_servers"@);
    reveal_strlit("prompts");
    assert("prompts"@.len() == 7);
    assert(is_lower_sql_ident("prompts"@));
    lemma_lower_fixed("prompts"@);
    reveal_strlit("skills");
    assert("skills"@.len() == 6);
    assert(is_lower_sql_ident("skills"@));
    lemma_lower_fixed("skills"@);
    reveal_strlit("skill_repos");
    assert("skill_repos"@.len() == 11);
    assert(is_lower_sql_ident("skill_repos"@));
    lemma_lower_fixed("skill_repos"@);
}

#[verifier::rlimit(100)]
proof fn lower_fixed_cols_a()
    ensures
        strutil::lower_spec("category"@) == "category"@,
        strutil::lower_spec("created_at"@) == "created_at"@,
        strutil::lower_spec("sort_index"@) == "sort_index"@,
        strutil::lower_spec("notes"@) == "notes"@,
        strutil::lower_spec("icon"@) == "icon"@,
        strutil::lower_spec("icon_color"@) == "icon_color"@,
        strutil::lower_spec("meta"@) == "meta"@,
        strutil::lower_spec("is_current"@) == "is_current"@,
        strutil::lower_spec("added_at"@) == "added_at"@,
        strutil::lower_spec("description"@) == "description"@,
{
    reveal_strlit("category");
    assert("category"@.len() == 8);
    assert(is_lower_sql_ident("category"@));
    lemma_lower_fixed("category"@);
    reveal_strlit("created_at");
    assert("created_at"@.len() == 10);
    assert(is_lower_sql_ident("created_at"@));
    lemma_lower_fixed("created_at"@);
    reveal_strlit("sort_index");
    assert("sort_index"@.len() == 10);
    assert(is_lower_sql_ident("sort_index"@));
    lemma_lower_fixed("sort_index"@);
    reveal_strlit("notes");
    assert("notes"@.len() == 5);
    assert(is_lower_sql_ident("notes"@));
    lemma_lower_fixed("notes"@);
    reveal_strlit("icon");
    assert("icon"@.len() == 4);
    assert(is_lower_sql_ident("icon"@));
    lemma_lower_fixed("icon"@);
    reveal_strlit("icon_color");
    assert("icon_color"@.len() == 10);
    assert(is_lower_sql_ident("icon_color"@));
    lemma_lower_fixed("icon_color"@);
    reveal_strlit("meta");
    assert("meta"@.len() == 4);
    assert(is_lower_sql_ident("meta"@));
    lemma_lower_fixed("meta"@);
    reveal_strlit("is_current");
    assert("is_current"@.len() == 10);
    assert(is_lower_sql_ident("is_current"@));
    lemma_lower_fixed("is_current"@);
    reveal_strlit("added_at");
    assert("added_at"@.len() == 8);
    assert(is_lower_sql_ident("added_at"@));
    lemma_lower_fixed("added_at"@);
    reveal_strlit("description");
    assert("description"@.len() == 11);
    assert(is_lower_sql_ident("description"@));
    lemma_lower_fixed("description"@);
}

#[verifier::rlimit(100)]
proof fn lower_fixed_cols_b()
    ensures
        strutil::lower_spec("homepage"@) == "homepage"@,
        strutil::lower_spec("docs"@) == "docs"@,
        strutil::lower_spec("tags"@) == "tags"@,
        strutil::lower_spec("enabled_codex"@) == "enabled_codex"@,
        strutil::lower_spec("enabled_gemini"@) == "enabled_gemini"@,
        strutil::lower_spec("enabled"@) == "enabled"@,
        strutil::lower_spec("updated_at"@) == "updated_at"@,
        strutil::lower_spec("installed_at"@) == "installed_at"@,
        strutil::lower_spec("branch"@) == "branch"@,
        strutil::lower_spec("skills_path"@) == "skills_path"@,
{
    reveal_strlit("homepage");
    assert("homepage"@.len() == 8);
    assert(is_lower_sql_ident("homepage"@));
    lemma_lower_fixed("homepage"@);
    reveal_strlit("docs");
    assert("docs"@.len() == 4);
    assert(is_lower_sql_ident("docs"@));
    lemma_lower_fixed("docs"@);
    reveal_strlit("tags");
    assert("tags"@.len() == 4);
    assert(is_lower_sql_ident("tags"@));
    lemma_lower_fixed("tags"@);
    reveal_strlit("enabled_codex");
    assert("enabled_codex"@.len() == 13);
    assert(is_lower_sql_ident("enabled_codex"@));
    lemma_lower_fixed("enabled_codex"@);
    reveal_strlit("enabled_gemini");
    assert("enabled_gemini"@.len() == 14);
    assert(is_lower_sql_ident("enabled_gemini"@));
    lemma_lower_fixed("enabled_gemini"@);
    reveal_strlit("enabled");
    assert("enabled"@.len() == 7);
    assert(is_lower_sql_ident("enabled"@));
    lemma_lower_fixed("enabled"@);
    reveal_strlit("updated_at");
    assert("updated_at"@.len() == 10);
    assert(is_lower_sql_ident("updated_at"@));
    lemma_lower_fixed("updated_at"@);
    reveal_strlit("installed_at");
    assert("installed_at"@.len() == 12);
    assert(is_lower_sql_ident("installed_at"@));
    lemma_lower_fixed("installed_at"@);
    reveal_strlit("branch");
    assert("branch"@.len() == 6);
    assert(is_lower_sql_ident("branch"@));
    lemma_lower_fixed("branch"@);
    reveal_strlit("skills_path");
    assert("skills_path"@.len() == 11);
    assert(is_lower_sql_ident("skills_path"@));
    lemma_lower_fixed("skills_path"@);
}

/// The one migration step: add every column this release expects and
/// an older schema may lack.
#[verifier::rlimit(100)]
fn migrate_v0_to_v1(c: &mut rusqlite::Connection) -> (r: Result<(), AppError>)
    ensures
        ({
            let m0 = db_model(*old(c));
            match r {
                Ok(_) => {
                    &&& migration_tables_present(m0.tables)
                    &&& db_model(*final(c)) == (DbModel { tables: migrated_tables(m0.tables), ..m0 })
                    &&& db_saved(*final(c)) == db_saved(*old(c))
                    &&& sp_active(*final(c)) == sp_active(*old(c))
                },
                Err(e) => e is Database && ((db_saved(*final(c)) == db_saved(*old(c))
                    && sp_active(*final(c)) == sp_active(*old(c))) || (sp_active(*old(c))
                    && db_model(*final(c)) == db_saved(*old(c)) && !sp_active(*final(c)))),
            }
        }),
{
    let ghost m0 = db_model(*c);
    proof {
        distinct_table_names();
        lower_fixed_tables();
        lower_fixed_cols_a();
        lower_fixed_cols_b();
    }
    if let Err(e) = add_column_if_missing(c, "providers", "category", "TEXT") {
        return Err(e);
    }
    if let Err(e) = add_column_if_missing(c, "providers", "created_at", "INTEGER") {
        return Err(e);
    }
    if let Err(e) = add_column_if_missing(c, "providers", "sort_index", "INTEGER") {
        return Err(e);
    }
    if let Err(e) = add_column_if_missing(c, "providers", "notes", "TEXT") {
        return Err(e);
    }
    if let Err(e) = add_column_if_missing(c, "providers", "icon", "TEXT") {
        return Err(e);
    }
    if let Err(e) = add_column_if_missing(c, "providers", "icon_color", "TEXT") {
        return Err(e);
    }
    if let Err(e) = add_column_if_missing(c, "providers", "meta", "TEXT NOT NULL DEFAULT '{}'") {
        return Err(e);
    }
    if let Err(e) = add_column_if_missing(c, "providers", "is_current", "BOOLEAN NOT NULL DEFAULT 0") {
        return Err(e);
    }
    if let Err(e) = add_column_if_missing(c, "provider_endpoints", "added_at", "INTEGER") {
        return Err(e);
    }
    if let Err(e) = add_column_if_missing(c, "mcp_servers", "description", "TEXT") {
        return Err(e);
    }
    if let Err(e) = add_column_if_missing(c, "mcp_servers", "homepage", "TEXT") {
        return Err(e);
    }
    if let Err(e) = add_column_if_missing(c, "mcp_servers", "docs", "TEXT") {
        return Err(e);
    }
    if let Err(e) = add_column_if_missing(c, "mcp_servers", "tags", "TEXT NOT NULL DEFAULT '[]'") {
        return Err(e);
    }
    if let Err(e) = add_column_if_missing(c, "mcp_servers", "enabled_codex", "BOOLEAN NOT NULL DEFAULT 0") {
        return Err(e);
    }
    if let Err(e) = add_column_if_missing(c, "mcp_servers", "enabled_gemini", "BOOLEAN NOT NULL DEFAULT 0") {
        return Err(e);
    }
    if let Err(e) = add_column_if_missing(c, "prompts", "description", "TEXT") {
        return Err(e);
    }
    if let Err(e) = add_column_if_missing(c, "prompts", "enabled", "BOOLEAN NOT NULL DEFAULT 1") {
        return Err(e);
    }
    if let Err(e) = add_column_if_missing(c, "prompts", "created_at", "INTEGER") {
        return Err(e);
    }
    if let Err(e) = add_column_if_missing(c, "prompts", "updated_at", "INTEGER") {
        return Err(e);
    }
    if let Err(e) = add_column_if_missing(c, "skills", "installed_at", "INTEGER NOT NULL DEFAULT 0") {
        return Err(e);
    }
    if let Err(e) = add_column_if_missing(c, "skill_repos", "branch", "TEXT NOT NULL DEFAULT 'main'") {
        return Err(e);
    }
    if let Err(e) = add_column_if_missing(c, "skill_repos", "enabled", "BOOLEAN NOT NULL DEFAULT 1") {
        return Err(e);
    }
    if let Err(e) = add_column_if_missing(c, "skill_repos", "skills_path", "TEXT") {
        return Err(e);
    }
    proof {
        assert(db_model(*c).tables["providers"@] =~= m0.tables["providers"@] + added_providers());
        assert(db_model(*c).tables["provider_endpoints"@] =~= m0.tables["provider_endpoints"@]
            + added_endpoints());
        assert(db_model(*c).tables["mcp_servers"@] =~= m0.tables["mcp_servers"@] + added_mcp());
        assert(db_model(*c).tables["prompts"@] =~= m0.tables["prompts"@] + added_prompts());
        assert(db_model(*c).tables["skills"@] =~= m0.tables["skills"@] + added_skills());
        assert(db_model(*c).tables["skill_repos"@] =~= m0.tables["skill_repos"@]
            + added_skill_repos());
        assert(db_model(*c).tables =~= migrated_tables(m0.tables));
        assert(db_model(*c) == (DbModel { tables: migrated_tables(m0.tables), ..m0 }));
    }
    Ok(())
}

} // verus!
