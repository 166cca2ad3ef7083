//! The durable SQLite store.
//!
//! The connection is trusted only through the small wrappers below;
//! everything they promise is phrased over `db_model`, an abstraction
//! of the store that covers the schema version, the tables and their
//! columns (column names lower case, as the schema writes them), the
//! `mcp_servers` rows, the `providers` rows and the `settings` rows.
//! A modelled table that does not exist yet reads as empty. Other
//! tables exist but are not modelled; statements touching only them
//! leave `db_model` as it is.

pub mod backup;
pub mod dao;
pub mod schema;

use vstd::prelude::*;

verus! {

/// Model of one `mcp_servers` row (all columns but the id key).
pub struct McpRowV {
    pub name: Seq<char>,
    pub config: Seq<char>,
    pub description: Option<Seq<char>>,
    pub homepage: Option<Seq<char>>,
    pub docs: Option<Seq<char>>,
    pub tags: Seq<char>,
    pub client_a: bool,
    pub codex: bool,
    pub gemini: bool,
}

/// Model of one `providers` row (all columns but the two key columns).
pub struct ProviderRowV {
    pub name: Seq<char>,
    pub settings_config: Seq<char>,
    pub website_url: Option<Seq<char>>,
    pub category: Option<Seq<char>>,
    pub created_at: Option<int>,
    pub sort_index: Option<int>,
    pub notes: Option<Seq<char>>,
    pub icon: Option<Seq<char>>,
    pub icon_color: Option<Seq<char>>,
    pub meta: Seq<char>,
    pub is_current: bool,
}

/// The abstraction of a store this crate reasons about.
pub struct DbModel {
    pub version: int,
    pub tables: Map<Seq<char>, Set<Seq<char>>>,
    pub mcp: Map<Seq<char>, McpRowV>,
    pub providers: Map<(Seq<char>, Seq<char>), ProviderRowV>,
    pub settings: Map<Seq<char>, Seq<char>>,
}

/// What the connection's store currently holds. The `tables` map is
/// keyed by the lowercase form of each stored table name, its column
/// sets likewise: SQLite resolves identifiers ASCII-case-
/// insensitively, so the lowercase form is the one canonical key.
pub uninterp spec fn db_model(c: rusqlite::Connection) -> DbModel;

/// The state remembered by the schema savepoint, when one is active.
pub uninterp spec fn db_saved(c: rusqlite::Connection) -> DbModel;

/// Whether the schema savepoint is active.
pub uninterp spec fn sp_active(c: rusqlite::Connection) -> bool;

#[verifier::external_type_specification]
#[verifier::external_body]
pub struct ExConnection(rusqlite::Connection);

/// The process-wide durable store handle: one open connection,
/// constructed explicitly and passed by reference to every component.
pub struct Database {
    pub conn: rusqlite::Connection,
}

/// An empty, fresh store.
pub open spec fn fresh_model() -> DbModel {
    DbModel {
        version: 0,
        tables: Map::empty(),
        mcp: Map::empty(),
        providers: Map::empty(),
        settings: Map::empty(),
    }
}

/// Relies on rusqlite::Connection::open_in_memory: a fresh empty
/// database with schema version zero and no tables.
#[verifier::external_body]
pub fn open_memory() -> (r: Result<rusqlite::Connection, String>)
    ensures
        match r {
            Ok(c) => db_model(c) == fresh_model() && !sp_active(c),
            Err(_) => true,
        },
{
    rusqlite::Connection::open_in_memory().map_err(|e| e.to_string())
}

/// Relies on rusqlite::Connection::open: opens the file, creating it
/// when absent; a fresh connection is in autocommit mode, so no
/// savepoint is active. Nothing is promised of the content.
#[verifier::external_body]
pub fn open_file(path: &str) -> (r: Result<rusqlite::Connection, String>)
    ensures
        match r {
            Ok(c) => !sp_active(c),
            Err(_) => true,
        },
{
    rusqlite::Connection::open(path).map_err(|e| e.to_string())
}

/// Relies on PRAGMA user_version (rusqlite::Connection::query_row):
/// reads the stored schema version.
#[verifier::external_body]
pub fn get_user_version(c: &rusqlite::Connection) -> (r: Result<i64, String>)
    ensures
        match r {
            Ok(v) => v == db_model(*c).version,
            Err(_) => true,
        },
{
    c.query_row("PRAGMA user_version;", [], |row| row.get::<usize, i64>(0)).map_err(
        |e| e.to_string(),
    )
}

/// Relies on PRAGMA user_version = n (rusqlite::Connection::execute):
/// on success only the stored version changes. On failure either
/// nothing happened, or — SQLite may roll a whole transaction back on
/// a FULL/IOERR/NOMEM-class failure — the store reverted to the
/// savepoint state and no savepoint remains.
#[verifier::external_body]
pub fn set_user_version(c: &mut rusqlite::Connection, v: i64) -> (r: Result<(), String>)
    requires
        0 <= v <= 0x7fffffff,
    ensures
        match r {
            Ok(_) => db_model(*final(c)) == (DbModel { version: v as int, ..db_model(*old(c)) })
                && db_saved(*final(c)) == db_saved(*old(c)) && sp_active(*final(c)) == sp_active(
                *old(c),
            ),
            Err(_) => (db_model(*final(c)) == db_model(*old(c)) && db_saved(*final(c)) == db_saved(
                *old(c),
            ) && sp_active(*final(c)) == sp_active(*old(c))) || (sp_active(*old(c)) && db_model(
                *final(c),
            ) == db_saved(*old(c)) && !sp_active(*final(c))),
        },
{
    let sql = format!("PRAGMA user_version = {};", v);
    match c.execute(&sql, []) {
        Ok(_) => Ok(()),
        Err(e) => Err(e.to_string()),
    }
}

/// Relies on SAVEPOINT (rusqlite::Connection::execute): on success a
/// savepoint named for schema work is active and remembers the
/// current state; the store itself is unchanged. `sp_active` and
/// `db_saved` read the innermost savepoint of this name, which
/// SQLite's name stacking makes the one this call created — so the
/// clauses hold whether or not an older savepoint of the name was
/// already open.
#[verifier::external_body]
pub fn begin_schema_savepoint(c: &mut rusqlite::Connection) -> (r: Result<(), String>)
    ensures
        match r {
            Ok(_) => db_model(*final(c)) == db_model(*old(c)) && db_saved(*final(c)) == db_model(
                *old(c),
            ) && sp_active(*final(c)),
            Err(_) => db_model(*final(c)) == db_model(*old(c)) && db_saved(*final(c)) == db_saved(
                *old(c),
            ) && sp_active(*final(c)) == sp_active(*old(c)),
        },
{
    c.execute("SAVEPOINT schema_migration;", []).map(|_| ()).map_err(|e| e.to_string())
}

/// Relies on ROLLBACK TO: on success the savepoint existed, the store
/// is back at its remembered state and the savepoint stays active. On
/// failure either nothing happened (including the no-such-savepoint
/// case), or an automatic transaction rollback already restored the
/// remembered state and released the savepoint.
#[verifier::external_body]
pub fn rollback_schema_savepoint(c: &mut rusqlite::Connection) -> (r: Result<(), String>)
    ensures
        match r {
            Ok(_) => sp_active(*old(c)) && db_model(*final(c)) == db_saved(*old(c)) && db_saved(
                *final(c),
            ) == db_saved(*old(c)) && sp_active(*final(c)),
            Err(_) => (db_model(*final(c)) == db_model(*old(c)) && db_saved(*final(c)) == db_saved(
                *old(c),
            ) && sp_active(*final(c)) == sp_active(*old(c))) || (sp_active(*old(c)) && db_model(
                *final(c),
            ) == db_saved(*old(c)) && !sp_active(*final(c))),
        },
{
    c.execute("ROLLBACK TO schema_migration;", []).map(|_| ()).map_err(|e| e.to_string())
}

/// Relies on RELEASE: on success a savepoint of this name existed
/// and the store keeps its current state. Savepoint names stack, and
/// RELEASE removes only the innermost of the name, so nothing is
/// claimed of the savepoint state afterwards; `db_saved` then reads
/// whatever enclosing savepoint remains, so it is not framed either.
/// On failure either nothing happened, or an automatic transaction
/// rollback restored the remembered state and released the savepoint.
#[verifier::external_body]
pub fn release_schema_savepoint(c: &mut rusqlite::Connection) -> (r: Result<(), String>)
    ensures
        match r {
            Ok(_) => sp_active(*old(c)) && db_model(*final(c)) == db_model(*old(c)),
            Err(_) => (db_model(*final(c)) == db_model(*old(c)) && db_saved(*final(c)) == db_saved(
                *old(c),
            ) && sp_active(*final(c)) == sp_active(*old(c))) || (sp_active(*old(c)) && db_model(
                *final(c),
            ) == db_saved(*old(c)) && !sp_active(*final(c))),
        },
{
    c.execute("RELEASE schema_migration;", []).map(|_| ()).map_err(|e| e.to_string())
}

/// The store a SQL batch builds when executed cleanly on a fresh
/// empty store — for batches whose statements are deterministic
/// (literal DDL and INSERTs, as this crate's own dumps are); a batch
/// that uses non-deterministic SQL functions is outside the name
/// (`None`), and nothing is claimed of it.
pub uninterp spec fn batch_model_of(sql: Seq<char>) -> Option<DbModel>;

/// Relies on rusqlite::Connection::execute_batch: runs SQL text; on a
/// fresh store, a clean run of a deterministic batch builds exactly
/// the batch's store.
#[verifier::external_body]
pub fn execute_batch_sql(c: &mut rusqlite::Connection, sql: &str) -> (r: Result<(), String>)
    ensures
        match r {
            Ok(_) => db_model(*old(c)) == fresh_model() ==> match batch_model_of(sql@) {
                Some(m) => db_model(*final(c)) == m,
                None => true,
            },
            Err(_) => true,
        },
{
    c.execute_batch(sql).map_err(|e| e.to_string())
}

/// Relies on rusqlite::backup::Backup: only a step that reports Done
/// counts as success, and then the destination is an exact copy of
/// the source. A Busy or Locked step is an error here; dropping the
/// unfinished backup rolls the partial destination transaction back,
/// so on every failure the destination keeps its old content.
#[verifier::external_body]
pub fn backup_into(src: &rusqlite::Connection, dst: &mut rusqlite::Connection) -> (r: Result<
    (),
    String,
>)
    ensures
        match r {
            Ok(_) => db_model(*final(dst)) == db_model(*src) && !sp_active(*final(dst)),
            Err(_) => db_model(*final(dst)) == db_model(*old(dst)),
        },
{
    let b = rusqlite::backup::Backup::new(src, dst).map_err(|e| e.to_string())?;
    match b.step(-1) {
        Ok(rusqlite::backup::StepResult::Done) => Ok(()),
        Ok(_) => Err("backup did not complete: the store is busy or locked".to_owned()),
        Err(e) => Err(e.to_string()),
    }
}


impl Database {
    /// Open (or create) the store at the given path, create any
    /// missing tables and run the migration engine.
    pub fn init(path: &str) -> (r: Result<Database, crate::errors::AppError>)
        ensures
            match r {
                Ok(db) => db_model(db.conn).version == schema::SCHEMA_VERSION || db_model(
                    db.conn,
                ).version == 0 && !schema::migration_tables_present(db_model(db.conn).tables),
                Err(e) => e is Database || e is Schema,
            },
    {
        let conn = match open_file(path) {
            Ok(c) => c,
            Err(m) => {
                return Err(crate::errors::AppError::Database(m));
            },
        };
        let mut db = Database { conn };
        if let Err(m) = schema::create_tables_on_conn(&mut db.conn) {
            return Err(crate::errors::AppError::Database(m));
        }
        match schema::apply_schema_migrations_on_conn(&mut db.conn) {
            Ok(_) => Ok(db),
            Err(e) => Err(e),
        }
    }

    /// A fresh in-memory store with the current schema.
    pub fn memory() -> (r: Result<Database, crate::errors::AppError>)
        ensures
            match r {
                Ok(db) => {
                    &&& db_model(db.conn).version == schema::SCHEMA_VERSION
                    &&& db_model(db.conn).mcp =~= Map::empty()
                    &&& db_model(db.conn).providers =~= Map::empty()
                    &&& db_model(db.conn).settings =~= Map::empty()
                },
                Err(e) => e is Database || e is Schema,
            },
    {
        let conn = match open_memory() {
            Ok(c) => c,
            Err(m) => {
                return Err(crate::errors::AppError::Database(m));
            },
        };
        let mut db = Database { conn };
        if let Err(m) = schema::create_tables_on_conn(&mut db.conn) {
            return Err(crate::errors::AppError::Database(m));
        }
        match schema::apply_schema_migrations_on_conn(&mut db.conn) {
            Ok(_) => {},
            Err(e) => {
                return Err(e);
            },
        }
        proof {
            assert(schema::migration_tables_present(schema::created_defaults(Map::empty())));
            assert(Map::empty().union_prefer_right(schema::created_defaults(Map::empty()))
                =~= schema::created_defaults(Map::empty()));
        }
        Ok(db)
    }
}

} // verus!
