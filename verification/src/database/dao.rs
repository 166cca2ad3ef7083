//! Row access for the modelled tables.

use vstd::prelude::*;

use super::{db_model, db_saved, sp_active, Database, DbModel, McpRowV, ProviderRowV};
use crate::app_config::{McpApps, McpServer};
use crate::errors::AppError;
use crate::jsonio;
use crate::model::{jview, JsonVal, JVal};
use crate::store::CanonicalStore;

verus! {

/// One `mcp_servers` row as plain values.
pub struct McpRow {
    pub id: String,
    pub name: String,
    pub config: String,
    pub description: Option<String>,
    pub homepage: Option<String>,
    pub docs: Option<String>,
    pub tags: String,
    pub client_a: bool,
    pub codex: bool,
    pub gemini: bool,
}

impl McpRow {
    pub open spec fn row_view(self) -> McpRowV {
        McpRowV {
            name: self.name@,
            config: self.config@,
            description: crate::app_config::opt_view(self.description),
            homepage: crate::app_config::opt_view(self.homepage),
            docs: crate::app_config::opt_view(self.docs),
            tags: self.tags@,
            client_a: self.client_a,
            codex: self.codex,
            gemini: self.gemini,
        }
    }
}

/// One `providers` row as plain values.
pub struct ProviderRow {
    pub id: String,
    pub app_type: String,
    pub name: String,
    pub settings_config: String,
    pub website_url: Option<String>,
    pub category: Option<String>,
    pub created_at: Option<i64>,
    pub sort_index: Option<i64>,
    pub notes: Option<String>,
    pub icon: Option<String>,
    pub icon_color: Option<String>,
    pub meta: String,
    pub is_current: bool,
}

pub open spec fn opt_int_view(o: Option<i64>) -> Option<int> {
    match o {
        Some(v) => Some(v as int),
        None => None,
    }
}

/// A sort position as the integer column stores it; one beyond the
/// column's range is dropped.
pub open spec fn sort_index_stored(o: Option<u64>) -> Option<int> {
    match o {
        Some(n) => if n <= i64::MAX as u64 {
            Some(n as int)
        } else {
            None
        },
        None => None,
    }
}

impl ProviderRow {
    pub open spec fn row_view(self) -> ProviderRowV {
        ProviderRowV {
            name: self.name@,
            settings_config: self.settings_config@,
            website_url: crate::app_config::opt_view(self.website_url),
            category: crate::app_config::opt_view(self.category),
            created_at: opt_int_view(self.created_at),
            sort_index: opt_int_view(self.sort_index),
            notes: crate::app_config::opt_view(self.notes),
            icon: crate::app_config::opt_view(self.icon),
            icon_color: crate::app_config::opt_view(self.icon_color),
            meta: self.meta@,
            is_current: self.is_current,
        }
    }
}

/// Relies on INSERT OR REPLACE with bound parameters
/// (rusqlite::Connection::execute): the row under this id is exactly
/// the given one afterwards; everything else is untouched.
#[verifier::external_body]
pub fn insert_mcp_row(c: &mut rusqlite::Connection, row: &McpRow) -> (r: Result<(), String>)
    ensures
        match r {
            Ok(_) => db_model(*final(c)) == (DbModel {
                mcp: db_model(*old(c)).mcp.insert(row.id@, row.row_view()),
                ..db_model(*old(c))
            }) && db_saved(*final(c)) == db_saved(*old(c)) && sp_active(*final(c)) == sp_active(
                *old(c),
            ),
            Err(_) => true,
        },
{
    c.execute(
        "INSERT OR REPLACE INTO mcp_servers (id, name, server_config, description, homepage, docs, tags, enabled_client_a, enabled_codex, enabled_gemini) VALUES (?1, ?2, ?3, ?4, ?5, ?6, ?7, ?8, ?9, ?10)",
        (&row.id, &row.name, &row.config, &row.description, &row.homepage, &row.docs, &row.tags,
        &row.client_a, &row.codex, &row.gemini),
    ).map(|_| ()).map_err(|e| e.to_string())
}

/// Relies on DELETE with a bound parameter: the row under this id is
/// gone afterwards; everything else is untouched.
#[verifier::external_body]
pub fn delete_mcp_row(c: &mut rusqlite::Connection, id: &str) -> (r: Result<(), String>)
    ensures
        match r {
            Ok(_) => db_model(*final(c)) == (DbModel {
                mcp: db_model(*old(c)).mcp.remove(id@),
                ..db_model(*old(c))
            }) && db_saved(*final(c)) == db_saved(*old(c)) && sp_active(*final(c)) == sp_active(
                *old(c),
            ),
            Err(_) => true,
        },
{
    c.execute("DELETE FROM mcp_servers WHERE id = ?1", (id,)).map(|_| ()).map_err(
        |e| e.to_string(),
    )
}

#[verifier::external_type_specification]
#[verifier::external_body]
pub struct ExRusqliteRow<'a>(rusqlite::Row<'a>);

#[verifier::external_type_specification]
#[verifier::external_body]
pub struct ExRusqliteError(rusqlite::Error);

/// Reads one mcp_servers row into plain values, column by column.
#[verifier::external_body]
fn mcp_row_of(row: &rusqlite::Row<'_>) -> Result<McpRow, rusqlite::Error> {
    Ok(McpRow {
        id: row.get(0)?, name: row.get(1)?, config: row.get(2)?,
        description: row.get(3)?, homepage: row.get(4)?, docs: row.get(5)?,
        tags: row.get(6)?, client_a: row.get(7)?, codex: row.get(8)?, gemini: row.get(9)?,
    })
}

/// Reads one providers row into plain values, column by column.
#[verifier::external_body]
fn provider_row_of(row: &rusqlite::Row<'_>) -> Result<ProviderRow, rusqlite::Error> {
    Ok(ProviderRow {
        id: row.get(0)?, app_type: row.get(1)?, name: row.get(2)?,
        settings_config: row.get(3)?, website_url: row.get(4)?, category: row.get(5)?,
        created_at: row.get(6)?, sort_index: row.get(7)?, notes: row.get(8)?,
        icon: row.get(9)?, icon_color: row.get(10)?, meta: row.get(11)?,
        is_current: row.get(12)?,
    })
}

/// Relies on a SELECT over mcp_servers ordered by name then id: every
/// stored row appears exactly once, with its stored values.
#[verifier::external_body]
pub fn select_all_mcp(c: &rusqlite::Connection) -> (r: Result<Vec<McpRow>, String>)
    ensures
        match r {
            Ok(rows) => {
                &&& forall|i: int, j: int|
                    0 <= i < j < rows@.len() ==> (#[trigger] rows@[i]).id@ != (
                    #[trigger] rows@[j]).id@
                &&& forall|i: int|
                    0 <= i < rows@.len() ==> db_model(*c).mcp.dom().contains(
                        (#[trigger] rows@[i]).id@,
                    ) && db_model(*c).mcp[rows@[i].id@] == rows@[i].row_view()
                &&& forall|id: Seq<char>|
                    db_model(*c).mcp.dom().contains(id) ==> exists|i: int|
                        0 <= i < rows@.len() && (#[trigger] rows@[i]).id@ == id
            },
            Err(_) => true,
        },
{
    let mut stmt = c.prepare("SELECT id, name, server_config, description, homepage, docs, tags, enabled_client_a, enabled_codex, enabled_gemini FROM mcp_servers ORDER BY name ASC, id ASC").map_err(|e| e.to_string())?;
    let mut rows = stmt.query([]).map_err(|e| e.to_string())?;
    let mut out = Vec::new();
    while let Some(row) = rows.next().map_err(|e| e.to_string())? {
        out.push(mcp_row_of(row).map_err(|e| e.to_string())?);
    }
    Ok(out)
}

/// Relies on INSERT OR REPLACE with bound parameters on providers.
#[verifier::external_body]
pub fn insert_provider_row(c: &mut rusqlite::Connection, row: &ProviderRow) -> (r: Result<
    (),
    String,
>)
    ensures
        match r {
            Ok(_) => db_model(*final(c)) == (DbModel {
                providers: db_model(*old(c)).providers.insert(
                    (row.id@, row.app_type@),
                    row.row_view(),
                ),
                ..db_model(*old(c))
            }) && db_saved(*final(c)) == db_saved(*old(c)) && sp_active(*final(c)) == sp_active(
                *old(c),
            ),
            Err(_) => true,
        },
{
    c.execute(
        "INSERT OR REPLACE INTO providers (id, app_type, name, settings_config, website_url, category, created_at, sort_index, notes, icon, icon_color, meta, is_current) VALUES (?1, ?2, ?3, ?4, ?5, ?6, ?7, ?8, ?9, ?10, ?11, ?12, ?13)",
        (&row.id, &row.app_type, &row.name, &row.settings_config, &row.website_url,
        &row.category, &row.created_at, &row.sort_index, &row.notes, &row.icon, &row.icon_color,
        &row.meta, &row.is_current),
    ).map(|_| ()).map_err(|e| e.to_string())
}

/// Relies on a SELECT over providers: every stored row appears
/// exactly once, with its stored values.
#[verifier::external_body]
pub fn select_all_providers(c: &rusqlite::Connection) -> (r: Result<Vec<ProviderRow>, String>)
    ensures
        match r {
            Ok(rows) => {
                &&& forall|i: int, j: int|
                    0 <= i < j < rows@.len() ==> ((#[trigger] rows@[i]).id@, rows@[i].app_type@)
                        != ((#[trigger] rows@[j]).id@, rows@[j].app_type@)
                &&& forall|i: int|
                    0 <= i < rows@.len() ==> db_model(*c).providers.dom().contains(
                        ((#[trigger] rows@[i]).id@, rows@[i].app_type@),
                    ) && db_model(*c).providers[(rows@[i].id@, rows@[i].app_type@)]
                        == rows@[i].row_view()
                &&& forall|k: (Seq<char>, Seq<char>)|
                    db_model(*c).providers.dom().contains(k) ==> exists|i: int|
                        0 <= i < rows@.len() && ((#[trigger] rows@[i]).id@, rows@[i].app_type@)
                            == k
            },
            Err(_) => true,
        },
{
    let mut stmt = c.prepare("SELECT id, app_type, name, settings_config, website_url, category, created_at, sort_index, notes, icon, icon_color, meta, is_current FROM providers ORDER BY app_type ASC, id ASC").map_err(|e| e.to_string())?;
    let mut rows = stmt.query([]).map_err(|e| e.to_string())?;
    let mut out = Vec::new();
    while let Some(row) = rows.next().map_err(|e| e.to_string())? {
        out.push(provider_row_of(row).map_err(|e| e.to_string())?);
    }
    Ok(out)
}

/// Relies on SELECT COUNT(*) over providers: zero exactly when the
/// table has no rows.
#[verifier::external_body]
pub fn count_providers(c: &rusqlite::Connection) -> (r: Result<i64, String>)
    ensures
        match r {
            Ok(n) => n >= 0 && ((n == 0) <==> db_model(*c).providers.dom() =~= Set::empty()),
            Err(_) => true,
        },
{
    c.query_row("SELECT COUNT(*) FROM providers", [], |row| row.get(0)).map_err(|e| e.to_string())
}

/// Relies on SELECT COUNT(*) over mcp_servers: zero exactly when the
/// table has no rows.
#[verifier::external_body]
pub fn count_mcp(c: &rusqlite::Connection) -> (r: Result<i64, String>)
    ensures
        match r {
            Ok(n) => n >= 0 && ((n == 0) <==> db_model(*c).mcp.dom() =~= Set::empty()),
            Err(_) => true,
        },
{
    c.query_row("SELECT COUNT(*) FROM mcp_servers", [], |row| row.get(0)).map_err(|e| e.to_string())
}

/// Relies on INSERT OR REPLACE into settings.
#[verifier::external_body]
pub fn set_setting_row(c: &mut rusqlite::Connection, key: &str, value: &str) -> (r: Result<
    (),
    String,
>)
    ensures
        match r {
            Ok(_) => db_model(*final(c)) == (DbModel {
                settings: db_model(*old(c)).settings.insert(key@, value@),
                ..db_model(*old(c))
            }) && db_saved(*final(c)) == db_saved(*old(c)) && sp_active(*final(c)) == sp_active(
                *old(c),
            ),
            Err(_) => true,
        },
{
    c.execute(
        "INSERT OR REPLACE INTO settings (key, value) VALUES (?1, ?2)",
        (key, value),
    ).map(|_| ()).map_err(|e| e.to_string())
}

/// Relies on a SELECT over settings with a bound key.
#[verifier::external_body]
pub fn get_setting_row(c: &rusqlite::Connection, key: &str) -> (r: Result<Option<String>, String>)
    ensures
        match r {
            Ok(v) => match v {
                Some(s) => db_model(*c).settings.dom().contains(key@) && db_model(
                    *c,
                ).settings[key@] == s@,
                None => !db_model(*c).settings.dom().contains(key@),
            },
            Err(_) => true,
        },
{
    let mut stmt = c.prepare("SELECT value FROM settings WHERE key = ?1").map_err(
        |e| e.to_string(),
    )?;
    let mut rows = stmt.query((key,)).map_err(|e| e.to_string())?;
    match rows.next().map_err(|e| e.to_string())? {
        Some(row) => Ok(Some(row.get(0).map_err(|e| e.to_string())?)),
        None => Ok(None),
    }
}

/// Relies on a SELECT over settings: every stored row once.
#[verifier::external_body]
pub fn select_all_settings(c: &rusqlite::Connection) -> (r: Result<Vec<(String, String)>, String>)
    ensures
        match r {
            Ok(rows) => {
                &&& forall|i: int, j: int|
                    0 <= i < j < rows@.len() ==> (#[trigger] rows@[i]).0@ != (
                    #[trigger] rows@[j]).0@
                &&& forall|i: int|
                    0 <= i < rows@.len() ==> db_model(*c).settings.dom().contains(
                        (#[trigger] rows@[i]).0@,
                    ) && db_model(*c).settings[rows@[i].0@] == rows@[i].1@
                &&& forall|k: Seq<char>|
                    db_model(*c).settings.dom().contains(k) ==> exists|i: int|
                        0 <= i < rows@.len() && (#[trigger] rows@[i]).0@ == k
            },
            Err(_) => true,
        },
{
    let mut stmt = c.prepare("SELECT key, value FROM settings ORDER BY key ASC").map_err(
        |e| e.to_string(),
    )?;
    let iter = stmt.query_map([], |row| {
        Ok((row.get::<usize, String>(0)?, row.get::<usize, Option<String>>(1)?.unwrap_or_default()))
    }).map_err(|e| e.to_string())?;
    let mut out = Vec::new();
    for item in iter {
        out.push(item.map_err(|e| e.to_string())?);
    }
    Ok(out)
}

/// The record one stored row reads back as: the definition and the
/// tags re-read from their JSON texts, a null definition where the
/// text does not parse, and only string tags kept.
pub open spec fn record_of_row(id: Seq<char>, row: McpRowV) -> crate::app_config::ServerView {
    crate::app_config::ServerView {
        id: id,
        name: row.name,
        server: match jsonio::json_doc_of(row.config) {
            Some(v) => v,
            None => JVal::Null,
        },
        apps: McpApps { client_a: row.client_a, codex: row.codex, gemini: row.gemini },
        description: row.description,
        homepage: row.homepage,
        docs: row.docs,
        tags: match jsonio::json_doc_of(row.tags) {
            Some(JVal::Arr(a)) => crate::app_config::tag_strs(a),
            _ => Seq::empty(),
        },
    }
}

/// The row written for one canonical record: the definition and the
/// tags as their JSON texts, the flags as the three columns.
pub open spec fn row_of_server(s: crate::app_config::ServerView) -> McpRowV {
    McpRowV {
        name: s.name,
        config: jsonio::json_compact_of(s.server),
        description: s.description,
        homepage: s.homepage,
        docs: s.docs,
        tags: jsonio::json_compact_of(JVal::Arr(tag_vals(s.tags))),
        client_a: s.apps.client_a,
        codex: s.apps.codex,
        gemini: s.apps.gemini,
    }
}

pub open spec fn tag_vals(tags: Seq<Seq<char>>) -> Seq<JVal> {
    Seq::new(tags.len(), |i: int| JVal::Str(tags[i]))
}

impl Database {
    /// Persist one canonical record as its `mcp_servers` row.
    pub fn save_mcp_server(&mut self, server: &McpServer) -> (r: Result<(), AppError>)
        ensures
            match r {
                Ok(_) => db_model(final(self).conn) == (DbModel {
                    mcp: db_model(old(self).conn).mcp.insert(server@.id, row_of_server(server@)),
                    ..db_model(old(self).conn)
                }),
                Err(e) => e is Database,
            },
    {
        let config_text = jsonio::render_json_compact(&server.server);
        let mut tag_items: Vec<JsonVal> = Vec::new();
        let mut i: usize = 0;
        while i < server.tags.len()
            invariant
                i <= server.tags@.len(),
                tag_items@.len() == i,
                forall|j: int|
                    0 <= j < i ==> crate::model::jview(#[trigger] tag_items@[j]) == JVal::Str(
                        server.tags@[j]@,
                    ),
            decreases server.tags@.len() - i,
        {
            tag_items.push(JsonVal::Str(server.tags[i].clone()));
            i = i + 1;
        }
        proof {
            crate::model::lemma_arr_elems(tag_items);
            assert(crate::model::aview(tag_items@) =~= tag_vals(server@.tags));
        }
        let tags_text = jsonio::render_json_compact(&JsonVal::Arr(tag_items));
        let row = McpRow {
            id: server.id.clone(),
            name: server.name.clone(),
            config: config_text,
            description: clone_opt(&server.description),
            homepage: clone_opt(&server.homepage),
            docs: clone_opt(&server.docs),
            tags: tags_text,
            client_a: server.apps.client_a,
            codex: server.apps.codex,
            gemini: server.apps.gemini,
        };
        proof {
            assert(row.row_view() == row_of_server(server@));
        }
        match insert_mcp_row(&mut self.conn, &row) {
            Ok(_) => Ok(()),
            Err(m) => Err(AppError::Database(m)),
        }
    }

    /// Drop one record's row.
    pub fn delete_mcp_server(&mut self, id: &str) -> (r: Result<(), AppError>)
        ensures
            match r {
                Ok(_) => db_model(final(self).conn) == (DbModel {
                    mcp: db_model(old(self).conn).mcp.remove(id@),
                    ..db_model(old(self).conn)
                }),
                Err(e) => e is Database,
            },
    {
        match delete_mcp_row(&mut self.conn, id) {
            Ok(_) => Ok(()),
            Err(m) => Err(AppError::Database(m)),
        }
    }

    /// Persist every record of the canonical store: afterwards each
    /// record's row is in the store, exactly as rendered.
    pub fn save_store(&mut self, store: &CanonicalStore) -> (r: Result<usize, AppError>)
        requires
            store.wf(),
        ensures
            match r {
                Ok(n) => n == store.servers@.len() && forall|j: int|
                    0 <= j < store.servers@.len() ==> db_model(final(self).conn).mcp.dom().contains(
                        (#[trigger] store.servers@[j])@.id,
                    ) && db_model(final(self).conn).mcp[store.servers@[j]@.id] == row_of_server(
                        store.servers@[j]@,
                    ),
                Err(e) => e is Database,
            },
    {
        let mut i: usize = 0;
        while i < store.servers.len()
            invariant
                store.wf(),
                i <= store.servers@.len(),
                forall|j: int|
                    0 <= j < i ==> db_model(self.conn).mcp.dom().contains(
                        (#[trigger] store.servers@[j])@.id,
                    ) && db_model(self.conn).mcp[store.servers@[j]@.id] == row_of_server(
                        store.servers@[j]@,
                    ),
            decreases store.servers@.len() - i,
        {
            if let Err(e) = self.save_mcp_server(&store.servers[i]) {
                return Err(e);
            }
            i = i + 1;
        }
        Ok(i)
    }

    /// Load the canonical store from the rows: each row's definition
    /// and tags are re-read from their JSON texts; an unreadable
    /// definition is kept as a null definition rather than dropped.
    /// The result mirrors the store's `mcp_servers` table exactly:
    /// each modelled row appears once, and every modelled id appears.
    pub fn get_all_mcp_servers(&self) -> (r: Result<CanonicalStore, AppError>)
        ensures
            match r {
                Ok(s) => {
                    &&& s.wf()
                    &&& forall|j: int|
                        0 <= j < s.servers@.len() ==> db_model(self.conn).mcp.dom().contains(
                            (#[trigger] s.servers@[j])@.id,
                        ) && s.servers@[j]@ == record_of_row(
                            s.servers@[j]@.id,
                            db_model(self.conn).mcp[s.servers@[j]@.id],
                        )
                    &&& forall|id: Seq<char>|
                        db_model(self.conn).mcp.dom().contains(id) ==> s.has(id)
                },
                Err(e) => e is Database,
            },
    {
        let rows = match select_all_mcp(&self.conn) {
            Ok(rows) => rows,
            Err(m) => {
                return Err(AppError::Database(m));
            },
        };
        let ghost m = db_model(self.conn).mcp;
        let mut servers: Vec<McpServer> = Vec::new();
        let mut i: usize = 0;
        while i < rows.len()
            invariant
                i <= rows@.len(),
                servers@.len() == i,
                m == db_model(self.conn).mcp,
                forall|a: int, b: int|
                    0 <= a < b < rows@.len() ==> (#[trigger] rows@[a]).id@ != (
                    #[trigger] rows@[b]).id@,
                forall|j: int|
                    0 <= j < rows@.len() ==> m.dom().contains((#[trigger] rows@[j]).id@)
                        && m[rows@[j].id@] == rows@[j].row_view(),
                forall|id: Seq<char>|
                    m.dom().contains(id) ==> exists|j: int|
                        0 <= j < rows@.len() && (#[trigger] rows@[j]).id@ == id,
                forall|j: int|
                    0 <= j < i ==> (#[trigger] servers@[j])@.id == rows@[j].id@ && servers@[j]@
                        == record_of_row(rows@[j].id@, rows@[j].row_view()),
            decreases rows@.len() - i,
        {
            let row = &rows[i];
            let server_val = match jsonio::parse_json(row.config.as_str()) {
                Ok(v) => v,
                Err(_) => JsonVal::Null,
            };
            let tags = match jsonio::parse_json(row.tags.as_str()) {
                Ok(JsonVal::Arr(items)) => {
                    proof {
                        crate::model::lemma_arr_elems(items);
                    }
                    collect_tag_strings(&items)
                },
                _ => Vec::new(),
            };
            let record = McpServer {
                id: row.id.clone(),
                name: row.name.clone(),
                server: server_val,
                apps: McpApps { client_a: row.client_a, codex: row.codex, gemini: row.gemini },
                description: clone_opt(&row.description),
                homepage: clone_opt(&row.homepage),
                docs: clone_opt(&row.docs),
                tags: tags,
            };
            proof {
                assert(crate::app_config::tags_view(Seq::<String>::empty()) =~= Seq::<
                    Seq<char>,
                >::empty());
                let ghost whole = record@ == record_of_row(rows@[i as int].id@, rows@[i as int].row_view());
                assert(whole);
            }
            servers.push(record);
            i = i + 1;
        }
        let out = CanonicalStore { servers };
        proof {
            assert forall|a: int, b: int|
                0 <= a < b < out.servers@.len() implies (#[trigger] out.servers@[a])@.id != (
            #[trigger] out.servers@[b])@.id by {
                assert(out.servers@[a]@.id == rows@[a].id@);
                assert(out.servers@[b]@.id == rows@[b].id@);
            }
            assert forall|id: Seq<char>| m.dom().contains(id) implies out.has(id) by {
                let j = choose|j: int| 0 <= j < rows@.len() && (#[trigger] rows@[j]).id@ == id;
                assert(out.servers@[j]@.id == id);
            }
        }
        Ok(out)
    }
}

fn clone_opt(o: &Option<String>) -> (r: Option<String>)
    ensures
        crate::app_config::opt_view(r) == crate::app_config::opt_view(*o),
{
    match o {
        Some(s) => Some(s.clone()),
        None => None,
    }
}

/// The string elements of a parsed tags array.
fn collect_tag_strings(items: &Vec<JsonVal>) -> (r: Vec<String>)
    ensures
        crate::app_config::tags_view(r@) == crate::app_config::tag_strs(
            crate::model::aview(items@),
        ),
{
    let ghost av = crate::model::aview(items@);
    let mut r: Vec<String> = Vec::new();
    let mut i: usize = 0;
    while i < items.len()
        invariant
            av == crate::model::aview(items@),
            i <= items@.len(),
            crate::app_config::tags_view(r@) == crate::app_config::tag_strs(av.take(i as int)),
        decreases items@.len() - i,
    {
        match &items[i] {
            JsonVal::Str(s) => {
                r.push(s.clone());
            },
            _ => {},
        }
        proof {
            assert(av.take(i + 1).drop_last() =~= av.take(i as int));
            assert(av.take(i + 1).last() == av[i as int]);
            assert(crate::app_config::tags_view(r@) =~= crate::app_config::tag_strs(
                av.take(i + 1),
            ));
        }
        i = i + 1;
    }
    proof {
        assert(av.take(av.len() as int) =~= av);
    }
    r
}


/// Relies on INSERT INTO provider_endpoints with bound parameters;
/// that table is outside the modelled part of the store, so the
/// model reads as before.
#[verifier::external_body]
pub fn insert_endpoint_row(
    c: &mut rusqlite::Connection,
    provider_id: &str,
    app_type: &str,
    url: &str,
    added_at: i64,
) -> (r: Result<(), String>)
    ensures
        match r {
            Ok(_) => db_model(*final(c)) == db_model(*old(c)) && db_saved(*final(c)) == db_saved(
                *old(c),
            ) && sp_active(*final(c)) == sp_active(*old(c)),
            Err(_) => true,
        },
{
    c.execute(
        "INSERT INTO provider_endpoints (provider_id, app_type, url, added_at) VALUES (?1, ?2, ?3, ?4)",
        (provider_id, app_type, url, added_at),
    ).map(|_| ()).map_err(|e| e.to_string())
}

/// Relies on INSERT OR REPLACE INTO prompts with bound parameters;
/// that table is outside the modelled part of the store.
#[verifier::external_body]
pub fn insert_prompt_row(
    c: &mut rusqlite::Connection,
    id: &str,
    app_type: &str,
    name: &str,
    content: &str,
    description: &Option<String>,
    enabled: bool,
    created_at: &Option<i64>,
    updated_at: &Option<i64>,
) -> (r: Result<(), String>)
    ensures
        match r {
            Ok(_) => db_model(*final(c)) == db_model(*old(c)) && db_saved(*final(c)) == db_saved(
                *old(c),
            ) && sp_active(*final(c)) == sp_active(*old(c)),
            Err(_) => true,
        },
{
    c.execute(
        "INSERT OR REPLACE INTO prompts (id, app_type, name, content, description, enabled, created_at, updated_at) VALUES (?1, ?2, ?3, ?4, ?5, ?6, ?7, ?8)",
        (id, app_type, name, content, description, enabled, created_at, updated_at),
    ).map(|_| ()).map_err(|e| e.to_string())
}

/// Relies on INSERT OR REPLACE INTO skills with bound parameters;
/// that table is outside the modelled part of the store.
#[verifier::external_body]
pub fn insert_skill_row(
    c: &mut rusqlite::Connection,
    key: &str,
    installed: bool,
    installed_at: i64,
) -> (r: Result<(), String>)
    ensures
        match r {
            Ok(_) => db_model(*final(c)) == db_model(*old(c)) && db_saved(*final(c)) == db_saved(
                *old(c),
            ) && sp_active(*final(c)) == sp_active(*old(c)),
            Err(_) => true,
        },
{
    c.execute(
        "INSERT OR REPLACE INTO skills (key, installed, installed_at) VALUES (?1, ?2, ?3)",
        (key, installed, installed_at),
    ).map(|_| ()).map_err(|e| e.to_string())
}

/// Relies on INSERT OR REPLACE INTO skill_repos with bound
/// parameters; that table is outside the modelled part of the store.
#[verifier::external_body]
pub fn insert_skill_repo_row(
    c: &mut rusqlite::Connection,
    owner: &str,
    name: &str,
    branch: &str,
    enabled: bool,
    skills_path: &Option<String>,
) -> (r: Result<(), String>)
    ensures
        match r {
            Ok(_) => db_model(*final(c)) == db_model(*old(c)) && db_saved(*final(c)) == db_saved(
                *old(c),
            ) && sp_active(*final(c)) == sp_active(*old(c)),
            Err(_) => true,
        },
{
    c.execute(
        "INSERT OR REPLACE INTO skill_repos (owner, name, branch, enabled, skills_path) VALUES (?1, ?2, ?3, ?4, ?5)",
        (owner, name, branch, enabled, skills_path),
    ).map(|_| ()).map_err(|e| e.to_string())
}

/// The usage-script object inside the persisted metadata; an
/// interval too large for the integer column is dropped.
pub open spec fn usage_script_json(s: crate::provider::UsageScript) -> JVal {
    JVal::Obj(
        match s.auto_query_interval {
            Some(n) => if n <= i64::MAX as u64 {
                seq![("code"@, JVal::Str(s.code@)), ("autoQueryInterval"@, JVal::Int(n as i64))]
            } else {
                seq![("code"@, JVal::Str(s.code@))]
            },
            None => seq![("code"@, JVal::Str(s.code@))],
        },
    )
}

/// The JSON object persisted for a provider's metadata, endpoints
/// excluded (they move to their own table).
pub open spec fn meta_json_spec(m: crate::provider::ProviderMeta) -> JVal {
    JVal::Obj(
        (match m.partner_promotion_key {
            Some(k) => seq![("partnerPromotionKey"@, JVal::Str(k@))],
            None => Seq::<(Seq<char>, JVal)>::empty(),
        }) + (match m.usage_script {
            Some(s) => seq![("usageScript"@, usage_script_json(s))],
            None => Seq::<(Seq<char>, JVal)>::empty(),
        }),
    )
}

/// The providers row that persisting a provider writes.
pub open spec fn provider_stored_row(
    p: crate::provider::Provider,
    is_current: bool,
) -> ProviderRowV {
    ProviderRowV {
        name: p.name@,
        settings_config: jsonio::json_compact_of(p.settings_config@),
        website_url: crate::app_config::opt_view(p.website_url),
        category: crate::app_config::opt_view(p.category),
        created_at: opt_int_view(p.created_at),
        sort_index: sort_index_stored(p.sort_index),
        notes: crate::app_config::opt_view(p.notes),
        icon: crate::app_config::opt_view(p.icon),
        icon_color: crate::app_config::opt_view(p.icon_color),
        meta: jsonio::json_compact_of(
            match p.meta {
                Some(m) => meta_json_spec(m),
                None => JVal::Obj(Seq::empty()),
            },
        ),
        is_current: is_current,
    }
}

/// Build the persisted metadata object.
fn meta_to_json(meta: &crate::provider::ProviderMeta) -> (r: JsonVal)
    ensures
        r@ == meta_json_spec(*meta),
{
    let mut entries: Vec<(String, JsonVal)> = Vec::new();
    match &meta.partner_promotion_key {
        Some(k) => {
            let p = ("partnerPromotionKey".to_owned(), JsonVal::Str(k.clone()));
            proof {
                crate::model::lemma_eview_push(entries@, p);
            }
            entries.push(p);
        },
        None => {},
    }
    match &meta.usage_script {
        Some(script) => {
            let mut s: Vec<(String, JsonVal)> = Vec::new();
            let pc = ("code".to_owned(), JsonVal::Str(script.code.clone()));
            proof {
                crate::model::lemma_eview_push(s@, pc);
            }
            s.push(pc);
            match script.auto_query_interval {
                Some(n) => {
                    if n <= i64::MAX as u64 {
                        let pi = ("autoQueryInterval".to_owned(), JsonVal::Int(n as i64));
                        proof {
                            crate::model::lemma_eview_push(s@, pi);
                        }
                        s.push(pi);
                    }
                },
                None => {},
            }
            proof {
                crate::model::lemma_obj_entries(s);
                assert(crate::model::eview(s@) =~= usage_script_json(*script)->Obj_0);
                assert(jview(JsonVal::Obj(s)) == usage_script_json(*script));
            }
            let pu = ("usageScript".to_owned(), JsonVal::Obj(s));
            proof {
                crate::model::lemma_eview_push(entries@, pu);
            }
            entries.push(pu);
        },
        None => {},
    }
    proof {
        crate::model::lemma_obj_entries(entries);
        assert(crate::model::eview(entries@) =~= meta_json_spec(*meta)->Obj_0);
        assert(jview(JsonVal::Obj(entries)) == meta_json_spec(*meta));
    }
    JsonVal::Obj(entries)
}

impl Database {
    /// Persist one provider and its remembered endpoints.
    pub fn save_provider(
        &mut self,
        app_type: &crate::app_config::AppType,
        provider: &crate::provider::Provider,
        is_current: bool,
    ) -> (r: Result<(), AppError>)
        ensures
            r is Err ==> r->Err_0 is Database,
            r is Ok ==> db_model(final(self).conn).mcp == db_model(old(self).conn).mcp
                && db_model(final(self).conn).settings == db_model(old(self).conn).settings,
            r is Ok ==> db_model(final(self).conn).providers == db_model(
                old(self).conn,
            ).providers.insert(
                (provider.id@, app_type.as_str_spec()),
                provider_stored_row(*provider, is_current),
            ),
    {
        self.save_provider_by_name(app_type.as_str(), provider, is_current)
    }

    /// One settings row's value, straight from the store.
    pub fn get_setting(&self, key: &str) -> (r: Result<Option<String>, AppError>)
        ensures
            match r {
                Ok(v) => match v {
                    Some(s) => db_model(self.conn).settings.dom().contains(key@) && db_model(
                        self.conn,
                    ).settings[key@] == s@,
                    None => !db_model(self.conn).settings.dom().contains(key@),
                },
                Err(e) => e is Database,
            },
    {
        match get_setting_row(&self.conn, key) {
            Ok(v) => Ok(v),
            Err(m) => Err(AppError::Database(m)),
        }
    }

    /// Store one settings row.
    pub fn set_setting(&mut self, key: &str, value: &str) -> (r: Result<(), AppError>)
        ensures
            match r {
                Ok(_) => db_model(final(self).conn) == (DbModel {
                    settings: db_model(old(self).conn).settings.insert(key@, value@),
                    ..db_model(old(self).conn)
                }),
                Err(e) => e is Database,
            },
    {
        match set_setting_row(&mut self.conn, key, value) {
            Ok(_) => Ok(()),
            Err(m) => Err(AppError::Database(m)),
        }
    }

    /// One-time migration of a whole multi-client configuration into
    /// the durable store: every provider with its endpoints, every
    /// unified server record, every prompt, the skill states and
    /// repositories, and the per-client configuration snippets. On
    /// success every unified record's row is stored exactly as
    /// rendered, and each configured snippet sits under its settings
    /// key.
    pub fn migrate_from_json(&mut self, config: &crate::app_config::MultiAppConfig) -> (r: Result<
        (),
        AppError,
    >)
        requires
            match config.mcp.servers {
                Some(list) => crate::app_config::unified_wf(list@),
                None => true,
            },
        ensures
            r is Err ==> r->Err_0 is Database,
            r is Ok ==> match config.mcp.servers {
                Some(list) => forall|j: int|
                    0 <= j < list@.len() ==> db_model(final(self).conn).mcp.dom().contains(
                        (#[trigger] list@[j])@.id,
                    ) && db_model(final(self).conn).mcp[list@[j]@.id] == row_of_server(list@[j]@),
                None => true,
            },
            r is Ok ==> match config.common_config_snippets.client_a {
                Some(sn) => db_model(final(self).conn).settings.dom().contains(
                    "common_config_client_a"@,
                ) && db_model(final(self).conn).settings["common_config_client_a"@] == sn@,
                None => true,
            },
            r is Ok ==> match config.common_config_snippets.codex {
                Some(sn) => db_model(final(self).conn).settings.dom().contains(
                    "common_config_codex"@,
                ) && db_model(final(self).conn).settings["common_config_codex"@] == sn@,
                None => true,
            },
            r is Ok ==> match config.common_config_snippets.gemini {
                Some(sn) => db_model(final(self).conn).settings.dom().contains(
                    "common_config_gemini"@,
                ) && db_model(final(self).conn).settings["common_config_gemini"@] == sn@,
                None => true,
            },
    {
        let mut a: usize = 0;
        while a < config.apps.len()
            invariant
                a <= config.apps@.len(),
            decreases config.apps@.len() - a,
        {
            let app_name = &config.apps[a].0;
            let manager = &config.apps[a].1;
            let mut p: usize = 0;
            while p < manager.providers.len()
                invariant
                    p <= manager.providers@.len(),
                decreases manager.providers@.len() - p,
            {
                let provider = &manager.providers[p];
                let is_current = crate::strutil::str_eq(
                    provider.id.as_str(),
                    manager.current.as_str(),
                );
                if let Err(e) = self.save_provider_by_name(app_name.as_str(), provider, is_current)
                {
                    return Err(e);
                }
                p = p + 1;
            }
            a = a + 1;
        }
        if let Some(servers) = &config.mcp.servers {
            let mut i: usize = 0;
            while i < servers.len()
                invariant
                    crate::app_config::unified_wf(servers@),
                    i <= servers@.len(),
                    forall|j: int|
                        0 <= j < i ==> db_model(self.conn).mcp.dom().contains(
                            (#[trigger] servers@[j])@.id,
                        ) && db_model(self.conn).mcp[servers@[j]@.id] == row_of_server(
                            servers@[j]@,
                        ),
                decreases servers@.len() - i,
            {
                if let Err(e) = self.save_mcp_server(&servers[i]) {
                    return Err(e);
                }
                i = i + 1;
            }
        }
        let ghost mcp_done = db_model(self.conn).mcp;
        if let Err(e) = self.save_prompts("client_a", &config.prompts.client_a) {
            return Err(e);
        }
        if let Err(e) = self.save_prompts("codex", &config.prompts.codex) {
            return Err(e);
        }
        if let Err(e) = self.save_prompts("gemini", &config.prompts.gemini) {
            return Err(e);
        }
        let mut k: usize = 0;
        while k < config.skills.skills.len()
            invariant
                k <= config.skills.skills@.len(),
                db_model(self.conn).mcp == mcp_done,
            decreases config.skills.skills@.len() - k,
        {
            let pair = &config.skills.skills[k];
            if let Err(m) = insert_skill_row(
                &mut self.conn,
                pair.0.as_str(),
                pair.1.installed,
                pair.1.installed_at,
            ) {
                return Err(AppError::Database(m));
            }
            k = k + 1;
        }
        let mut rp: usize = 0;
        while rp < config.skills.repos.len()
            invariant
                rp <= config.skills.repos@.len(),
                db_model(self.conn).mcp == mcp_done,
            decreases config.skills.repos@.len() - rp,
        {
            let repo = &config.skills.repos[rp];
            if let Err(m) = insert_skill_repo_row(
                &mut self.conn,
                repo.owner.as_str(),
                repo.name.as_str(),
                repo.branch.as_str(),
                repo.enabled,
                &repo.skills_path,
            ) {
                return Err(AppError::Database(m));
            }
            rp = rp + 1;
        }
        proof {
            reveal_strlit("common_config_client_a");
            reveal_strlit("common_config_codex");
            reveal_strlit("common_config_gemini");
            assert("common_config_client_a"@.len() == 22);
            assert("common_config_codex"@.len() == 19);
            assert("common_config_gemini"@.len() == 20);
        }
        if let Some(snippet) = config.common_config_snippets.get(
            &crate::app_config::AppType::ClientA,
        ) {
            if let Err(m) = set_setting_row(&mut self.conn, "common_config_client_a", snippet.as_str()) {
                return Err(AppError::Database(m));
            }
        }
        if let Some(snippet) = config.common_config_snippets.get(
            &crate::app_config::AppType::Codex,
        ) {
            if let Err(m) = set_setting_row(&mut self.conn, "common_config_codex", snippet.as_str()) {
                return Err(AppError::Database(m));
            }
        }
        if let Some(snippet) = config.common_config_snippets.get(
            &crate::app_config::AppType::Gemini,
        ) {
            if let Err(m) = set_setting_row(&mut self.conn, "common_config_gemini", snippet.as_str()) {
                return Err(AppError::Database(m));
            }
        }
        Ok(())
    }

    /// Persist one provider under a raw client key, as the legacy
    /// configuration stores it.
    fn save_provider_by_name(
        &mut self,
        app_name: &str,
        provider: &crate::provider::Provider,
        is_current: bool,
    ) -> (r: Result<(), AppError>)
        ensures
            r is Err ==> r->Err_0 is Database,
            r is Ok ==> db_model(final(self).conn).mcp == db_model(old(self).conn).mcp
                && db_model(final(self).conn).settings == db_model(old(self).conn).settings,
            r is Ok ==> db_model(final(self).conn).providers == db_model(
                old(self).conn,
            ).providers.insert(
                (provider.id@, app_name@),
                provider_stored_row(*provider, is_current),
            ),
    {
        let meta_json = match &provider.meta {
            Some(m) => meta_to_json(m),
            None => {
                let empty: Vec<(String, JsonVal)> = Vec::new();
                proof {
                    crate::model::lemma_obj_entries(empty);
                    assert(crate::model::eview(empty@) =~= Seq::<(Seq<char>, JVal)>::empty());
                }
                JsonVal::Obj(empty)
            },
        };
        let sort_as_i64: Option<i64> = match provider.sort_index {
            Some(n) => if n <= i64::MAX as u64 {
                Some(n as i64)
            } else {
                None
            },
            None => None,
        };
        let row = ProviderRow {
            id: provider.id.clone(),
            app_type: crate::strutil::chars_string(&crate::strutil::str_chars(app_name)),
            name: provider.name.clone(),
            settings_config: jsonio::render_json_compact(&provider.settings_config),
            website_url: clone_opt(&provider.website_url),
            category: clone_opt(&provider.category),
            created_at: provider.created_at,
            sort_index: sort_as_i64,
            notes: clone_opt(&provider.notes),
            icon: clone_opt(&provider.icon),
            icon_color: clone_opt(&provider.icon_color),
            meta: jsonio::render_json_compact(&meta_json),
            is_current: is_current,
        };
        proof {
            assert(row.row_view() == provider_stored_row(*provider, is_current));
        }
        if let Err(m) = insert_provider_row(&mut self.conn, &row) {
            return Err(AppError::Database(m));
        }
        if let Some(meta) = &provider.meta {
            let mut i: usize = 0;
            while i < meta.custom_endpoints.len()
                invariant
                    i <= meta.custom_endpoints@.len(),
                    db_model(self.conn).mcp == db_model(old(self).conn).mcp,
                    db_model(self.conn).settings == db_model(old(self).conn).settings,
                    db_model(self.conn).providers == db_model(old(self).conn).providers.insert(
                        (provider.id@, app_name@),
                        provider_stored_row(*provider, is_current),
                    ),
                decreases meta.custom_endpoints@.len() - i,
            {
                let ep = &meta.custom_endpoints[i].1;
                if let Err(m) = insert_endpoint_row(
                    &mut self.conn,
                    provider.id.as_str(),
                    app_name,
                    ep.url.as_str(),
                    ep.added_at,
                ) {
                    return Err(AppError::Database(m));
                }
                i = i + 1;
            }
        }
        Ok(())
    }

    /// Persist one client's prompts.
    fn save_prompts(&mut self, app_name: &str, prompts: &crate::app_config::PromptConfig) -> (r:
        Result<(), AppError>)
        ensures
            r is Err ==> r->Err_0 is Database,
            r is Ok ==> db_model(final(self).conn) == db_model(old(self).conn),
    {
        let mut i: usize = 0;
        while i < prompts.prompts.len()
            invariant
                i <= prompts.prompts@.len(),
                db_model(self.conn) == db_model(old(self).conn),
            decreases prompts.prompts@.len() - i,
        {
            let pr = &prompts.prompts[i].1;
            if let Err(m) = insert_prompt_row(
                &mut self.conn,
                prompts.prompts[i].0.as_str(),
                app_name,
                pr.name.as_str(),
                pr.content.as_str(),
                &pr.description,
                pr.enabled,
                &pr.created_at,
                &pr.updated_at,
            ) {
                return Err(AppError::Database(m));
            }
            i = i + 1;
        }
        Ok(())
    }
}

} // verus!
