//! Snapshot export and import as portable SQL text, and the backup
//! retention rule.
//!
//! Exporting dumps a consistent snapshot as `CREATE TABLE` plus
//! `INSERT` statements. Importing applies the incoming statements to a
//! scratch store, normalizes and sanity-checks it there, and only then
//! copies scratch over live, so a rejected backup never touches the
//! live store.

use vstd::prelude::*;

use super::dao::{
    count_mcp, count_providers, select_all_mcp, select_all_providers, select_all_settings, McpRow,
    ProviderRow,
};
use super::schema::{apply_schema_migrations_on_conn, create_tables_on_conn, SCHEMA_VERSION};
use super::{backup_into, db_model, open_memory, Database};
use crate::errors::AppError;
use crate::strutil::{
    char_idx, chars_string, contains_spec, dec_i, i64_dec, lemma_char_idx, lemma_char_idx_first,
    lower_chars, lower_spec, sql_escape, sql_escaped, str_chars, trim_chars, trim_spec,
};

verus! {

/// How many snapshot files are kept.
pub const DB_BACKUP_RETAIN: usize = 10;

/// A value rendered into an INSERT statement.
pub open spec fn sql_str_lit(s: Seq<char>) -> Seq<char> {
    seq!['\''] + sql_escaped(s) + seq!['\'']
}

pub open spec fn sql_opt_lit(o: Option<Seq<char>>) -> Seq<char> {
    match o {
        Some(s) => sql_str_lit(s),
        None => "NULL"@,
    }
}

pub open spec fn sql_bool_lit(b: bool) -> Seq<char> {
    if b {
        "1"@
    } else {
        "0"@
    }
}

fn sql_str_exec(s: &str) -> (r: String)
    ensures
        r@ == sql_str_lit(s@),
{
    let mut out = "'".to_owned();
    let esc = sql_escape(s);
    out.append(esc.as_str());
    out.append("'");
    proof {
        reveal_strlit("'");
        assert(out@ =~= sql_str_lit(s@));
    }
    out
}

fn sql_opt_exec(o: &Option<String>) -> (r: String)
    ensures
        r@ == sql_opt_lit(crate::app_config::opt_view(*o)),
{
    match o {
        Some(s) => sql_str_exec(s.as_str()),
        None => "NULL".to_owned(),
    }
}

fn sql_bool_exec(b: bool) -> (r: String)
    ensures
        r@ == sql_bool_lit(b),
{
    if b {
        "1".to_owned()
    } else {
        "0".to_owned()
    }
}

/// The INSERT line for one mcp_servers row.
pub open spec fn mcp_line(row: McpRow) -> Seq<char> {
    "INSERT INTO \"mcp_servers\" (\"id\", \"name\", \"server_config\", \"description\", \"homepage\", \"docs\", \"tags\", \"enabled_client_a\", \"enabled_codex\", \"enabled_gemini\") VALUES ("@
        + sql_str_lit(row.id@) + ", "@ + sql_str_lit(row.name@) + ", "@ + sql_str_lit(row.config@)
        + ", "@ + sql_opt_lit(crate::app_config::opt_view(row.description)) + ", "@ + sql_opt_lit(
        crate::app_config::opt_view(row.homepage),
    ) + ", "@ + sql_opt_lit(crate::app_config::opt_view(row.docs)) + ", "@ + sql_str_lit(row.tags@)
        + ", "@ + sql_bool_lit(row.client_a) + ", "@ + sql_bool_lit(row.codex) + ", "@ + sql_bool_lit(
        row.gemini,
    ) + ");\n"@
}

fn push_sep(out: &mut String)
    ensures
        final(out)@ == old(out)@ + ", "@,
{
    out.append(", ");
}

fn mcp_line_exec(row: &McpRow) -> (r: String)
    ensures
        r@ == mcp_line(*row),
{
    let mut out =
        "INSERT INTO \"mcp_servers\" (\"id\", \"name\", \"server_config\", \"description\", \"homepage\", \"docs\", \"tags\", \"enabled_client_a\", \"enabled_codex\", \"enabled_gemini\") VALUES (".to_owned();
    let p1 = sql_str_exec(row.id.as_str());
    out.append(p1.as_str());
    push_sep(&mut out);
    let p2 = sql_str_exec(row.name.as_str());
    out.append(p2.as_str());
    push_sep(&mut out);
    let p3 = sql_str_exec(row.config.as_str());
    out.append(p3.as_str());
    push_sep(&mut out);
    let p4 = sql_opt_exec(&row.description);
    out.append(p4.as_str());
    push_sep(&mut out);
    let p5 = sql_opt_exec(&row.homepage);
    out.append(p5.as_str());
    push_sep(&mut out);
    let p6 = sql_opt_exec(&row.docs);
    out.append(p6.as_str());
    push_sep(&mut out);
    let p7 = sql_str_exec(row.tags.as_str());
    out.append(p7.as_str());
    push_sep(&mut out);
    let p8 = sql_bool_exec(row.client_a);
    out.append(p8.as_str());
    push_sep(&mut out);
    let p9 = sql_bool_exec(row.codex);
    out.append(p9.as_str());
    push_sep(&mut out);
    let p10 = sql_bool_exec(row.gemini);
    out.append(p10.as_str());
    out.append(");\n");
    proof {
        assert(out@ =~= mcp_line(*row));
    }
    out
}

/// The INSERT line for one providers row.
pub open spec fn provider_line(row: ProviderRow) -> Seq<char> {
    "INSERT INTO \"providers\" (\"id\", \"app_type\", \"name\", \"settings_config\", \"website_url\", \"category\", \"created_at\", \"sort_index\", \"notes\", \"icon\", \"icon_color\", \"meta\", \"is_current\") VALUES ("@
        + sql_str_lit(row.id@) + ", "@ + sql_str_lit(row.app_type@) + ", "@ + sql_str_lit(
        row.name@,
    ) + ", "@ + sql_str_lit(row.settings_config@) + ", "@ + sql_opt_lit(
        crate::app_config::opt_view(row.website_url),
    ) + ", "@ + sql_opt_lit(crate::app_config::opt_view(row.category)) + ", "@ + sql_opt_int(
        row.created_at,
    ) + ", "@ + sql_opt_int(row.sort_index) + ", "@ + sql_opt_lit(
        crate::app_config::opt_view(row.notes),
    ) + ", "@ + sql_opt_lit(crate::app_config::opt_view(row.icon)) + ", "@ + sql_opt_lit(
        crate::app_config::opt_view(row.icon_color),
    ) + ", "@ + sql_str_lit(row.meta@) + ", "@ + sql_bool_lit(row.is_current) + ");\n"@
}

pub open spec fn sql_opt_int(o: Option<i64>) -> Seq<char> {
    match o {
        Some(v) => dec_i(v as int),
        None => "NULL"@,
    }
}

fn sql_opt_int_exec(o: &Option<i64>) -> (r: String)
    ensures
        r@ == sql_opt_int(*o),
{
    match o {
        Some(v) => i64_dec(*v),
        None => "NULL".to_owned(),
    }
}

fn provider_line_exec(row: &ProviderRow) -> (r: String)
    ensures
        r@ == provider_line(*row),
{
    let mut out =
        "INSERT INTO \"providers\" (\"id\", \"app_type\", \"name\", \"settings_config\", \"website_url\", \"category\", \"created_at\", \"sort_index\", \"notes\", \"icon\", \"icon_color\", \"meta\", \"is_current\") VALUES (".to_owned();
    let p1 = sql_str_exec(row.id.as_str());
    out.append(p1.as_str());
    push_sep(&mut out);
    let p2 = sql_str_exec(row.app_type.as_str());
    out.append(p2.as_str());
    push_sep(&mut out);
    let p3 = sql_str_exec(row.name.as_str());
    out.append(p3.as_str());
    push_sep(&mut out);
    let p4 = sql_str_exec(row.settings_config.as_str());
    out.append(p4.as_str());
    push_sep(&mut out);
    let p5 = sql_opt_exec(&row.website_url);
    out.append(p5.as_str());
    push_sep(&mut out);
    let p6 = sql_opt_exec(&row.category);
    out.append(p6.as_str());
    push_sep(&mut out);
    let p7 = sql_opt_int_exec(&row.created_at);
    out.append(p7.as_str());
    push_sep(&mut out);
    let p8 = sql_opt_int_exec(&row.sort_index);
    out.append(p8.as_str());
    push_sep(&mut out);
    let p9 = sql_opt_exec(&row.notes);
    out.append(p9.as_str());
    push_sep(&mut out);
    let p10 = sql_opt_exec(&row.icon);
    out.append(p10.as_str());
    push_sep(&mut out);
    let p11 = sql_opt_exec(&row.icon_color);
    out.append(p11.as_str());
    push_sep(&mut out);
    let p12 = sql_str_exec(row.meta.as_str());
    out.append(p12.as_str());
    push_sep(&mut out);
    let p13 = sql_bool_exec(row.is_current);
    out.append(p13.as_str());
    out.append(");\n");
    proof {
        assert(out@ =~= provider_line(*row));
    }
    out
}

/// The INSERT line for one settings row.
pub open spec fn setting_line(row: (String, String)) -> Seq<char> {
    "INSERT INTO \"settings\" (\"key\", \"value\") VALUES ("@ + sql_str_lit(row.0@) + ", "@
        + sql_str_lit(row.1@) + ");\n"@
}

fn setting_line_exec(row: &(String, String)) -> (r: String)
    ensures
        r@ == setting_line(*row),
{
    let mut out = "INSERT INTO \"settings\" (\"key\", \"value\") VALUES (".to_owned();
    let p1 = sql_str_exec(row.0.as_str());
    out.append(p1.as_str());
    push_sep(&mut out);
    let p2 = sql_str_exec(row.1.as_str());
    out.append(p2.as_str());
    out.append(");\n");
    proof {
        assert(out@ =~= setting_line(*row));
    }
    out
}

pub open spec fn mcp_lines(rows: Seq<McpRow>) -> Seq<char>
    decreases rows.len(),
{
    if rows.len() == 0 {
        Seq::empty()
    } else {
        mcp_lines(rows.drop_last()) + mcp_line(rows.last())
    }
}

pub open spec fn provider_lines(rows: Seq<ProviderRow>) -> Seq<char>
    decreases rows.len(),
{
    if rows.len() == 0 {
        Seq::empty()
    } else {
        provider_lines(rows.drop_last()) + provider_line(rows.last())
    }
}

pub open spec fn setting_lines(rows: Seq<(String, String)>) -> Seq<char>
    decreases rows.len(),
{
    if rows.len() == 0 {
        Seq::empty()
    } else {
        setting_lines(rows.drop_last()) + setting_line(rows.last())
    }
}

/// The whole dump: a header recording timestamp and schema version,
/// the schema DDL, then the data of the modelled tables, inside one
/// transaction.
pub open spec fn dump_spec(
    timestamp: Seq<char>,
    version: int,
    providers: Seq<ProviderRow>,
    mcp: Seq<McpRow>,
    settings: Seq<(String, String)>,
) -> Seq<char> {
    "-- CLI Hub SQLite Export\n-- Generated: "@ + timestamp + "\n-- user_version: "@ + dec_i(
        version,
    ) + "\nPRAGMA foreign_keys=OFF;\nPRAGMA user_version="@ + dec_i(version)
        + ";\nBEGIN TRANSACTION;\n"@ + schema_ddl() + provider_lines(providers) + mcp_lines(mcp)
        + setting_lines(settings) + "COMMIT;\nPRAGMA foreign_keys=ON;\n"@
}

/// The schema DDL written into every dump: this build's tables.
pub open spec fn schema_ddl() -> Seq<char> {
    "CREATE TABLE IF NOT EXISTS providers (id TEXT NOT NULL, app_type TEXT NOT NULL, name TEXT NOT NULL, settings_config TEXT NOT NULL, website_url TEXT, category TEXT, created_at INTEGER, sort_index INTEGER, notes TEXT, icon TEXT, icon_color TEXT, meta TEXT NOT NULL DEFAULT '{}', is_current BOOLEAN NOT NULL DEFAULT 0, PRIMARY KEY (id, app_type));\nCREATE TABLE IF NOT EXISTS provider_endpoints (id INTEGER PRIMARY KEY AUTOINCREMENT, provider_id TEXT NOT NULL, app_type TEXT NOT NULL, url TEXT NOT NULL, added_at INTEGER, FOREIGN KEY (provider_id, app_type) REFERENCES providers(id, app_type) ON DELETE CASCADE);\nCREATE TABLE IF NOT EXISTS mcp_servers (id TEXT PRIMARY KEY, name TEXT NOT NULL, server_config TEXT NOT NULL, description TEXT, homepage TEXT, docs TEXT, tags TEXT NOT NULL DEFAULT '[]', enabled_client_a BOOLEAN NOT NULL DEFAULT 0, enabled_codex BOOLEAN NOT NULL DEFAULT 0, enabled_gemini BOOLEAN NOT NULL DEFAULT 0);\nCREATE TABLE IF NOT EXISTS prompts (id TEXT NOT NULL, app_type TEXT NOT NULL, name TEXT NOT NULL, content TEXT NOT NULL, description TEXT, enabled BOOLEAN NOT NULL DEFAULT 1, created_at INTEGER, updated_at INTEGER, PRIMARY KEY (id, app_type));\nCREATE TABLE IF NOT EXISTS skills (key TEXT PRIMARY KEY, installed BOOLEAN NOT NULL DEFAULT 0, installed_at INTEGER NOT NULL DEFAULT 0);\nCREATE TABLE IF NOT EXISTS skill_repos (owner TEXT NOT NULL, name TEXT NOT NULL, branch TEXT NOT NULL DEFAULT 'main', enabled BOOLEAN NOT NULL DEFAULT 1, skills_path TEXT, PRIMARY KEY (owner, name));\nCREATE TABLE IF NOT EXISTS settings (key TEXT PRIMARY KEY, value TEXT);\n"@
}

/// Render the dump text for the given snapshot rows.
pub fn render_dump(
    timestamp: &str,
    version: i64,
    providers: &Vec<ProviderRow>,
    mcp: &Vec<McpRow>,
    settings: &Vec<(String, String)>,
) -> (r: String)
    ensures
        r@ == dump_spec(timestamp@, version as int, providers@, mcp@, settings@),
{
    let mut out = "-- CLI Hub SQLite Export\n-- Generated: ".to_owned();
    out.append(timestamp);
    out.append("\n-- user_version: ");
    let v1 = i64_dec(version);
    out.append(v1.as_str());
    out.append("\nPRAGMA foreign_keys=OFF;\nPRAGMA user_version=");
    let v2 = i64_dec(version);
    out.append(v2.as_str());
    out.append(";\nBEGIN TRANSACTION;\n");
    out.append(
        "CREATE TABLE IF NOT EXISTS providers (id TEXT NOT NULL, app_type TEXT NOT NULL, name TEXT NOT NULL, settings_config TEXT NOT NULL, website_url TEXT, category TEXT, created_at INTEGER, sort_index INTEGER, notes TEXT, icon TEXT, icon_color TEXT, meta TEXT NOT NULL DEFAULT '{}', is_current BOOLEAN NOT NULL DEFAULT 0, PRIMARY KEY (id, app_type));\nCREATE TABLE IF NOT EXISTS provider_endpoints (id INTEGER PRIMARY KEY AUTOINCREMENT, provider_id TEXT NOT NULL, app_type TEXT NOT NULL, url TEXT NOT NULL, added_at INTEGER, FOREIGN KEY (provider_id, app_type) REFERENCES providers(id, app_type) ON DELETE CASCADE);\nCREATE TABLE IF NOT EXISTS mcp_servers (id TEXT PRIMARY KEY, name TEXT NOT NULL, server_config TEXT NOT NULL, description TEXT, homepage TEXT, docs TEXT, tags TEXT NOT NULL DEFAULT '[]', enabled_client_a BOOLEAN NOT NULL DEFAULT 0, enabled_codex BOOLEAN NOT NULL DEFAULT 0, enabled_gemini BOOLEAN NOT NULL DEFAULT 0);\nCREATE TABLE IF NOT EXISTS prompts (id TEXT NOT NULL, app_type TEXT NOT NULL, name TEXT NOT NULL, content TEXT NOT NULL, description TEXT, enabled BOOLEAN NOT NULL DEFAULT 1, created_at INTEGER, updated_at INTEGER, PRIMARY KEY (id, app_type));\nCREATE TABLE IF NOT EXISTS skills (key TEXT PRIMARY KEY, installed BOOLEAN NOT NULL DEFAULT 0, installed_at INTEGER NOT NULL DEFAULT 0);\nCREATE TABLE IF NOT EXISTS skill_repos (owner TEXT NOT NULL, name TEXT NOT NULL, branch TEXT NOT NULL DEFAULT 'main', enabled BOOLEAN NOT NULL DEFAULT 1, skills_path TEXT, PRIMARY KEY (owner, name));\nCREATE TABLE IF NOT EXISTS settings (key TEXT PRIMARY KEY, value TEXT);\n",
    );
    let ghost prefix = out@;
    let mut i: usize = 0;
    while i < providers.len()
        invariant
            i <= providers@.len(),
            out@ == prefix + provider_lines(providers@.take(i as int)),
        decreases providers@.len() - i,
    {
        let line = provider_line_exec(&providers[i]);
        out.append(line.as_str());
        proof {
            assert(providers@.take(i + 1).drop_last() =~= providers@.take(i as int));
            assert(providers@.take(i + 1).last() == providers@[i as int]);
            assert(out@ =~= prefix + provider_lines(providers@.take(i + 1)));
        }
        i = i + 1;
    }
    let ghost prefix2 = out@;
    let mut j: usize = 0;
    while j < mcp.len()
        invariant
            j <= mcp@.len(),
            out@ == prefix2 + mcp_lines(mcp@.take(j as int)),
        decreases mcp@.len() - j,
    {
        let line = mcp_line_exec(&mcp[j]);
        out.append(line.as_str());
        proof {
            assert(mcp@.take(j + 1).drop_last() =~= mcp@.take(j as int));
            assert(mcp@.take(j + 1).last() == mcp@[j as int]);
            assert(out@ =~= prefix2 + mcp_lines(mcp@.take(j + 1)));
        }
        j = j + 1;
    }
    let ghost prefix3 = out@;
    let mut k: usize = 0;
    while k < settings.len()
        invariant
            k <= settings@.len(),
            out@ == prefix3 + setting_lines(settings@.take(k as int)),
        decreases settings@.len() - k,
    {
        let line = setting_line_exec(&settings[k]);
        out.append(line.as_str());
        proof {
            assert(settings@.take(k + 1).drop_last() =~= settings@.take(k as int));
            assert(settings@.take(k + 1).last() == settings@[k as int]);
            assert(out@ =~= prefix3 + setting_lines(settings@.take(k + 1)));
        }
        k = k + 1;
    }
    out.append("COMMIT;\nPRAGMA foreign_keys=ON;\n");
    proof {
        assert(providers@.take(providers@.len() as int) =~= providers@);
        assert(mcp@.take(mcp@.len() as int) =~= mcp@);
        assert(settings@.take(settings@.len() as int) =~= settings@);
        assert(out@ =~= dump_spec(timestamp@, version as int, providers@, mcp@, settings@));
    }
    out
}


/// One column value as read back from a row, as plain values: a real
/// keeps its display text, a blob its bytes.
pub enum SqlValue {
    Null,
    Int(i64),
    Real(String),
    Text(String),
    Blob(Vec<u8>),
}

/// Mathematical view of a column value.
pub enum SqlV {
    Null,
    Int(i64),
    Real(Seq<char>),
    Text(Seq<char>),
    Blob(Seq<u8>),
}

impl View for SqlValue {
    type V = SqlV;

    open spec fn view(&self) -> SqlV {
        match self {
            SqlValue::Null => SqlV::Null,
            SqlValue::Int(n) => SqlV::Int(*n),
            SqlValue::Real(t) => SqlV::Real(t@),
            SqlValue::Text(t) => SqlV::Text(t@),
            SqlValue::Blob(b) => SqlV::Blob(b@),
        }
    }
}

/// The SQL literal one value prints as: NULL, a decimal, the real's
/// text, a quote-escaped string, or a hex blob literal.
pub open spec fn sql_value_lit(v: SqlV) -> Seq<char> {
    match v {
        SqlV::Null => "NULL"@,
        SqlV::Int(n) => dec_i(n as int),
        SqlV::Real(t) => t,
        SqlV::Text(t) => sql_str_lit(t),
        SqlV::Blob(b) => "X'"@ + crate::strutil::hex_of(b) + "'"@,
    }
}

/// Render one column value as its SQL literal.
pub fn format_sql_value(v: &SqlValue) -> (r: String)
    ensures
        r@ == sql_value_lit(v@),
{
    match v {
        SqlValue::Null => "NULL".to_owned(),
        SqlValue::Int(n) => i64_dec(*n),
        SqlValue::Real(t) => {
            let cs = str_chars(t.as_str());
            chars_string(&cs)
        },
        SqlValue::Text(t) => sql_str_exec(t.as_str()),
        SqlValue::Blob(b) => {
            let mut out = "X'".to_owned();
            let hex = crate::strutil::bytes_hex(b);
            out.append(hex.as_str());
            out.append("'");
            proof {
                reveal_strlit("X'");
                reveal_strlit("'");
                assert(out@ =~= sql_value_lit(v@));
            }
            out
        },
    }
}

/// Relies on PRAGMA table_info (rusqlite prepared query): the table's
/// column names in declaration order.
#[verifier::external_body]
pub fn table_columns(c: &rusqlite::Connection, table: &str) -> (r: Result<Vec<String>, String>)
    requires
        super::schema::is_sql_ident(table@),
{
    let sql = format!("PRAGMA table_info(\"{}\");", table);
    let mut stmt = c.prepare(&sql).map_err(|e| e.to_string())?;
    let mut rows = stmt.query([]).map_err(|e| e.to_string())?;
    let mut out = Vec::new();
    while let Some(row) = rows.next().map_err(|e| e.to_string())? {
        out.push(row.get::<usize, String>(1).map_err(|e| e.to_string())?);
    }
    Ok(out)
}

/// Reads one row's columns into plain values; text must be UTF-8, a
/// real keeps its display text.
#[verifier::external_body]
fn row_values(row: &rusqlite::Row<'_>, width: usize) -> Result<Vec<SqlValue>, String> {
    let mut vals = Vec::new();
    for idx in 0..width {
        let v = match row.get_ref(idx).map_err(|e| e.to_string())? {
            rusqlite::types::ValueRef::Null => SqlValue::Null,
            rusqlite::types::ValueRef::Integer(i) => SqlValue::Int(i),
            rusqlite::types::ValueRef::Real(f) => SqlValue::Real(f.to_string()),
            rusqlite::types::ValueRef::Text(t) => SqlValue::Text(
                std::str::from_utf8(t).map_err(|e| e.to_string())?.to_owned(),
            ),
            rusqlite::types::ValueRef::Blob(b) => SqlValue::Blob(b.to_vec()),
        };
        vals.push(v);
    }
    Ok(vals)
}

/// Relies on a SELECT over the named table: every stored row once,
/// each as its column values in declaration order.
#[verifier::external_body]
pub fn select_rows_generic(c: &rusqlite::Connection, table: &str, width: usize) -> (r: Result<
    Vec<Vec<SqlValue>>,
    String,
>)
    requires
        super::schema::is_sql_ident(table@),
{
    let sql = format!("SELECT * FROM \"{}\"", table);
    let mut stmt = c.prepare(&sql).map_err(|e| e.to_string())?;
    let mut rows = stmt.query([]).map_err(|e| e.to_string())?;
    let mut out = Vec::new();
    while let Some(row) = rows.next().map_err(|e| e.to_string())? {
        out.push(row_values(row, width)?);
    }
    Ok(out)
}

/// The quoted column names, comma-joined.
pub open spec fn cols_list(cols: Seq<Seq<char>>) -> Seq<char>
    decreases cols.len(),
{
    if cols.len() == 0 {
        Seq::empty()
    } else if cols.len() == 1 {
        "\""@ + cols[0] + "\""@
    } else {
        cols_list(cols.drop_last()) + ", \""@ + cols.last() + "\""@
    }
}

/// The rendered values, comma-joined.
pub open spec fn vals_list(vals: Seq<SqlV>) -> Seq<char>
    decreases vals.len(),
{
    if vals.len() == 0 {
        Seq::empty()
    } else if vals.len() == 1 {
        sql_value_lit(vals[0])
    } else {
        vals_list(vals.drop_last()) + ", "@ + sql_value_lit(vals.last())
    }
}

pub open spec fn col_views(cols: Seq<String>) -> Seq<Seq<char>> {
    Seq::new(cols.len(), |i: int| cols[i]@)
}

pub open spec fn val_views(vals: Seq<SqlValue>) -> Seq<SqlV> {
    Seq::new(vals.len(), |i: int| vals[i]@)
}

/// One generic INSERT line.
pub open spec fn generic_line(table: Seq<char>, cols: Seq<Seq<char>>, vals: Seq<SqlV>) -> Seq<
    char,
> {
    "INSERT INTO \""@ + table + "\" ("@ + cols_list(cols) + ") VALUES ("@ + vals_list(vals)
        + ");\n"@
}

/// All of one table's generic INSERT lines.
pub open spec fn generic_lines(
    table: Seq<char>,
    cols: Seq<Seq<char>>,
    rows: Seq<Seq<SqlV>>,
) -> Seq<char>
    decreases rows.len(),
{
    if rows.len() == 0 {
        Seq::empty()
    } else {
        generic_lines(table, cols, rows.drop_last()) + generic_line(table, cols, rows.last())
    }
}

pub open spec fn row_views(rows: Seq<Vec<SqlValue>>) -> Seq<Seq<SqlV>> {
    Seq::new(rows.len(), |i: int| val_views(rows[i]@))
}

fn render_cols(cols: &Vec<String>) -> (r: String)
    ensures
        r@ == cols_list(col_views(cols@)),
{
    let ghost cv = col_views(cols@);
    let mut out = String::new();
    let mut i: usize = 0;
    while i < cols.len()
        invariant
            cv == col_views(cols@),
            i <= cv.len(),
            out@ == cols_list(cv.take(i as int)),
        decreases cv.len() - i,
    {
        if i == 0 {
            out.append("\"");
        } else {
            out.append(", \"");
        }
        out.append(cols[i].as_str());
        out.append("\"");
        proof {
            reveal_strlit("\"");
            reveal_strlit(", \"");
            assert(cv.take(i + 1).drop_last() =~= cv.take(i as int));
            assert(cv.take(i + 1).last() == cv[i as int]);
            assert(out@ =~= cols_list(cv.take(i + 1)));
        }
        i = i + 1;
    }
    proof {
        assert(cv.take(cv.len() as int) =~= cv);
    }
    out
}

fn render_vals(vals: &Vec<SqlValue>) -> (r: String)
    ensures
        r@ == vals_list(val_views(vals@)),
{
    let ghost vv = val_views(vals@);
    let mut out = String::new();
    let mut i: usize = 0;
    while i < vals.len()
        invariant
            vv == val_views(vals@),
            i <= vv.len(),
            out@ == vals_list(vv.take(i as int)),
        decreases vv.len() - i,
    {
        if i > 0 {
            out.append(", ");
        }
        let lit = format_sql_value(&vals[i]);
        out.append(lit.as_str());
        proof {
            assert(vv.take(i + 1).drop_last() =~= vv.take(i as int));
            assert(vv.take(i + 1).last() == vv[i as int]);
            assert(out@ =~= vals_list(vv.take(i + 1)));
        }
        i = i + 1;
    }
    proof {
        assert(vv.take(vv.len() as int) =~= vv);
    }
    out
}

/// Render one table's rows as generic INSERT statements.
pub fn render_generic_table(table: &str, cols: &Vec<String>, rows: &Vec<Vec<SqlValue>>) -> (r:
    String)
    ensures
        r@ == generic_lines(table@, col_views(cols@), row_views(rows@)),
{
    let ghost rv = row_views(rows@);
    let mut out = String::new();
    let mut i: usize = 0;
    while i < rows.len()
        invariant
            rv == row_views(rows@),
            i <= rv.len(),
            out@ == generic_lines(table@, col_views(cols@), rv.take(i as int)),
        decreases rv.len() - i,
    {
        out.append("INSERT INTO \"");
        out.append(table);
        out.append("\" (");
        let cl = render_cols(cols);
        out.append(cl.as_str());
        out.append(") VALUES (");
        let vl = render_vals(&rows[i]);
        out.append(vl.as_str());
        out.append(");\n");
        proof {
            assert(rv.take(i + 1).drop_last() =~= rv.take(i as int));
            assert(rv.take(i + 1).last() == rv[i as int]);
            assert(out@ =~= generic_lines(table@, col_views(cols@), rv.take(i + 1)));
        }
        i = i + 1;
    }
    proof {
        assert(rv.take(rv.len() as int) =~= rv);
    }
    out
}

/// Rows that mirror the modelled mcp_servers table exactly.
pub open spec fn mcp_rows_match(m: Map<Seq<char>, super::McpRowV>, rows: Seq<McpRow>) -> bool {
    &&& forall|i: int, j: int|
        0 <= i < j < rows.len() ==> (#[trigger] rows[i]).id@ != (#[trigger] rows[j]).id@
    &&& forall|i: int|
        0 <= i < rows.len() ==> m.dom().contains((#[trigger] rows[i]).id@) && m[rows[i].id@]
            == rows[i].row_view()
    &&& forall|id: Seq<char>|
        m.dom().contains(id) ==> exists|i: int| 0 <= i < rows.len() && (#[trigger] rows[i]).id@
            == id
}

/// Rows that mirror the modelled providers table exactly.
pub open spec fn provider_rows_match(
    m: Map<(Seq<char>, Seq<char>), super::ProviderRowV>,
    rows: Seq<ProviderRow>,
) -> bool {
    &&& forall|i: int, j: int|
        0 <= i < j < rows.len() ==> ((#[trigger] rows[i]).id@, rows[i].app_type@) != ((
        #[trigger] rows[j]).id@, rows[j].app_type@)
    &&& forall|i: int|
        0 <= i < rows.len() ==> m.dom().contains(((#[trigger] rows[i]).id@, rows[i].app_type@))
            && m[(rows[i].id@, rows[i].app_type@)] == rows[i].row_view()
    &&& forall|k: (Seq<char>, Seq<char>)|
        m.dom().contains(k) ==> exists|i: int|
            0 <= i < rows.len() && ((#[trigger] rows[i]).id@, rows[i].app_type@) == k
}

/// Rows that mirror the modelled settings table exactly.
pub open spec fn settings_rows_match(
    m: Map<Seq<char>, Seq<char>>,
    rows: Seq<(String, String)>,
) -> bool {
    &&& forall|i: int, j: int|
        0 <= i < j < rows.len() ==> (#[trigger] rows[i]).0@ != (#[trigger] rows[j]).0@
    &&& forall|i: int|
        0 <= i < rows.len() ==> m.dom().contains((#[trigger] rows[i]).0@) && m[rows[i].0@]
            == rows[i].1@
    &&& forall|k: Seq<char>|
        m.dom().contains(k) ==> exists|i: int| 0 <= i < rows.len() && (#[trigger] rows[i]).0@ == k
}

impl Database {
    /// Export the store as portable SQL text. The snapshot is taken
    /// into a detached in-memory copy first, so the live handle is
    /// not held during the dump. The text is the exact dump of rows
    /// that mirror the modelled tables, followed by the remaining
    /// tables' rows rendered generically.
    pub fn export_sql(&self, timestamp: &str) -> (r: Result<String, AppError>)
        ensures
            match r {
                Ok(text) => exists|
                    providers: Seq<ProviderRow>,
                    mcp: Seq<McpRow>,
                    settings: Seq<(String, String)>,
                    extra: Seq<char>,
                |
                    {
                        &&& provider_rows_match(db_model(self.conn).providers, providers)
                        &&& mcp_rows_match(db_model(self.conn).mcp, mcp)
                        &&& settings_rows_match(db_model(self.conn).settings, settings)
                        &&& text@ == #[trigger] (dump_spec(
                            timestamp@,
                            db_model(self.conn).version,
                            providers,
                            mcp,
                            settings,
                        ) + extra)
                    },
                Err(e) => e is Database,
            },
    {
        let mut snapshot = match open_memory() {
            Ok(c) => c,
            Err(m) => {
                return Err(AppError::Database(m));
            },
        };
        if let Err(m) = backup_into(&self.conn, &mut snapshot) {
            return Err(AppError::Database(m));
        }
        let version = match super::get_user_version(&snapshot) {
            Ok(v) => v,
            Err(m) => {
                return Err(AppError::Database(m));
            },
        };
        let providers = match select_all_providers(&snapshot) {
            Ok(rows) => rows,
            Err(m) => {
                return Err(AppError::Database(m));
            },
        };
        let mcp = match select_all_mcp(&snapshot) {
            Ok(rows) => rows,
            Err(m) => {
                return Err(AppError::Database(m));
            },
        };
        let settings = match select_all_settings(&snapshot) {
            Ok(rows) => rows,
            Err(m) => {
                return Err(AppError::Database(m));
            },
        };
        proof {
            reveal_strlit("provider_endpoints");
            reveal_strlit("prompts");
            reveal_strlit("skills");
            reveal_strlit("skill_repos");
            assert(super::schema::is_sql_ident("provider_endpoints"@));
            assert(super::schema::is_sql_ident("prompts"@));
            assert(super::schema::is_sql_ident("skills"@));
            assert(super::schema::is_sql_ident("skill_repos"@));
        }
        let mut text = render_dump(timestamp, version, &providers, &mcp, &settings);
        let ghost t0 = text@;
        match append_generic_section(&snapshot, "provider_endpoints", &mut text) {
            Ok(_) => {},
            Err(e) => {
                return Err(e);
            },
        }
        let ghost t1 = text@;
        match append_generic_section(&snapshot, "prompts", &mut text) {
            Ok(_) => {},
            Err(e) => {
                return Err(e);
            },
        }
        let ghost t2 = text@;
        match append_generic_section(&snapshot, "skills", &mut text) {
            Ok(_) => {},
            Err(e) => {
                return Err(e);
            },
        }
        let ghost t3 = text@;
        match append_generic_section(&snapshot, "skill_repos", &mut text) {
            Ok(_) => {},
            Err(e) => {
                return Err(e);
            },
        }
        proof {
            let s1 = choose|sec: Seq<char>| t1 == t0 + sec;
            let s2 = choose|sec: Seq<char>| t2 == t1 + sec;
            let s3 = choose|sec: Seq<char>| t3 == t2 + sec;
            let s4 = choose|sec: Seq<char>| text@ == t3 + sec;
            assert(text@ =~= t0 + (s1 + s2 + s3 + s4));
        }
        Ok(text)
    }

    /// Accept an incoming SQL backup: apply it to a scratch store,
    /// normalize the scratch schema, and reject the whole import when
    /// both primary resource tables come out empty. Only an accepted
    /// backup is copied over the live store; a rejected or failed one
    /// leaves it untouched. For a deterministic batch, the restored
    /// rows are exactly the ones the sanitized batch builds.
    pub fn import_sql(&mut self, sql_text: &str) -> (r: Result<(), AppError>)
        ensures
            match r {
                Ok(_) => {
                    &&& db_model(final(self).conn).version == SCHEMA_VERSION
                    &&& !(db_model(final(self).conn).mcp.dom() =~= Set::empty()) || !(db_model(
                        final(self).conn,
                    ).providers.dom() =~= Set::empty())
                    &&& match super::batch_model_of(sanitize_spec(sql_text@)) {
                        Some(m) => db_model(final(self).conn).mcp == m.mcp && db_model(
                            final(self).conn,
                        ).providers == m.providers && db_model(final(self).conn).settings
                            == m.settings,
                        None => true,
                    }
                },
                Err(e) => {
                    &&& e is ImportValidation || e is Database || e is Schema
                    &&& db_model(final(self).conn) == db_model(old(self).conn)
                    &&& (e is ImportValidation ==> match super::batch_model_of(
                        sanitize_spec(sql_text@),
                    ) {
                        Some(m) => m.mcp.dom() =~= Set::empty() && m.providers.dom()
                            =~= Set::empty(),
                        None => true,
                    })
                },
            },
    {
        let cleaned = sanitize_import_sql(sql_text);
        let mut scratch = match open_memory() {
            Ok(c) => c,
            Err(m) => {
                return Err(AppError::Database(m));
            },
        };
        if let Err(m) = super::execute_batch_sql(&mut scratch, cleaned.as_str()) {
            return Err(AppError::Database(m));
        }
        if let Err(m) = create_tables_on_conn(&mut scratch) {
            return Err(AppError::Database(m));
        }
        if let Err(e) = apply_schema_migrations_on_conn(&mut scratch) {
            match e {
                AppError::Schema(msg) => {
                    return Err(AppError::Schema(msg));
                },
                other => {
                    return Err(AppError::Database(other.message()));
                },
            }
        }
        let n_providers = match count_providers(&scratch) {
            Ok(n) => n,
            Err(m) => {
                return Err(AppError::Database(m));
            },
        };
        let n_mcp = match count_mcp(&scratch) {
            Ok(n) => n,
            Err(m) => {
                return Err(AppError::Database(m));
            },
        };
        if n_providers == 0 && n_mcp == 0 {
            return Err(
                AppError::ImportValidation(
                    "the imported SQL holds no provider and no MCP data".to_owned(),
                ),
            );
        }
        match backup_into(&scratch, &mut self.conn) {
            Ok(_) => Ok(()),
            Err(m) => Err(AppError::Database(m)),
        }
    }
}

/// Dump one unmodelled table's rows generically onto the text.
fn append_generic_section(
    snapshot: &rusqlite::Connection,
    table: &str,
    text: &mut String,
) -> (r: Result<(), AppError>)
    requires
        super::schema::is_sql_ident(table@),
    ensures
        match r {
            Ok(_) => exists|section: Seq<char>| final(text)@ == old(text)@ + section,
            Err(e) => e is Database,
        },
{
    let cols = match table_columns(snapshot, table) {
        Ok(cols) => cols,
        Err(m) => {
            return Err(AppError::Database(m));
        },
    };
    let rows = match select_rows_generic(snapshot, table, cols.len()) {
        Ok(rows) => rows,
        Err(m) => {
            return Err(AppError::Database(m));
        },
    };
    let section = render_generic_table(table, &cols, &rows);
    text.append(section.as_str());
    Ok(())
}

/// Whether one statement survives the sanitizer: non-blank and free
/// of the reserved sqlite_sequence object.
pub open spec fn keeps_stmt(seg: Seq<char>) -> bool {
    trim_spec(seg).len() > 0 && !contains_spec(lower_spec(seg), "sqlite_sequence"@)
}

/// The sanitized import text: statement by statement, dropping blank
/// ones and any that mention SQLite's reserved sequence table.
pub open spec fn sanitize_spec(s: Seq<char>) -> Seq<char>
    decreases s.len(),
{
    let i = char_idx(s, ';');
    if 0 <= i < s.len() {
        (if keeps_stmt(s.take(i)) {
            trim_spec(s.take(i)) + ";\n"@
        } else {
            Seq::empty()
        }) + sanitize_spec(s.skip(i + 1))
    } else {
        if keeps_stmt(s) {
            trim_spec(s) + ";\n"@
        } else {
            Seq::empty()
        }
    }
}

/// Find the first `;` at or after `from`.
fn find_semi(cs: &Vec<char>, from: usize) -> (r: Option<usize>)
    requires
        from <= cs@.len(),
    ensures
        match r {
            Some(i) => from <= i < cs@.len() && char_idx(cs@.skip(from as int), ';') == i - from,
            None => char_idx(cs@.skip(from as int), ';') < 0,
        },
{
    let mut i: usize = from;
    while i < cs.len()
        invariant
            from <= i <= cs@.len(),
            forall|j: int| from <= j < i ==> cs@[j] != ';',
        decreases cs@.len() - i,
    {
        if cs[i] == ';' {
            proof {
                let sk = cs@.skip(from as int);
                assert(sk[i - from] == cs@[i as int]);
                assert forall|j: int| 0 <= j < i - from implies sk[j] != ';' by {
                    assert(sk[j] == cs@[from + j]);
                }
                lemma_char_idx_first(sk, ';', i - from as int);
            }
            return Some(i);
        }
        i = i + 1;
    }
    proof {
        let sk = cs@.skip(from as int);
        lemma_char_idx(sk, ';');
        if char_idx(sk, ';') >= 0 {
            assert(cs@[from + char_idx(sk, ';')] == ';');
        }
    }
    None
}

/// Keep one statement?
fn keeps_stmt_exec(seg: &Vec<char>) -> (r: bool)
    ensures
        r == keeps_stmt(seg@),
{
    let trimmed = trim_chars(seg);
    if trimmed.len() == 0 {
        return false;
    }
    let lowered = lower_chars(seg);
    let needle = str_chars("sqlite_sequence");
    !crate::strutil::chars_contain(&lowered, &needle)
}

/// Drop statements that would collide with SQLite's own bookkeeping
/// before applying an imported dump.
pub fn sanitize_import_sql(sql: &str) -> (r: String)
    ensures
        r@ == sanitize_spec(sql@),
{
    let cs = str_chars(sql);
    let total_len: usize = cs.len();
    proof {
        assert(cs@.len() == total_len);
    }
    let mut out: Vec<char> = Vec::new();
    let mut pos: usize = 0;
    let mut more: bool = true;
    proof {
        assert(cs@.skip(0) =~= cs@);
        assert(out@ + sanitize_spec(cs@) =~= sanitize_spec(cs@));
    }
    while more
        invariant
            pos <= cs@.len(),
            cs@.len() <= usize::MAX,
            cs@ == sql@,
            more ==> sanitize_spec(cs@) == out@ + sanitize_spec(cs@.skip(pos as int)),
            !more ==> out@ == sanitize_spec(cs@),
        decreases cs@.len() - pos + (if more {
            1int
        } else {
            0int
        }),
    {
        let ghost rest = cs@.skip(pos as int);
        let semi = find_semi(&cs, pos);
        match semi {
            Some(i) => {
                let mut seg: Vec<char> = Vec::new();
                let mut k: usize = pos;
                while k < i
                    invariant
                        pos <= k <= i < cs@.len(),
                        seg@ == cs@.subrange(pos as int, k as int),
                    decreases i - k,
                {
                    seg.push(cs[k]);
                    proof {
                        assert(seg@ =~= cs@.subrange(pos as int, k + 1));
                    }
                    k = k + 1;
                }
                proof {
                    assert(seg@ =~= rest.take(i - pos));
                }
                if keeps_stmt_exec(&seg) {
                    let trimmed = trim_chars(&seg);
                    let ghost base = out@;
                    let mut t: usize = 0;
                    while t < trimmed.len()
                        invariant
                            t <= trimmed@.len(),
                            out@ == base + trimmed@.take(t as int),
                        decreases trimmed@.len() - t,
                    {
                        out.push(trimmed[t]);
                        proof {
                            assert(out@ =~= base + trimmed@.take(t + 1));
                        }
                        t = t + 1;
                    }
                    out.push(';');
                    out.push('\n');
                    proof {
                        reveal_strlit(";\n");
                        assert(";\n"@.len() == 2);
                        assert(trimmed@.take(trimmed@.len() as int) =~= trimmed@);
                        assert(out@ =~= base + (trim_spec(seg@) + ";\n"@));
                    }
                }
                proof {
                    lemma_char_idx(rest, ';');
                    assert(rest.skip(i - pos + 1) =~= cs@.skip(i + 1));
                    assert(char_idx(rest, ';') == i - pos);
                    assert(sanitize_spec(rest) == (if keeps_stmt(rest.take(i - pos)) {
                        trim_spec(rest.take(i - pos)) + ";\n"@
                    } else {
                        Seq::<char>::empty()
                    }) + sanitize_spec(cs@.skip(i + 1)));
                    if keeps_stmt(seg@) {
                        assert(out@ + sanitize_spec(cs@.skip(i + 1)) =~= sanitize_spec(cs@));
                    } else {
                        assert(out@ + sanitize_spec(cs@.skip(i + 1)) =~= sanitize_spec(cs@));
                    }
                }
                pos = i + 1;
            },
            None => {
                let mut seg: Vec<char> = Vec::new();
                let mut k: usize = pos;
                while k < cs.len()
                    invariant
                        pos <= k <= cs@.len(),
                        seg@ == cs@.subrange(pos as int, k as int),
                    decreases cs@.len() - k,
                {
                    seg.push(cs[k]);
                    proof {
                        assert(seg@ =~= cs@.subrange(pos as int, k + 1));
                    }
                    k = k + 1;
                }
                proof {
                    assert(seg@ =~= rest);
                }
                if keeps_stmt_exec(&seg) {
                    let trimmed = trim_chars(&seg);
                    let ghost base = out@;
                    let mut t: usize = 0;
                    while t < trimmed.len()
                        invariant
                            t <= trimmed@.len(),
                            out@ == base + trimmed@.take(t as int),
                        decreases trimmed@.len() - t,
                    {
                        out.push(trimmed[t]);
                        proof {
                            assert(out@ =~= base + trimmed@.take(t + 1));
                        }
                        t = t + 1;
                    }
                    out.push(';');
                    out.push('\n');
                    proof {
                        reveal_strlit(";\n");
                        assert(";\n"@.len() == 2);
                        assert(trimmed@.take(trimmed@.len() as int) =~= trimmed@);
                        assert(out@ =~= base + (trim_spec(seg@) + ";\n"@));
                    }
                }
                proof {
                    lemma_char_idx(rest, ';');
                    assert(sanitize_spec(rest) == (if keeps_stmt(rest) {
                        trim_spec(rest) + ";\n"@
                    } else {
                        Seq::<char>::empty()
                    }));
                    assert(out@ =~= sanitize_spec(cs@));
                }
                pos = cs.len();
                more = false;
            },
        }
    }
    chars_string(&out)
}

/// The names to delete under the retention rule: while more than
/// `retain` snapshots exist, the oldest by modification time (the
/// earliest-listed among ties) goes first.
pub open spec fn retention_victims(entries: Seq<(Seq<char>, int)>, retain: int) -> Seq<Seq<char>>
    decreases entries.len(),
{
    if entries.len() <= retain || retain < 0 {
        Seq::empty()
    } else {
        let k = oldest_idx(entries);
        if 0 <= k < entries.len() {
            seq![entries[k].0] + retention_victims(entries.remove(k), retain)
        } else {
            Seq::empty()
        }
    }
}

/// The first index with minimal modification time.
pub open spec fn oldest_idx(entries: Seq<(Seq<char>, int)>) -> int
    decreases entries.len(),
{
    if entries.len() <= 1 {
        0
    } else {
        let rest = oldest_idx(entries.drop_first());
        if entries[0].1 <= entries[rest + 1].1 {
            0
        } else {
            rest + 1
        }
    }
}


proof fn lemma_oldest_idx_range(entries: Seq<(Seq<char>, int)>)
    requires
        entries.len() > 0,
    ensures
        0 <= oldest_idx(entries) < entries.len(),
        forall|i: int| 0 <= i < entries.len() ==> entries[oldest_idx(entries)].1 <= (
        #[trigger] entries[i]).1,
        forall|i: int| 0 <= i < oldest_idx(entries) ==> entries[oldest_idx(entries)].1 < (
        #[trigger] entries[i]).1,
    decreases entries.len(),
{
    if entries.len() > 1 {
        lemma_oldest_idx_range(entries.drop_first());
        let rest = oldest_idx(entries.drop_first());
        assert forall|i: int| 0 <= i < entries.len() implies entries[oldest_idx(entries)].1 <= (
        #[trigger] entries[i]).1 by {
            if i > 0 {
                assert(entries.drop_first()[i - 1] == entries[i]);
            }
        }
        assert forall|i: int| 0 <= i < oldest_idx(entries) implies entries[oldest_idx(entries)].1
            < (#[trigger] entries[i]).1 by {
            if i > 0 {
                assert(entries.drop_first()[i - 1] == entries[i]);
            }
        }
    }
}

/// Position of the first entry with minimal modification time.
fn oldest_entry(entries: &Vec<(String, i64)>) -> (r: usize)
    requires
        entries@.len() > 0,
    ensures
        r < entries@.len(),
        r == oldest_idx(times_view(entries@)),
{
    let ghost tv = times_view(entries@);
    let mut best: usize = 0;
    let mut i: usize = 1;
    while i < entries.len()
        invariant
            tv == times_view(entries@),
            entries@.len() == tv.len(),
            best < i <= tv.len() || (best == 0 && i <= tv.len()),
            best < tv.len(),
            forall|j: int| 0 <= j < i ==> tv[best as int].1 <= (#[trigger] tv[j]).1,
            forall|j: int| 0 <= j < best ==> tv[best as int].1 < (#[trigger] tv[j]).1,
        decreases tv.len() - i,
    {
        if entries[i].1 < entries[best].1 {
            best = i;
        }
        i = i + 1;
    }
    proof {
        lemma_oldest_idx_range(tv);
        let k = oldest_idx(tv);
        if k != best as int {
            if k < best {
                assert(tv[best as int].1 < tv[k].1);
            } else {
                assert(tv[k].1 <= tv[best as int].1);
                assert(tv[best as int].1 <= tv[k].1);
                assert(forall|j: int| 0 <= j < k ==> tv[k].1 < (#[trigger] tv[j]).1);
                assert(tv[k].1 < tv[best as int].1);
            }
        }
    }
    best
}

/// View of a list of (file name, modification time) pairs.
pub open spec fn times_view(entries: Seq<(String, i64)>) -> Seq<(Seq<char>, int)> {
    Seq::new(entries.len(), |i: int| (entries[i].0@, entries[i].1 as int))
}

/// Which snapshot files the retention rule deletes, given each file's
/// name and modification time: while more than the cap remain, the
/// oldest by modification time goes, earliest-listed first among ties.
pub fn backups_to_delete(entries: &Vec<(String, i64)>, retain: usize) -> (r: Vec<String>)
    ensures
        crate::app_config::tags_view(r@) == retention_victims(times_view(entries@), retain as int),
{
    let mut work: Vec<(String, i64)> = Vec::new();
    let mut i: usize = 0;
    while i < entries.len()
        invariant
            i <= entries@.len(),
            work@.len() == i,
            forall|j: int|
                0 <= j < i ==> (#[trigger] work@[j]).0@ == entries@[j].0@ && work@[j].1
                    == entries@[j].1,
        decreases entries@.len() - i,
    {
        work.push((entries[i].0.clone(), entries[i].1));
        i = i + 1;
    }
    proof {
        assert(times_view(work@) =~= times_view(entries@));
    }
    let mut out: Vec<String> = Vec::new();
    while work.len() > retain
        invariant
            crate::app_config::tags_view(out@) + retention_victims(times_view(work@), retain as int)
                == retention_victims(times_view(entries@), retain as int),
        decreases work@.len(),
    {
        let ghost before = times_view(work@);
        let k = oldest_entry(&work);
        let victim = work.remove(k);
        out.push(victim.0);
        proof {
            lemma_oldest_idx_range(before);
            assert(times_view(work@) =~= before.remove(oldest_idx(before)));
            assert(retention_victims(before, retain as int) == seq![before[oldest_idx(before)].0]
                + retention_victims(before.remove(oldest_idx(before)), retain as int));
            assert(crate::app_config::tags_view(out@) =~= crate::app_config::tags_view(
                out@.drop_last(),
            ).push(before[oldest_idx(before)].0));
            assert(crate::app_config::tags_view(out@) + retention_victims(
                times_view(work@),
                retain as int,
            ) =~= retention_victims(times_view(entries@), retain as int));
        }
    }
    proof {
        assert(retention_victims(times_view(work@), retain as int) =~= Seq::<Seq<char>>::empty());
        assert(crate::app_config::tags_view(out@) + Seq::<Seq<char>>::empty()
            =~= crate::app_config::tags_view(out@));
    }
    out
}

} // verus!
