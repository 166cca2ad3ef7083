//! Per-transport validation of server definitions.
//!
//! A server spec is a JSON object. Its `type` field, when it is a
//! string, names the transport; when it is absent or not a string the
//! transport is `stdio`. Exactly `stdio`, `http` and `sse` are valid:
//! `stdio` requires a non-blank `command`, the other two a non-blank
//! `url`.

use vstd::prelude::*;

use crate::errors::AppError;
use crate::model::{obj_get, JsonVal, JVal};
use crate::strutil;

verus! {

/// The named string field, or the empty string when it is absent or
/// not a string.
pub open spec fn str_field(v: JVal, key: Seq<char>) -> Seq<char> {
    match v.str_of(key) {
        Some(s) => s,
        None => Seq::empty(),
    }
}

/// Non-blank: something other than ASCII whitespace remains.
pub open spec fn nonblank(s: Seq<char>) -> bool {
    strutil::trim_spec(s).len() > 0
}

/// Whether the spec's transport is `stdio` (explicitly, by omission,
/// or because `type` is not a string).
pub open spec fn is_stdio(v: JVal) -> bool {
    v.str_of("type"@) is None || v.str_of("type"@) == Some("stdio"@)
}

pub open spec fn is_http(v: JVal) -> bool {
    v.str_of("type"@) == Some("http"@)
}

pub open spec fn is_sse(v: JVal) -> bool {
    v.str_of("type"@) == Some("sse"@)
}

/// What the validator accepts.
pub open spec fn valid_server_spec(v: JVal) -> bool {
    &&& v is Obj
    &&& is_stdio(v) || is_http(v) || is_sse(v)
    &&& is_stdio(v) ==> nonblank(str_field(v, "command"@))
    &&& is_http(v) || is_sse(v) ==> nonblank(str_field(v, "url"@))
}

/// Read the named field as a string, as the validator sees it:
/// the empty string when absent or not a string.
fn read_str_field(entries: &Vec<(String, JsonVal)>, key: &str) -> (r: String)
    ensures
        r@ == str_field(JVal::Obj(crate::model::eview(entries@)), key@),
{
    match obj_get(entries, key) {
        Some(v) => match v {
            JsonVal::Str(s) => s.clone(),
            _ => String::new(),
        },
        None => String::new(),
    }
}

/// Read the named field as `Some(text)` only when it is a string.
fn read_str_opt(entries: &Vec<(String, JsonVal)>, key: &str) -> (r: Option<String>)
    ensures
        match r {
            Some(s) => JVal::Obj(crate::model::eview(entries@)).str_of(key@) == Some(s@),
            None => JVal::Obj(crate::model::eview(entries@)).str_of(key@) is None,
        },
{
    match obj_get(entries, key) {
        Some(v) => match v {
            JsonVal::Str(s) => Some(s.clone()),
            _ => None,
        },
        None => None,
    }
}

/// Accept `stdio` / `http` / `sse` (or an omitted type, as `stdio`),
/// each with its required field, and nothing else.
pub fn validate_server_spec(spec: &JsonVal) -> (r: Result<(), AppError>)
    ensures
        r is Ok <==> valid_server_spec(spec@),
        r is Err ==> r->Err_0 is McpValidation,
{
    let entries = match spec {
        JsonVal::Obj(entries) => entries,
        _ => {
            return Err(
                AppError::McpValidation(
                    strutil::chars_string(
                        &strutil::str_chars("MCP server definition must be a JSON object"),
                    ),
                ),
            );
        },
    };
    proof {
        crate::model::lemma_obj_entries(*entries);
    }
    let t_opt = read_str_opt(entries, "type");
    let (stdio, http, sse): (bool, bool, bool) = match &t_opt {
        Some(t) => {
            let is_s = strutil::str_eq(t.as_str(), "stdio");
            let is_h = strutil::str_eq(t.as_str(), "http");
            let is_e = strutil::str_eq(t.as_str(), "sse");
            (is_s, is_h, is_e)
        },
        None => (true, false, false),
    };
    if !(stdio || http || sse) {
        return Err(
            AppError::McpValidation(
                strutil::chars_string(
                    &strutil::str_chars(
                        "MCP server type must be 'stdio', 'http' or 'sse' (or omitted for stdio)",
                    ),
                ),
            ),
        );
    }
    if stdio {
        let cmd = read_str_field(entries, "command");
        let trimmed = strutil::trim_str(cmd.as_str());
        if trimmed.as_str().is_empty() {
            return Err(
                AppError::McpValidation(
                    strutil::chars_string(
                        &strutil::str_chars("stdio MCP server is missing the command field"),
                    ),
                ),
            );
        }
    }
    if http || sse {
        let url = read_str_field(entries, "url");
        let trimmed = strutil::trim_str(url.as_str());
        if trimmed.as_str().is_empty() {
            return Err(
                AppError::McpValidation(
                    strutil::chars_string(
                        &strutil::str_chars("http/sse MCP server is missing the url field"),
                    ),
                ),
            );
        }
    }
    Ok(())
}

} // verus!
