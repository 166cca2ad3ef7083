//! Trusted bridge between JSON text and the in-crate model.
//!
//! Parsing and rendering are done by serde_json; everything this crate
//! proves about documents goes through the two names `json_doc_of` and
//! the render names, which stand for what serde_json computes.

use vstd::prelude::*;

use crate::model::{JVal, JsonVal};

verus! {

#[verifier::external_type_specification]
#[verifier::external_body]
pub struct ExSerdeValue(serde_json::Value);

/// The document denoted by a JSON text, if it is valid JSON.
pub uninterp spec fn json_doc_of(s: Seq<char>) -> Option<JVal>;

/// The pretty-printed text serde_json emits for a document.
pub uninterp spec fn json_text_of(v: JVal) -> Seq<char>;

/// The compact text serde_json emits for a document.
pub uninterp spec fn json_compact_of(v: JVal) -> Seq<char>;

/// Converts a parsed serde_json value into the model, variant by
/// variant; an integer that fits i64 stays an integer, any other
/// number keeps its literal text.
#[verifier::external_body]
fn to_model(v: serde_json::Value) -> JsonVal {
    match v {
        serde_json::Value::Null => JsonVal::Null,
        serde_json::Value::Bool(b) => JsonVal::Bool(b),
        serde_json::Value::Number(n) => match n.as_i64() {
            Some(i) => JsonVal::Int(i),
            None => JsonVal::Float(n.to_string()),
        },
        serde_json::Value::String(s) => JsonVal::Str(s),
        serde_json::Value::Array(a) => JsonVal::Arr(a.into_iter().map(to_model).collect()),
        serde_json::Value::Object(o) => JsonVal::Obj(
            o.into_iter().map(|(k, v)| (k, to_model(v))).collect(),
        ),
    }
}

/// Converts a model value back to serde_json, variant by variant; a
/// kept float text is re-read as a JSON number, or null if unreadable.
#[verifier::external_body]
fn from_model(v: &JsonVal) -> serde_json::Value {
    match v {
        JsonVal::Null => serde_json::Value::Null,
        JsonVal::Bool(b) => serde_json::Value::Bool(*b),
        JsonVal::Int(n) => serde_json::Value::Number(serde_json::Number::from(*n)),
        JsonVal::Float(s) => serde_json::from_str(s).unwrap_or(serde_json::Value::Null),
        JsonVal::Str(s) => serde_json::Value::String(s.clone()),
        JsonVal::Arr(a) => serde_json::Value::Array(a.iter().map(from_model).collect()),
        JsonVal::Obj(o) => serde_json::Value::Object(
            o.iter().map(|(k, v)| (k.clone(), from_model(v))).collect(),
        ),
    }
}

/// Relies on serde_json::from_str: succeeds exactly on valid JSON
/// text, and the parsed document is a function of the text alone.
#[verifier::external_body]
pub fn parse_json(text: &str) -> (r: Result<JsonVal, String>)
    ensures
        match r {
            Ok(v) => json_doc_of(text@) == Some(v@),
            Err(_) => json_doc_of(text@) is None,
        },
{
    match serde_json::from_str::<serde_json::Value>(text) {
        Ok(v) => Ok(to_model(v)),
        Err(e) => Err(e.to_string()),
    }
}

/// Relies on serde_json::to_string_pretty: the emitted text is a
/// function of the document alone.
#[verifier::external_body]
pub fn render_json_pretty(v: &JsonVal) -> (r: String)
    ensures
        r@ == json_text_of(v@),
{
    match serde_json::to_string_pretty(&from_model(v)) {
        Ok(s) => s,
        Err(_) => String::new(),
    }
}

/// Relies on serde_json::to_string: the emitted text is a function of
/// the document alone.
#[verifier::external_body]
pub fn render_json_compact(v: &JsonVal) -> (r: String)
    ensures
        r@ == json_compact_of(v@),
{
    match serde_json::to_string(&from_model(v)) {
        Ok(s) => s,
        Err(_) => String::new(),
    }
}

} // verus!
