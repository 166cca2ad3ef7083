//! Trusted bridge between TOML text and the in-crate model.
//!
//! Importing parses with the toml crate into the model; exporting
//! edits a toml_edit document in place, so comments, formatting and
//! unrelated keys outside the touched tables survive byte for byte.

use vstd::prelude::*;

use crate::model::{TVal, TomlVal};

verus! {

#[verifier::external_type_specification]
#[verifier::external_body]
pub struct ExTomlValue(toml::Value);

#[verifier::external_type_specification]
#[verifier::external_body]
pub struct ExDocumentMut(toml_edit::DocumentMut);

#[verifier::external_type_specification]
#[verifier::external_body]
pub struct ExTomlItem(toml_edit::Item);

/// The table a TOML text denotes, if it is valid TOML.
pub uninterp spec fn toml_doc_of(s: Seq<char>) -> Option<TVal>;

/// What a toml_edit document holds: its top-level keys and their
/// values, abstracted to the model.
pub uninterp spec fn doc_model(d: toml_edit::DocumentMut) -> Map<Seq<char>, TVal>;

/// The exact text a toml_edit document prints as.
pub uninterp spec fn doc_text_of(d: toml_edit::DocumentMut) -> Seq<char>;

/// The top-level model toml_edit reads from a TOML text.
pub uninterp spec fn edit_doc_model_of(s: Seq<char>) -> Option<Map<Seq<char>, TVal>>;

/// Whether the item conversion accepts a value: every float and
/// date-time text in it reads back as that same kind.
pub uninterp spec fn writable_of(v: TVal) -> bool;

/// Converts a parsed toml value to the model, variant by variant;
/// floats and date-times keep their display text.
#[verifier::external_body]
fn to_model(v: toml::Value) -> TomlVal {
    match v {
        toml::Value::String(s) => TomlVal::Str(s),
        toml::Value::Integer(i) => TomlVal::Int(i),
        toml::Value::Float(f) => TomlVal::Float(f.to_string()),
        toml::Value::Boolean(b) => TomlVal::Bool(b),
        toml::Value::Datetime(d) => TomlVal::Datetime(d.to_string()),
        toml::Value::Array(a) => TomlVal::Arr(a.into_iter().map(to_model).collect()),
        toml::Value::Table(t) => TomlVal::Table(
            t.into_iter().map(|(k, v)| (k, to_model(v))).collect(),
        ),
    }
}

/// Relies on toml::from_str: succeeds exactly on valid TOML text, and
/// the parsed table is a function of the text alone.
#[verifier::external_body]
pub fn parse_toml_table(text: &str) -> (r: Result<TomlVal, String>)
    ensures
        match r {
            Ok(v) => toml_doc_of(text@) == Some(v@) && v is Table,
            Err(_) => toml_doc_of(text@) is None,
        },
{
    match toml::from_str::<toml::Table>(text) {
        Ok(t) => Ok(to_model(toml::Value::Table(t))),
        Err(e) => Err(e.to_string()),
    }
}

/// Converts a model scalar to a toml_edit item. A float or date-time
/// whose text does not read back as that same kind is refused, so the
/// written document always shows the model's literal text.
#[verifier::external_body]
fn from_model_scalar(v: &TomlVal) -> Result<toml_edit::Item, String> {
    match v {
        TomlVal::Str(s) => Ok(toml_edit::value(s.as_str())),
        TomlVal::Int(i) => Ok(toml_edit::value(*i)),
        TomlVal::Bool(b) => Ok(toml_edit::value(*b)),
        TomlVal::Float(s) => match s.parse::<toml_edit::Value>() {
            Ok(fv) if fv.is_float() => Ok(toml_edit::Item::Value(fv)),
            _ => Err(s.clone()),
        },
        TomlVal::Datetime(s) => match s.parse::<toml_edit::Value>() {
            Ok(dv) if dv.is_datetime() => Ok(toml_edit::Item::Value(dv)),
            _ => Err(s.clone()),
        },
        _ => Err(String::new()),
    }
}

/// Converts a model array to a toml_edit array item, element by
/// element.
#[verifier::external_body]
fn from_model_array(a: &Vec<TomlVal>) -> Result<toml_edit::Item, String> {
    let mut arr = toml_edit::Array::default();
    for item in a.iter() {
        match from_model(item)? {
            toml_edit::Item::Value(val) => arr.push_formatted(val),
            _ => return Err(String::new()),
        }
    }
    Ok(toml_edit::Item::Value(toml_edit::Value::Array(arr)))
}

/// Converts a model table to a toml_edit table item, entry by entry.
#[verifier::external_body]
fn from_model_table(entries: &Vec<(String, TomlVal)>) -> Result<toml_edit::Item, String> {
    let mut t = toml_edit::Table::new();
    for (k, val) in entries.iter() {
        t.insert(k.as_str(), from_model(val)?);
    }
    Ok(toml_edit::Item::Table(t))
}

/// Converts a model value to a toml_edit item, variant by variant.
#[verifier::external_body]
fn from_model(v: &TomlVal) -> Result<toml_edit::Item, String> {
    match v {
        TomlVal::Arr(a) => from_model_array(a),
        TomlVal::Table(entries) => from_model_table(entries),
        other => from_model_scalar(other),
    }
}

/// Relies on toml_edit's FromStr for DocumentMut: succeeds exactly on
/// valid TOML text; the document's top-level model is a function of
/// the text alone.
#[verifier::external_body]
pub fn parse_toml_document(text: &str) -> (r: Result<toml_edit::DocumentMut, String>)
    ensures
        match r {
            Ok(d) => edit_doc_model_of(text@) == Some(doc_model(d)),
            Err(_) => edit_doc_model_of(text@) is None,
        },
{
    match text.parse::<toml_edit::DocumentMut>() {
        Ok(d) => Ok(d),
        Err(e) => Err(e.to_string()),
    }
}

/// Relies on toml_edit::DocumentMut::new: an empty document.
#[verifier::external_body]
pub fn new_toml_document() -> (r: toml_edit::DocumentMut)
    ensures
        doc_model(r) =~= Map::empty(),
{
    toml_edit::DocumentMut::new()
}

/// Relies on toml_edit::Table::remove on the document root: the key
/// leaves the top level; everything else is untouched.
#[verifier::external_body]
pub fn doc_remove_key(doc: &mut toml_edit::DocumentMut, key: &str) -> (r: bool)
    ensures
        doc_model(*final(doc)) == doc_model(*old(doc)).remove(key@),
        r == doc_model(*old(doc)).dom().contains(key@),
{
    doc.as_table_mut().remove(key).is_some()
}

/// Relies on toml_edit table-like access: removes `inner` from the
/// table stored under `outer`, if both exist; reports whether an entry
/// was actually removed.
#[verifier::external_body]
pub fn doc_remove_nested(doc: &mut toml_edit::DocumentMut, outer: &str, inner: &str) -> (r: bool)
    ensures
        ({
            let m = doc_model(*old(doc));
            if m.dom().contains(outer@) && m[outer@] is Table {
                &&& doc_model(*final(doc)) == m.insert(
                    outer@,
                    TVal::Table(crate::model::tbl_remove(m[outer@]->Table_0, inner@)),
                )
                &&& r == crate::model::tbl_has(m[outer@]->Table_0, inner@)
            } else {
                doc_model(*final(doc)) == m && r == false
            }
        }),
{
    if let Some(item) = doc.get_mut(outer) {
        if let Some(tbl) = item.as_table_like_mut() {
            return tbl.remove(inner).is_some();
        }
    }
    false
}

/// Relies on toml_edit::Table::insert on the document root: exactly
/// when the value is writable, the key afterwards holds the value as
/// the index-preserving table writer stores it (`tdedup`: a duplicate
/// key keeps its first position and last value) and nothing else
/// changes; otherwise the document is untouched.
#[verifier::external_body]
pub fn doc_set_key(doc: &mut toml_edit::DocumentMut, key: &str, value: &TomlVal) -> (r: Result<
    (),
    String,
>)
    ensures
        match r {
            Ok(_) => writable_of(value@) && doc_model(*final(doc)) == doc_model(*old(doc)).insert(
                key@,
                crate::model::tdedup(value@),
            ),
            Err(_) => !writable_of(value@) && doc_model(*final(doc)) == doc_model(*old(doc)),
        },
{
    match from_model(value) {
        Ok(item) => {
            doc.as_table_mut().insert(key, item);
            Ok(())
        },
        Err(e) => Err(e),
    }
}

/// Relies on toml_edit's Display for DocumentMut: the printed text is
/// a function of the document alone, and preserves the formatting of
/// everything that was not edited.
#[verifier::external_body]
pub fn doc_to_text(doc: &toml_edit::DocumentMut) -> (r: String)
    ensures
        r@ == doc_text_of(*doc),
{
    doc.to_string()
}

} // verus!
