//! JSON-to-TOML value conversion, specialised to the server shape.
//!
//! The policy is all-or-nothing: a field either converts completely to
//! a native TOML shape or is omitted, so the emitted document is always
//! valid. Scalars map one to one; an array converts only when every
//! element is a scalar of one kind; an object converts only when every
//! value is a string; null and deeper nesting are omitted.

use vstd::prelude::*;

use crate::errors::AppError;
use crate::model::{eview, obj_get, tview, JVal, JsonVal, TVal, TomlVal};
use crate::strutil;
use crate::validation::nonblank;

verus! {

pub open spec fn is_json_scalar(v: JVal) -> bool {
    v is Str || v is Int || v is Float || v is Bool
}

/// Scalars of one kind: all strings, all integers, all floats or all booleans.
pub open spec fn same_scalar_kind(a: Seq<JVal>) -> bool {
    (forall|i: int| 0 <= i < a.len() ==> (#[trigger] a[i]) is Str) || (forall|i: int|
        0 <= i < a.len() ==> (#[trigger] a[i]) is Int) || (forall|i: int|
        0 <= i < a.len() ==> (#[trigger] a[i]) is Float) || (forall|i: int|
        0 <= i < a.len() ==> (#[trigger] a[i]) is Bool)
}

pub open spec fn scalar_to_toml(v: JVal) -> TVal {
    match v {
        JVal::Str(s) => TVal::Str(s),
        JVal::Int(n) => TVal::Int(n),
        JVal::Float(f) => TVal::Float(f),
        JVal::Bool(b) => TVal::Bool(b),
        _ => TVal::Bool(false),
    }
}

/// Whether every entry value of an object is a string.
pub open spec fn all_string_values(o: Seq<(Seq<char>, JVal)>) -> bool {
    forall|i: int| 0 <= i < o.len() ==> (#[trigger] o[i]).1 is Str
}

pub open spec fn obj_to_table(o: Seq<(Seq<char>, JVal)>) -> Seq<(Seq<char>, TVal)> {
    Seq::new(o.len(), |i: int| (o[i].0, scalar_to_toml(o[i].1)))
}

/// The generic converter: `Some` exactly for the representable shapes.
pub open spec fn j2t_spec(v: JVal) -> Option<TVal> {
    match v {
        JVal::Str(s) => Some(TVal::Str(s)),
        JVal::Int(n) => Some(TVal::Int(n)),
        JVal::Float(f) => Some(TVal::Float(f)),
        JVal::Bool(b) => Some(TVal::Bool(b)),
        JVal::Arr(a) => if a.len() > 0 && (forall|i: int|
            0 <= i < a.len() ==> is_json_scalar(#[trigger] a[i])) && same_scalar_kind(a) {
            Some(TVal::Arr(Seq::new(a.len(), |i: int| scalar_to_toml(a[i]))))
        } else {
            None
        },
        JVal::Obj(o) => if o.len() > 0 && all_string_values(o) {
            Some(TVal::Table(obj_to_table(o)))
        } else {
            None
        },
        JVal::Null => None,
    }
}

/// Convert one JSON value to a TOML item, or omit it.
///
/// The field name parameter only labels diagnostics in logs of the
/// surrounding application; it does not influence the result.
pub fn json_value_to_toml_item(value: &JsonVal, field_name: &str) -> (r: Option<TomlVal>)
    ensures
        match r {
            Some(t) => j2t_spec(value@) == Some(t@),
            None => j2t_spec(value@) is None,
        },
{
    match value {
        JsonVal::Str(s) => Some(TomlVal::Str(s.clone())),
        JsonVal::Int(n) => Some(TomlVal::Int(*n)),
        JsonVal::Float(f) => Some(TomlVal::Float(f.clone())),
        JsonVal::Bool(b) => Some(TomlVal::Bool(*b)),
        JsonVal::Arr(a) => {
            proof {
                crate::model::lemma_arr_elems(*a);
            }
            if a.len() == 0 {
                return None;
            }
            let mut out: Vec<TomlVal> = Vec::new();
            let mut all_str: bool = true;
            let mut all_int: bool = true;
            let mut all_float: bool = true;
            let mut all_bool: bool = true;
            let mut i: usize = 0;
            let ghost av = crate::model::aview(a@);
            while i < a.len()
                invariant
                    value@ == JVal::Arr(av),
                    av == crate::model::aview(a@),
                    i <= a@.len(),
                    out@.len() == i,
                    forall|j: int| 0 <= j < i ==> is_json_scalar(#[trigger] av[j]),
                    forall|j: int| 0 <= j < i ==> tview(#[trigger] out@[j]) == scalar_to_toml(av[j]),
                    all_str == (forall|j: int| 0 <= j < i ==> (#[trigger] av[j]) is Str),
                    all_int == (forall|j: int| 0 <= j < i ==> (#[trigger] av[j]) is Int),
                    all_float == (forall|j: int| 0 <= j < i ==> (#[trigger] av[j]) is Float),
                    all_bool == (forall|j: int| 0 <= j < i ==> (#[trigger] av[j]) is Bool),
                decreases a@.len() - i,
            {
                match &a[i] {
                    JsonVal::Str(s) => {
                        out.push(TomlVal::Str(s.clone()));
                        all_int = false;
                        all_float = false;
                        all_bool = false;
                    },
                    JsonVal::Int(n) => {
                        out.push(TomlVal::Int(*n));
                        all_str = false;
                        all_float = false;
                        all_bool = false;
                    },
                    JsonVal::Float(f) => {
                        out.push(TomlVal::Float(f.clone()));
                        all_str = false;
                        all_int = false;
                        all_bool = false;
                    },
                    JsonVal::Bool(b) => {
                        out.push(TomlVal::Bool(*b));
                        all_str = false;
                        all_int = false;
                        all_float = false;
                    },
                    _ => {
                        proof {
                            assert(!is_json_scalar(av[i as int]));
                        }
                        return None;
                    },
                }
                i = i + 1;
            }
            if all_str || all_int || all_float || all_bool {
                proof {
                    crate::model::lemma_toml_arr_elems(out);
                    assert forall|k: int| 0 <= k < out@.len() implies tview(out@[k])
                        == scalar_to_toml(av[k]) by {}
                    assert(Seq::new(out@.len(), |k: int| tview(out@[k])) =~= Seq::new(
                        av.len(),
                        |k: int| scalar_to_toml(av[k]),
                    ));
                }
                Some(TomlVal::Arr(out))
            } else {
                proof {
                    assert(!same_scalar_kind(av)) by {
                        assert(!(forall|j: int| 0 <= j < av.len() ==> (#[trigger] av[j]) is Str));
                        assert(!(forall|j: int| 0 <= j < av.len() ==> (#[trigger] av[j]) is Int));
                        assert(!(forall|j: int| 0 <= j < av.len() ==> (#[trigger] av[j]) is Float));
                        assert(!(forall|j: int| 0 <= j < av.len() ==> (#[trigger] av[j]) is Bool));
                    }
                }
                None
            }
        },
        JsonVal::Obj(o) => {
            proof {
                crate::model::lemma_obj_entries(*o);
            }
            if o.len() == 0 {
                return None;
            }
            let mut out: Vec<(String, TomlVal)> = Vec::new();
            let mut i: usize = 0;
            let ghost ov = eview(o@);
            while i < o.len()
                invariant
                    value@ == JVal::Obj(ov),
                    ov == eview(o@),
                    i <= o@.len(),
                    out@.len() == i,
                    forall|j: int| 0 <= j < i ==> (#[trigger] ov[j]).1 is Str,
                    forall|j: int|
                        0 <= j < i ==> (#[trigger] out@[j]).0@ == ov[j].0 && tview(out@[j].1)
                            == scalar_to_toml(ov[j].1),
                decreases o@.len() - i,
            {
                match &o[i].1 {
                    JsonVal::Str(s) => {
                        out.push((o[i].0.clone(), TomlVal::Str(s.clone())));
                    },
                    _ => {
                        proof {
                            assert(!((ov[i as int]).1 is Str));
                        }
                        return None;
                    },
                }
                i = i + 1;
            }
            proof {
                crate::model::lemma_table_entries(out);
                assert forall|k: int| 0 <= k < out@.len() implies crate::model::tev(out@)[k]
                    == obj_to_table(ov)[k] by {}
                assert(crate::model::tev(out@) =~= obj_to_table(ov));
            }
            Some(TomlVal::Table(out))
        },
        JsonVal::Null => None,
    }
}


/// The string elements of an array, in order; other elements dropped.
pub open spec fn str_elems(a: Seq<JVal>) -> Seq<TVal>
    decreases a.len(),
{
    if a.len() == 0 {
        Seq::empty()
    } else {
        str_elems(a.drop_last()) + (match a.last() {
            JVal::Str(s) => seq![TVal::Str(s)],
            _ => Seq::empty(),
        })
    }
}

/// The string-valued entries of an object, in order; others dropped.
pub open spec fn str_entries(o: Seq<(Seq<char>, JVal)>) -> Seq<(Seq<char>, TVal)>
    decreases o.len(),
{
    if o.len() == 0 {
        Seq::empty()
    } else {
        str_entries(o.drop_last()) + (match o.last().1 {
            JVal::Str(s) => seq![(o.last().0, TVal::Str(s))],
            _ => Seq::empty(),
        })
    }
}

/// The transport written to the table: the `type` string, `stdio` when
/// absent or not a string.
pub open spec fn transport_name(v: JVal) -> Seq<char> {
    match v.str_of("type"@) {
        Some(t) => t,
        None => "stdio"@,
    }
}

/// The fields handled by the typed part of the encoder, per transport.
pub open spec fn is_core_key(t: Seq<char>, k: Seq<char>) -> bool {
    if t == "stdio"@ {
        k == "type"@ || k == "command"@ || k == "args"@ || k == "env"@ || k == "cwd"@
    } else if t == "http"@ || t == "sse"@ {
        k == "type"@ || k == "url"@ || k == "http_headers"@
    } else {
        k == "type"@
    }
}

pub open spec fn stdio_parts(v: JVal) -> Seq<(Seq<char>, TVal)> {
    seq![("command"@, TVal::Str(crate::validation::str_field(v, "command"@)))] + (match v.get(
        "args"@,
    ) {
        Some(JVal::Arr(a)) => if str_elems(a).len() > 0 {
            seq![("args"@, TVal::Arr(str_elems(a)))]
        } else {
            Seq::empty()
        },
        _ => Seq::empty(),
    }) + (match v.str_of("cwd"@) {
        Some(c) => if nonblank(c) {
            seq![("cwd"@, TVal::Str(c))]
        } else {
            Seq::empty()
        },
        _ => Seq::empty(),
    }) + (match v.get("env"@) {
        Some(JVal::Obj(o)) => if str_entries(o).len() > 0 {
            seq![("env"@, TVal::Table(str_entries(o)))]
        } else {
            Seq::empty()
        },
        _ => Seq::empty(),
    })
}

pub open spec fn net_parts(v: JVal) -> Seq<(Seq<char>, TVal)> {
    seq![("url"@, TVal::Str(crate::validation::str_field(v, "url"@)))] + (match v.get("headers"@) {
        Some(JVal::Obj(o)) => if str_entries(o).len() > 0 {
            seq![("http_headers"@, TVal::Table(str_entries(o)))]
        } else {
            Seq::empty()
        },
        _ => Seq::empty(),
    })
}

/// The generically converted non-core fields, in input order.
pub open spec fn ext_parts(entries: Seq<(Seq<char>, JVal)>, t: Seq<char>) -> Seq<
    (Seq<char>, TVal),
>
    decreases entries.len(),
{
    if entries.len() == 0 {
        Seq::empty()
    } else {
        ext_parts(entries.drop_last(), t) + (if is_core_key(t, entries.last().0) {
            Seq::empty()
        } else {
            match j2t_spec(entries.last().1) {
                Some(item) => seq![(entries.last().0, item)],
                None => Seq::empty(),
            }
        })
    }
}

/// The TOML table written for one server definition: the transport
/// discriminant, the typed core fields of that transport, then every
/// other representable field in input order.
pub open spec fn server_table_spec(v: JVal) -> Seq<(Seq<char>, TVal)> {
    let t = transport_name(v);
    seq![("type"@, TVal::Str(t))] + (if t == "stdio"@ {
        stdio_parts(v)
    } else if t == "http"@ || t == "sse"@ {
        net_parts(v)
    } else {
        Seq::empty()
    }) + (if v is Obj {
        ext_parts(v.entries(), t)
    } else {
        Seq::empty()
    })
}

fn collect_str_elems(a: &Vec<JsonVal>) -> (r: Vec<TomlVal>)
    ensures
        crate::model::tev_elems(r@) == str_elems(crate::model::aview(a@)),
{
    let ghost av = crate::model::aview(a@);
    let mut r: Vec<TomlVal> = Vec::new();
    let mut i: usize = 0;
    while i < a.len()
        invariant
            av == crate::model::aview(a@),
            i <= a@.len(),
            crate::model::tev_elems(r@) == str_elems(av.take(i as int)),
        decreases a@.len() - i,
    {
        let ghost prev = r@;
        match &a[i] {
            JsonVal::Str(s) => {
                r.push(TomlVal::Str(s.clone()));
            },
            _ => {},
        }
        proof {
            assert(av.take(i + 1).drop_last() =~= av.take(i as int));
            assert(av.take(i + 1).last() == av[i as int]);
            assert(crate::model::tev_elems(r@) =~= str_elems(av.take(i + 1)));
        }
        i = i + 1;
    }
    proof {
        assert(av.take(av.len() as int) =~= av);
    }
    r
}

fn collect_str_entries(o: &Vec<(String, JsonVal)>) -> (r: Vec<(String, TomlVal)>)
    ensures
        crate::model::tev(r@) == str_entries(eview(o@)),
{
    let ghost ov = eview(o@);
    let mut r: Vec<(String, TomlVal)> = Vec::new();
    let mut i: usize = 0;
    while i < o.len()
        invariant
            ov == eview(o@),
            i <= o@.len(),
            crate::model::tev(r@) == str_entries(ov.take(i as int)),
        decreases o@.len() - i,
    {
        match &o[i].1 {
            JsonVal::Str(s) => {
                r.push((o[i].0.clone(), TomlVal::Str(s.clone())));
            },
            _ => {},
        }
        proof {
            assert(ov.take(i + 1).drop_last() =~= ov.take(i as int));
            assert(ov.take(i + 1).last() == ov[i as int]);
            assert(crate::model::tev(r@) =~= str_entries(ov.take(i + 1)));
        }
        i = i + 1;
    }
    proof {
        assert(ov.take(ov.len() as int) =~= ov);
    }
    r
}

/// Encode one server definition as a TOML table.
pub fn json_server_to_toml_table(spec: &JsonVal) -> (r: Result<TomlVal, AppError>)
    ensures
        match r {
            Ok(t) => t@ == TVal::Table(server_table_spec(spec@)),
            Err(_) => false,
        },
{
    let typ: String = match spec {
        JsonVal::Obj(entries) => {
            proof {
                crate::model::lemma_obj_entries(*entries);
            }
            match obj_get(entries, "type") {
                Some(v) => match v {
                    JsonVal::Str(s) => s.clone(),
                    _ => "stdio".to_owned(),
                },
                None => "stdio".to_owned(),
            }
        },
        _ => "stdio".to_owned(),
    };
    let mut out: Vec<(String, TomlVal)> = Vec::new();
    out.push(("type".to_owned(), TomlVal::Str(typ.clone())));
    let ghost head = seq![("type"@, TVal::Str(transport_name(spec@)))];
    proof {
        assert(typ@ == transport_name(spec@));
        assert(crate::model::tev(out@) =~= head);
    }
    let is_stdio_t = crate::strutil::str_eq(typ.as_str(), "stdio");
    let is_http_t = crate::strutil::str_eq(typ.as_str(), "http");
    let is_sse_t = crate::strutil::str_eq(typ.as_str(), "sse");
    let ghost mid: Seq<(Seq<char>, TVal)> = if transport_name(spec@) == "stdio"@ {
        stdio_parts(spec@)
    } else if transport_name(spec@) == "http"@ || transport_name(spec@) == "sse"@ {
        net_parts(spec@)
    } else {
        Seq::<(Seq<char>, TVal)>::empty()
    };
    if is_stdio_t {
        let entries_opt: Option<&Vec<(String, JsonVal)>> = match spec {
            JsonVal::Obj(entries) => Some(entries),
            _ => None,
        };
        proof {
            if spec@ is Obj {
                crate::model::lemma_obj_entries(*entries_opt->Some_0);
            }
        }
        let ghost p1 = seq![("command"@, TVal::Str(crate::validation::str_field(spec@, "command"@)))];
        let ghost p2: Seq<(Seq<char>, TVal)> = match spec@.get("args"@) {
            Some(JVal::Arr(ga)) => if str_elems(ga).len() > 0 {
                seq![("args"@, TVal::Arr(str_elems(ga)))]
            } else {
                Seq::empty()
            },
            _ => Seq::empty(),
        };
        let ghost p3: Seq<(Seq<char>, TVal)> = match spec@.str_of("cwd"@) {
            Some(gc) => if nonblank(gc) {
                seq![("cwd"@, TVal::Str(gc))]
            } else {
                Seq::empty()
            },
            _ => Seq::empty(),
        };
        let ghost p4: Seq<(Seq<char>, TVal)> = match spec@.get("env"@) {
            Some(JVal::Obj(go)) => if str_entries(go).len() > 0 {
                seq![("env"@, TVal::Table(str_entries(go)))]
            } else {
                Seq::empty()
            },
            _ => Seq::empty(),
        };
        let cmd: String = match &entries_opt {
            Some(entries) => match obj_get(entries, "command") {
                Some(JsonVal::Str(s)) => s.clone(),
                _ => String::new(),
            },
            None => String::new(),
        };
        out.push(("command".to_owned(), TomlVal::Str(cmd)));
        proof {
            assert(crate::model::tev(out@) =~= head + p1);
        }
        if let Some(entries) = entries_opt {
            if let Some(JsonVal::Arr(a)) = obj_get(entries, "args") {
                let strs = collect_str_elems(a);
                proof {
                    crate::model::lemma_arr_elems(*a);
                    crate::model::lemma_toml_arr_elems(strs);
                }
                if strs.len() > 0 {
                    out.push(("args".to_owned(), TomlVal::Arr(strs)));
                }
            }
            proof {
                assert(crate::model::tev(out@) =~= head + p1 + p2);
            }
            if let Some(JsonVal::Str(c)) = obj_get(entries, "cwd") {
                let trimmed = crate::strutil::trim_str(c.as_str());
                if !trimmed.as_str().is_empty() {
                    out.push(("cwd".to_owned(), TomlVal::Str(c.clone())));
                }
            }
            proof {
                assert(crate::model::tev(out@) =~= head + p1 + p2 + p3);
            }
            if let Some(JsonVal::Obj(e)) = obj_get(entries, "env") {
                let es = collect_str_entries(e);
                proof {
                    crate::model::lemma_obj_entries(*e);
                    crate::model::lemma_table_entries(es);
                }
                if es.len() > 0 {
                    out.push(("env".to_owned(), TomlVal::Table(es)));
                }
            }
            proof {
                assert(crate::model::tev(out@) =~= head + p1 + p2 + p3 + p4);
            }
        }
        proof {
            assert(mid =~= p1 + p2 + p3 + p4);
            assert(crate::model::tev(out@) =~= head + mid);
        }
    } else if is_http_t || is_sse_t {
        let entries_opt: Option<&Vec<(String, JsonVal)>> = match spec {
            JsonVal::Obj(entries) => Some(entries),
            _ => None,
        };
        proof {
            if spec@ is Obj {
                crate::model::lemma_obj_entries(*entries_opt->Some_0);
            }
        }
        let url: String = match &entries_opt {
            Some(entries) => match obj_get(entries, "url") {
                Some(JsonVal::Str(s)) => s.clone(),
                _ => String::new(),
            },
            None => String::new(),
        };
        let ghost q1 = seq![("url"@, TVal::Str(crate::validation::str_field(spec@, "url"@)))];
        let ghost q2: Seq<(Seq<char>, TVal)> = match spec@.get("headers"@) {
            Some(JVal::Obj(go)) => if str_entries(go).len() > 0 {
                seq![("http_headers"@, TVal::Table(str_entries(go)))]
            } else {
                Seq::empty()
            },
            _ => Seq::empty(),
        };
        out.push(("url".to_owned(), TomlVal::Str(url)));
        proof {
            assert(crate::model::tev(out@) =~= head + q1);
        }
        if let Some(entries) = entries_opt {
            if let Some(JsonVal::Obj(h)) = obj_get(entries, "headers") {
                let hs = collect_str_entries(h);
                proof {
                    crate::model::lemma_obj_entries(*h);
                    crate::model::lemma_table_entries(hs);
                }
                if hs.len() > 0 {
                    out.push(("http_headers".to_owned(), TomlVal::Table(hs)));
                }
            }
            proof {
                assert(crate::model::tev(out@) =~= head + q1 + q2);
            }
        }
        proof {
            assert(mid =~= q1 + q2);
            assert(crate::model::tev(out@) =~= head + mid);
        }
    } else {
        proof {
            assert(crate::model::tev(out@) =~= head + mid);
        }
    }
    // every other field, through the generic converter
    if let JsonVal::Obj(entries) = spec {
        proof {
            crate::model::lemma_obj_entries(*entries);
        }
        let ghost ov = eview(entries@);
        let ghost before = crate::model::tev(out@);
        let mut i: usize = 0;
        while i < entries.len()
            invariant
                spec@ == JVal::Obj(ov),
                ov == eview(entries@),
                i <= entries@.len(),
                typ@ == transport_name(spec@),
                crate::model::tev(out@) == before + ext_parts(ov.take(i as int), typ@),
            decreases entries@.len() - i,
        {
            let k = &entries[i].0;
            let v = &entries[i].1;
            let core = if crate::strutil::str_eq(typ.as_str(), "stdio") {
                crate::strutil::str_eq(k.as_str(), "type") || crate::strutil::str_eq(
                    k.as_str(),
                    "command",
                ) || crate::strutil::str_eq(k.as_str(), "args") || crate::strutil::str_eq(
                    k.as_str(),
                    "env",
                ) || crate::strutil::str_eq(k.as_str(), "cwd")
            } else if crate::strutil::str_eq(typ.as_str(), "http") || crate::strutil::str_eq(
                typ.as_str(),
                "sse",
            ) {
                crate::strutil::str_eq(k.as_str(), "type") || crate::strutil::str_eq(
                    k.as_str(),
                    "url",
                ) || crate::strutil::str_eq(k.as_str(), "http_headers")
            } else {
                crate::strutil::str_eq(k.as_str(), "type")
            };
            if !core {
                match json_value_to_toml_item(v, k.as_str()) {
                    Some(item) => {
                        out.push((k.clone(), item));
                    },
                    None => {},
                }
            }
            proof {
                assert(ov.take(i + 1).drop_last() =~= ov.take(i as int));
                assert(ov.take(i + 1).last() == ov[i as int]);
                let step: Seq<(Seq<char>, TVal)> = if is_core_key(typ@, ov[i as int].0) {
                    Seq::empty()
                } else {
                    match j2t_spec(ov[i as int].1) {
                        Some(item) => seq![(ov[i as int].0, item)],
                        None => Seq::empty(),
                    }
                };
                assert(ext_parts(ov.take(i + 1), typ@) == ext_parts(ov.take(i as int), typ@)
                    + step);
                assert(core == is_core_key(typ@, ov[i as int].0));
                assert(crate::model::tev(out@) =~= before + ext_parts(ov.take(i as int), typ@)
                    + step);
                assert(before + ext_parts(ov.take(i as int), typ@) + step =~= before + (ext_parts(
                    ov.take(i as int),
                    typ@,
                ) + step));
            }
            i = i + 1;
        }
        proof {
            assert(ov.take(ov.len() as int) =~= ov);
            assert(crate::model::tev(out@) =~= server_table_spec(spec@));
        }
    } else {
        proof {
            assert(crate::model::tev(out@) =~= server_table_spec(spec@));
        }
    }
    proof {
        crate::model::lemma_table_entries(out);
    }
    Ok(TomlVal::Table(out))
}

} // verus!
