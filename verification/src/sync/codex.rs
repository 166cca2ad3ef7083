//! The TOML-family client. Its live file is a TOML document whose
//! canonical server table is the top-level `mcp_servers`; a legacy
//! misplaced `[mcp.servers]` location is tolerated on read and
//! actively migrated away on write.

use vstd::prelude::*;

use crate::app_config::AppType;
use crate::errors::AppError;
use crate::model::{
    eview, jview, tbl_get, tbl_has, tbl_lookup, tbl_remove, tev, tview, JVal, JsonVal, TVal,
    TomlVal,
};
use crate::store::CanonicalStore;
use crate::strutil;
use crate::toml_convert::{is_core_key, server_table_spec};
use crate::tomlio;
use crate::validation::nonblank;

use super::{enabled_views, import_servers, merge_fold, store_map};

verus! {

/// Generic TOML-to-JSON conversion of one value: scalars map one to
/// one, an array keeps only its scalar elements, a table only its
/// string-valued entries; empty results and date-times are omitted.
pub open spec fn t2j_spec(v: TVal) -> Option<JVal> {
    match v {
        TVal::Str(s) => Some(JVal::Str(s)),
        TVal::Int(i) => Some(JVal::Int(i)),
        TVal::Float(f) => Some(JVal::Float(f)),
        TVal::Bool(b) => Some(JVal::Bool(b)),
        TVal::Arr(a) => if scalar_elems(a).len() > 0 {
            Some(JVal::Arr(scalar_elems(a)))
        } else {
            None
        },
        TVal::Table(t) => if str_entries_j(t).len() > 0 {
            Some(JVal::Obj(str_entries_j(t)))
        } else {
            None
        },
        TVal::Datetime(_) => None,
    }
}

/// The scalar elements of a TOML array, as JSON values, in order.
pub open spec fn scalar_elems(a: Seq<TVal>) -> Seq<JVal>
    decreases a.len(),
{
    if a.len() == 0 {
        Seq::empty()
    } else {
        scalar_elems(a.drop_last()) + (match a.last() {
            TVal::Str(s) => seq![JVal::Str(s)],
            TVal::Int(i) => seq![JVal::Int(i)],
            TVal::Float(f) => seq![JVal::Float(f)],
            TVal::Bool(b) => seq![JVal::Bool(b)],
            _ => Seq::empty(),
        })
    }
}

/// The string elements of a TOML array, as JSON strings, in order.
pub open spec fn str_only_elems(a: Seq<TVal>) -> Seq<JVal>
    decreases a.len(),
{
    if a.len() == 0 {
        Seq::empty()
    } else {
        str_only_elems(a.drop_last()) + (match a.last() {
            TVal::Str(s) => seq![JVal::Str(s)],
            _ => Seq::empty(),
        })
    }
}

/// The string-valued entries of a TOML table, as a JSON object.
pub open spec fn str_entries_j(t: Seq<(Seq<char>, TVal)>) -> Seq<(Seq<char>, JVal)>
    decreases t.len(),
{
    if t.len() == 0 {
        Seq::empty()
    } else {
        str_entries_j(t.drop_last()) + (match t.last().1 {
            TVal::Str(s) => seq![(t.last().0, JVal::Str(s))],
            _ => Seq::empty(),
        })
    }
}

/// The transport of a live TOML entry: its `type` string, `stdio`
/// when absent or not a string.
pub open spec fn tbl_transport(t: Seq<(Seq<char>, TVal)>) -> Seq<char> {
    match tbl_get(t, "type"@) {
        Some(TVal::Str(s)) => s,
        _ => "stdio"@,
    }
}

pub open spec fn tbl_str(t: Seq<(Seq<char>, TVal)>, key: Seq<char>) -> Option<Seq<char>> {
    match tbl_get(t, key) {
        Some(TVal::Str(s)) => Some(s),
        _ => None,
    }
}

/// The core stdio fields read from a live TOML entry.
pub open spec fn codex_stdio_parts(t: Seq<(Seq<char>, TVal)>) -> Seq<(Seq<char>, JVal)> {
    (match tbl_str(t, "command"@) {
        Some(c) => seq![("command"@, JVal::Str(c))],
        None => Seq::empty(),
    }) + (match tbl_get(t, "args"@) {
        Some(TVal::Arr(a)) => if str_only_elems(a).len() > 0 {
            seq![("args"@, JVal::Arr(str_only_elems(a)))]
        } else {
            Seq::empty()
        },
        _ => Seq::empty(),
    }) + (match tbl_str(t, "cwd"@) {
        Some(c) => if nonblank(c) {
            seq![("cwd"@, JVal::Str(c))]
        } else {
            Seq::empty()
        },
        None => Seq::empty(),
    }) + (match tbl_get(t, "env"@) {
        Some(TVal::Table(e)) => if str_entries_j(e).len() > 0 {
            seq![("env"@, JVal::Obj(str_entries_j(e)))]
        } else {
            Seq::empty()
        },
        _ => Seq::empty(),
    })
}

/// The headers table a live TOML entry carries: the correct
/// `http_headers` location wins over the legacy `headers` one.
pub open spec fn codex_headers(t: Seq<(Seq<char>, TVal)>) -> Option<Seq<(Seq<char>, TVal)>> {
    match tbl_get(t, "http_headers"@) {
        Some(TVal::Table(h)) => Some(h),
        _ => match tbl_get(t, "headers"@) {
            Some(TVal::Table(h)) => Some(h),
            _ => None,
        },
    }
}

/// The core http/sse fields read from a live TOML entry.
pub open spec fn codex_net_parts(t: Seq<(Seq<char>, TVal)>) -> Seq<(Seq<char>, JVal)> {
    (match tbl_str(t, "url"@) {
        Some(u) => seq![("url"@, JVal::Str(u))],
        None => Seq::empty(),
    }) + (match codex_headers(t) {
        Some(h) => if str_entries_j(h).len() > 0 {
            seq![("headers"@, JVal::Obj(str_entries_j(h)))]
        } else {
            Seq::empty()
        },
        None => Seq::empty(),
    })
}

/// The generically converted non-core fields, in input order.
pub open spec fn codex_ext_parts(t: Seq<(Seq<char>, TVal)>, ty: Seq<char>) -> Seq<
    (Seq<char>, JVal),
>
    decreases t.len(),
{
    if t.len() == 0 {
        Seq::empty()
    } else {
        codex_ext_parts(t.drop_last(), ty) + (if is_core_key(ty, t.last().0) {
            Seq::empty()
        } else {
            match t2j_spec(t.last().1) {
                Some(v) => seq![(t.last().0, v)],
                None => Seq::empty(),
            }
        })
    }
}

/// The JSON definition built from one live TOML entry.
pub open spec fn codex_spec_of(t: Seq<(Seq<char>, TVal)>) -> JVal {
    let ty = tbl_transport(t);
    JVal::Obj(
        seq![("type"@, JVal::Str(ty))] + (if ty == "stdio"@ {
            codex_stdio_parts(t)
        } else if ty == "http"@ || ty == "sse"@ {
            codex_net_parts(t)
        } else {
            Seq::empty()
        }) + codex_ext_parts(t, ty),
    )
}

/// The `(id, spec)` pairs of one servers table: each table-valued
/// entry decoded, everything else skipped.
pub open spec fn codex_entries(t: Seq<(Seq<char>, TVal)>) -> Seq<(Seq<char>, JVal)>
    decreases t.len(),
{
    if t.len() == 0 {
        Seq::empty()
    } else {
        codex_entries(t.drop_last()) + (match t.last().1 {
            TVal::Table(e) => seq![(t.last().0, codex_spec_of(e))],
            _ => Seq::empty(),
        })
    }
}

fn collect_str_only(a: &Vec<TomlVal>) -> (r: Vec<JsonVal>)
    ensures
        crate::model::aview(r@) == str_only_elems(tev_elems_of(a@)),
{
    let ghost av = tev_elems_of(a@);
    let mut r: Vec<JsonVal> = Vec::new();
    let mut i: usize = 0;
    while i < a.len()
        invariant
            av == tev_elems_of(a@),
            i <= a@.len(),
            crate::model::aview(r@) == str_only_elems(av.take(i as int)),
        decreases a@.len() - i,
    {
        match &a[i] {
            TomlVal::Str(s) => {
                r.push(JsonVal::Str(s.clone()));
            },
            _ => {},
        }
        proof {
            assert(av.take(i + 1).drop_last() =~= av.take(i as int));
            assert(av.take(i + 1).last() == av[i as int]);
            assert(crate::model::aview(r@) =~= str_only_elems(av.take(i + 1)));
        }
        i = i + 1;
    }
    proof {
        assert(av.take(av.len() as int) =~= av);
    }
    r
}

/// Spelled-out view of a vector of TOML values.
pub open spec fn tev_elems_of(a: Seq<TomlVal>) -> Seq<TVal> {
    crate::model::tev_elems(a)
}

fn collect_scalars(a: &Vec<TomlVal>) -> (r: Vec<JsonVal>)
    ensures
        crate::model::aview(r@) == scalar_elems(tev_elems_of(a@)),
{
    let ghost av = tev_elems_of(a@);
    let mut r: Vec<JsonVal> = Vec::new();
    let mut i: usize = 0;
    while i < a.len()
        invariant
            av == tev_elems_of(a@),
            i <= a@.len(),
            crate::model::aview(r@) == scalar_elems(av.take(i as int)),
        decreases a@.len() - i,
    {
        match &a[i] {
            TomlVal::Str(s) => {
                r.push(JsonVal::Str(s.clone()));
            },
            TomlVal::Int(n) => {
                r.push(JsonVal::Int(*n));
            },
            TomlVal::Float(f) => {
                r.push(JsonVal::Float(f.clone()));
            },
            TomlVal::Bool(b) => {
                r.push(JsonVal::Bool(*b));
            },
            _ => {},
        }
        proof {
            assert(av.take(i + 1).drop_last() =~= av.take(i as int));
            assert(av.take(i + 1).last() == av[i as int]);
            assert(crate::model::aview(r@) =~= scalar_elems(av.take(i + 1)));
        }
        i = i + 1;
    }
    proof {
        assert(av.take(av.len() as int) =~= av);
    }
    r
}

fn collect_str_entries_j(t: &Vec<(String, TomlVal)>) -> (r: Vec<(String, JsonVal)>)
    ensures
        eview(r@) == str_entries_j(tev(t@)),
{
    let ghost tv = tev(t@);
    let mut r: Vec<(String, JsonVal)> = Vec::new();
    let mut i: usize = 0;
    while i < t.len()
        invariant
            tv == tev(t@),
            i <= t@.len(),
            eview(r@) == str_entries_j(tv.take(i as int)),
        decreases t@.len() - i,
    {
        match &t[i].1 {
            TomlVal::Str(s) => {
                r.push((t[i].0.clone(), JsonVal::Str(s.clone())));
            },
            _ => {},
        }
        proof {
            assert(tv.take(i + 1).drop_last() =~= tv.take(i as int));
            assert(tv.take(i + 1).last() == tv[i as int]);
            assert(eview(r@) =~= str_entries_j(tv.take(i + 1)));
        }
        i = i + 1;
    }
    proof {
        assert(tv.take(tv.len() as int) =~= tv);
    }
    r
}

/// Generic TOML-to-JSON conversion of one value.
fn toml_value_to_json(v: &TomlVal) -> (r: Option<JsonVal>)
    ensures
        match r {
            Some(j) => t2j_spec(v@) == Some(j@),
            None => t2j_spec(v@) is None,
        },
{
    match v {
        TomlVal::Str(s) => Some(JsonVal::Str(s.clone())),
        TomlVal::Int(n) => Some(JsonVal::Int(*n)),
        TomlVal::Float(f) => Some(JsonVal::Float(f.clone())),
        TomlVal::Bool(b) => Some(JsonVal::Bool(*b)),
        TomlVal::Datetime(_) => None,
        TomlVal::Arr(a) => {
            proof {
                crate::model::lemma_toml_arr_elems(*a);
            }
            let elems = collect_scalars(a);
            if elems.len() > 0 {
                proof {
                    crate::model::lemma_arr_elems(elems);
                }
                Some(JsonVal::Arr(elems))
            } else {
                None
            }
        },
        TomlVal::Table(t) => {
            proof {
                crate::model::lemma_table_entries(*t);
            }
            let es = collect_str_entries_j(t);
            if es.len() > 0 {
                proof {
                    crate::model::lemma_obj_entries(es);
                }
                Some(JsonVal::Obj(es))
            } else {
                None
            }
        },
    }
}

/// Decode one live TOML entry into the JSON definition the store keeps.
#[verifier::rlimit(100)]
fn codex_table_to_spec(entries: &Vec<(String, TomlVal)>) -> (r: JsonVal)
    ensures
        r@ == codex_spec_of(tev(entries@)),
{
    proof {
        crate::model::lemma_table_entries(*entries);
    }
    let ghost t = tev(entries@);
    let typ: String = match tbl_lookup(entries, "type") {
        Some(TomlVal::Str(s)) => s.clone(),
        _ => "stdio".to_owned(),
    };
    let mut out: Vec<(String, JsonVal)> = Vec::new();
    out.push(("type".to_owned(), JsonVal::Str(typ.clone())));
    let ghost head = seq![("type"@, JVal::Str(tbl_transport(t)))];
    proof {
        assert(typ@ == tbl_transport(t));
        assert(eview(out@) =~= head);
    }
    let is_stdio_t = strutil::str_eq(typ.as_str(), "stdio");
    let is_http_t = strutil::str_eq(typ.as_str(), "http");
    let is_sse_t = strutil::str_eq(typ.as_str(), "sse");
    let ghost mid: Seq<(Seq<char>, JVal)> = if tbl_transport(t) == "stdio"@ {
        codex_stdio_parts(t)
    } else if tbl_transport(t) == "http"@ || tbl_transport(t) == "sse"@ {
        codex_net_parts(t)
    } else {
        Seq::<(Seq<char>, JVal)>::empty()
    };
    if is_stdio_t {
        let ghost p1: Seq<(Seq<char>, JVal)> = match tbl_str(t, "command"@) {
            Some(c) => seq![("command"@, JVal::Str(c))],
            None => Seq::empty(),
        };
        let ghost p2: Seq<(Seq<char>, JVal)> = match tbl_get(t, "args"@) {
            Some(TVal::Arr(ga)) => if str_only_elems(ga).len() > 0 {
                seq![("args"@, JVal::Arr(str_only_elems(ga)))]
            } else {
                Seq::empty()
            },
            _ => Seq::empty(),
        };
        let ghost p3: Seq<(Seq<char>, JVal)> = match tbl_str(t, "cwd"@) {
            Some(c) => if nonblank(c) {
                seq![("cwd"@, JVal::Str(c))]
            } else {
                Seq::empty()
            },
            None => Seq::empty(),
        };
        let ghost p4: Seq<(Seq<char>, JVal)> = match tbl_get(t, "env"@) {
            Some(TVal::Table(ge)) => if str_entries_j(ge).len() > 0 {
                seq![("env"@, JVal::Obj(str_entries_j(ge)))]
            } else {
                Seq::empty()
            },
            _ => Seq::empty(),
        };
        if let Some(TomlVal::Str(c)) = tbl_lookup(entries, "command") {
            out.push(("command".to_owned(), JsonVal::Str(c.clone())));
        }
        proof {
            assert(eview(out@) =~= head + p1);
        }
        if let Some(TomlVal::Arr(a)) = tbl_lookup(entries, "args") {
            proof {
                crate::model::lemma_toml_arr_elems(*a);
            }
            let strs = collect_str_only(a);
            if strs.len() > 0 {
                proof {
                    crate::model::lemma_arr_elems(strs);
                }
                out.push(("args".to_owned(), JsonVal::Arr(strs)));
            }
        }
        proof {
            assert(eview(out@) =~= head + p1 + p2);
        }
        if let Some(TomlVal::Str(c)) = tbl_lookup(entries, "cwd") {
            let trimmed = strutil::trim_str(c.as_str());
            if !trimmed.as_str().is_empty() {
                out.push(("cwd".to_owned(), JsonVal::Str(c.clone())));
            }
        }
        proof {
            assert(eview(out@) =~= head + p1 + p2 + p3);
        }
        if let Some(TomlVal::Table(e)) = tbl_lookup(entries, "env") {
            proof {
                crate::model::lemma_table_entries(*e);
            }
            let es = collect_str_entries_j(e);
            if es.len() > 0 {
                proof {
                    crate::model::lemma_obj_entries(es);
                }
                out.push(("env".to_owned(), JsonVal::Obj(es)));
            }
        }
        proof {
            assert(eview(out@) =~= head + p1 + p2 + p3 + p4);
            assert(mid =~= p1 + p2 + p3 + p4);
            assert(eview(out@) =~= head + mid);
        }
    } else if is_http_t || is_sse_t {
        let ghost q1: Seq<(Seq<char>, JVal)> = match tbl_str(t, "url"@) {
            Some(u) => seq![("url"@, JVal::Str(u))],
            None => Seq::empty(),
        };
        let ghost q2: Seq<(Seq<char>, JVal)> = match codex_headers(t) {
            Some(h) => if str_entries_j(h).len() > 0 {
                seq![("headers"@, JVal::Obj(str_entries_j(h)))]
            } else {
                Seq::empty()
            },
            None => Seq::empty(),
        };
        if let Some(TomlVal::Str(u)) = tbl_lookup(entries, "url") {
            out.push(("url".to_owned(), JsonVal::Str(u.clone())));
        }
        proof {
            assert(eview(out@) =~= head + q1);
        }
        let headers_ref: Option<&Vec<(String, TomlVal)>> = match tbl_lookup(
            entries,
            "http_headers",
        ) {
            Some(TomlVal::Table(h)) => Some(h),
            _ => match tbl_lookup(entries, "headers") {
                Some(TomlVal::Table(h)) => Some(h),
                _ => None,
            },
        };
        if let Some(h) = headers_ref {
            proof {
                crate::model::lemma_table_entries(*h);
            }
            let es = collect_str_entries_j(h);
            if es.len() > 0 {
                proof {
                    crate::model::lemma_obj_entries(es);
                }
                out.push(("headers".to_owned(), JsonVal::Obj(es)));
            }
        }
        proof {
            assert(eview(out@) =~= head + q1 + q2);
            assert(mid =~= q1 + q2);
            assert(eview(out@) =~= head + mid);
        }
    } else {
        proof {
            assert(eview(out@) =~= head + mid);
        }
    }
    let ghost before = eview(out@);
    let mut i: usize = 0;
    while i < entries.len()
        invariant
            t == tev(entries@),
            i <= entries@.len(),
            typ@ == tbl_transport(t),
            eview(out@) == before + codex_ext_parts(t.take(i as int), typ@),
        decreases entries@.len() - i,
    {
        let k = &entries[i].0;
        let core = if strutil::str_eq(typ.as_str(), "stdio") {
            strutil::str_eq(k.as_str(), "type") || strutil::str_eq(k.as_str(), "command")
                || strutil::str_eq(k.as_str(), "args") || strutil::str_eq(k.as_str(), "env")
                || strutil::str_eq(k.as_str(), "cwd")
        } else if strutil::str_eq(typ.as_str(), "http") || strutil::str_eq(typ.as_str(), "sse") {
            strutil::str_eq(k.as_str(), "type") || strutil::str_eq(k.as_str(), "url")
                || strutil::str_eq(k.as_str(), "http_headers")
        } else {
            strutil::str_eq(k.as_str(), "type")
        };
        if !core {
            match toml_value_to_json(&entries[i].1) {
                Some(j) => {
                    out.push((k.clone(), j));
                },
                None => {},
            }
        }
        proof {
            assert(t.take(i + 1).drop_last() =~= t.take(i as int));
            assert(t.take(i + 1).last() == t[i as int]);
            let step: Seq<(Seq<char>, JVal)> = if is_core_key(typ@, t[i as int].0) {
                Seq::empty()
            } else {
                match t2j_spec(t[i as int].1) {
                    Some(v) => seq![(t[i as int].0, v)],
                    None => Seq::empty(),
                }
            };
            assert(codex_ext_parts(t.take(i + 1), typ@) == codex_ext_parts(t.take(i as int), typ@)
                + step);
            assert(core == is_core_key(typ@, t[i as int].0));
            assert(eview(out@) =~= before + codex_ext_parts(t.take(i as int), typ@) + step);
            assert(before + codex_ext_parts(t.take(i as int), typ@) + step =~= before + (
            codex_ext_parts(t.take(i as int), typ@) + step));
        }
        i = i + 1;
    }
    proof {
        assert(t.take(t.len() as int) =~= t);
        crate::model::lemma_obj_entries(out);
        assert(eview(out@) =~= codex_spec_of(t)->Obj_0);
    }
    JsonVal::Obj(out)
}

/// Decode one servers table into `(id, spec)` pairs.
fn codex_collect_entries(tbl: &Vec<(String, TomlVal)>) -> (r: Vec<(String, JsonVal)>)
    ensures
        eview(r@) == codex_entries(tev(tbl@)),
{
    let ghost tv = tev(tbl@);
    let mut r: Vec<(String, JsonVal)> = Vec::new();
    let mut i: usize = 0;
    while i < tbl.len()
        invariant
            tv == tev(tbl@),
            i <= tbl@.len(),
            eview(r@) == codex_entries(tv.take(i as int)),
        decreases tbl@.len() - i,
    {
        match &tbl[i].1 {
            TomlVal::Table(e) => {
                let spec = codex_table_to_spec(e);
                r.push((tbl[i].0.clone(), spec));
                proof {
                    assert(tv[i as int].1 == tview(tbl@[i as int].1));
                    assert(tv[i as int].1->Table_0 == tev(e@)) by {
                        crate::model::lemma_table_entries(*e);
                    }
                }
            },
            _ => {},
        }
        proof {
            assert(tv.take(i + 1).drop_last() =~= tv.take(i as int));
            assert(tv.take(i + 1).last() == tv[i as int]);
            assert(eview(r@) =~= codex_entries(tv.take(i + 1)));
        }
        i = i + 1;
    }
    proof {
        assert(tv.take(tv.len() as int) =~= tv);
    }
    r
}

/// The two server tables a live TOML document may carry: the legacy
/// nested `[mcp.servers]` and the canonical `[mcp_servers]`.
pub open spec fn legacy_table(root: TVal) -> Seq<(Seq<char>, TVal)> {
    match tbl_get(root->Table_0, "mcp"@) {
        Some(TVal::Table(m)) => match tbl_get(m, "servers"@) {
            Some(TVal::Table(s)) => s,
            _ => Seq::empty(),
        },
        _ => Seq::empty(),
    }
}

pub open spec fn canonical_table(root: TVal) -> Seq<(Seq<char>, TVal)> {
    match tbl_get(root->Table_0, "mcp_servers"@) {
        Some(TVal::Table(s)) => s,
        _ => Seq::empty(),
    }
}

/// Merge this client's live TOML file into the canonical store: the
/// entries of the legacy table first, then those of the canonical
/// one. A missing or blank file is zero changes; a malformed one is a
/// hard error.
pub fn import_from_codex(store: &mut CanonicalStore, live: Option<&str>) -> (r: Result<
    usize,
    AppError,
>)
    requires
        old(store).wf(),
    ensures
        final(store).wf(),
        match r {
            Ok(n) => {
                ||| (match super::live_view(live) {
                    None => store_map(*final(store)) == store_map(*old(store)) && n == 0,
                    Some(text) => {
                        ||| (crate::strutil::trim_spec(text).len() == 0 && store_map(
                            *final(store),
                        ) == store_map(*old(store)) && n == 0)
                        ||| (match tomlio::toml_doc_of(text) {
                            Some(root) => {
                                let folded = merge_fold(
                                    store_map(*old(store)),
                                    codex_entries(legacy_table(root)) + codex_entries(
                                        canonical_table(root),
                                    ),
                                    AppType::Codex,
                                );
                                store_map(*final(store)) == folded.0 && n == folded.1
                            },
                            None => false,
                        })
                    },
                })
            },
            Err(e) => {
                &&& e is Parse
                &&& super::live_view(live) is Some
                &&& tomlio::toml_doc_of(super::live_view(live)->Some_0) is None
                &&& *final(store) == *old(store)
            },
        },
{
    let text = match live {
        None => {
            return Ok(0);
        },
        Some(t) => t,
    };
    let trimmed = strutil::trim_str(text);
    if trimmed.as_str().is_empty() {
        return Ok(0);
    }
    let root = match tomlio::parse_toml_table(text) {
        Ok(v) => v,
        Err(_) => {
            return Err(AppError::Parse("the live TOML configuration does not parse".to_owned()));
        },
    };
    let root_entries = match &root {
        TomlVal::Table(entries) => entries,
        _ => {
            return Err(AppError::Parse("the live TOML configuration does not parse".to_owned()));
        },
    };
    proof {
        crate::model::lemma_table_entries(*root_entries);
    }
    let mut all_pairs: Vec<(String, JsonVal)> = Vec::new();
    match tbl_lookup(root_entries, "mcp") {
        Some(TomlVal::Table(m)) => {
            proof {
                crate::model::lemma_table_entries(*m);
            }
            match tbl_lookup(m, "servers") {
                Some(TomlVal::Table(s)) => {
                    proof {
                        crate::model::lemma_table_entries(*s);
                    }
                    all_pairs = codex_collect_entries(s);
                },
                _ => {},
            }
        },
        _ => {},
    }
    proof {
        assert(eview(all_pairs@) =~= codex_entries(legacy_table(root@)));
    }
    let ghost legacy_len = all_pairs@.len();
    match tbl_lookup(root_entries, "mcp_servers") {
        Some(TomlVal::Table(s)) => {
            proof {
                crate::model::lemma_table_entries(*s);
            }
            let mut canon_pairs = codex_collect_entries(s);
            all_pairs.append(&mut canon_pairs);
        },
        _ => {},
    }
    proof {
        assert(eview(all_pairs@) =~= codex_entries(legacy_table(root@)) + codex_entries(
            canonical_table(root@),
        ));
    }
    let n = import_servers(store, &all_pairs, &AppType::Codex);
    Ok(n)
}

/// The table written under `mcp_servers`: every enabled record,
/// encoded by the server-table encoder, keyed by id, in store order.
pub open spec fn codex_export_table(pairs: Seq<(Seq<char>, JVal)>) -> Seq<(Seq<char>, TVal)> {
    Seq::new(pairs.len(), |i: int| (pairs[i].0, TVal::Table(server_table_spec(pairs[i].1))))
}

/// The top-level model after exporting to this client: the legacy
/// `[mcp.servers]` location is cleaned, and `mcp_servers` holds
/// exactly the enabled records — or is gone when none is enabled.
pub open spec fn codex_export_model(
    base: Map<Seq<char>, TVal>,
    ss: Seq<crate::app_config::McpServer>,
) -> Map<Seq<char>, TVal> {
    let cleaned = if base.dom().contains("mcp"@) && base["mcp"@] is Table {
        base.insert("mcp"@, TVal::Table(tbl_remove(base["mcp"@]->Table_0, "servers"@)))
    } else {
        base
    };
    let pairs = enabled_views(ss, AppType::Codex);
    if pairs.len() == 0 {
        cleaned.remove("mcp_servers"@)
    } else {
        cleaned.insert(
            "mcp_servers"@,
            crate::model::tdedup(TVal::Table(codex_export_table(pairs))),
        )
    }
}

/// Whether the live TOML file can serve as the export base.
pub open spec fn codex_base_ok(live: Option<Seq<char>>) -> bool {
    match live {
        None => true,
        Some(t) => tomlio::edit_doc_model_of(t) is Some,
    }
}

/// Whether the table built for the enabled records can be written.
pub open spec fn codex_table_writable(ss: Seq<crate::app_config::McpServer>) -> bool {
    let pairs = enabled_views(ss, AppType::Codex);
    pairs.len() == 0 || tomlio::writable_of(TVal::Table(codex_export_table(pairs)))
}

/// Project the records enabled for this client into its live TOML
/// text: parse the existing document (or start empty), migrate the
/// legacy table away, replace or drop `mcp_servers`, and print the
/// document — everything untouched keeps its formatting. This
/// succeeds exactly when the live file is readable and every enabled
/// record's encoded table is writable.
pub fn sync_enabled_to_codex(store: &CanonicalStore, live: Option<&str>) -> (r: Result<
    String,
    AppError,
>)
    ensures
        match r {
            Ok(text) => exists|d: toml_edit::DocumentMut|
                {
                    &&& #[trigger] tomlio::doc_model(d) == codex_export_model(
                        match super::live_view(live) {
                            None => Map::empty(),
                            Some(t) => tomlio::edit_doc_model_of(t)->Some_0,
                        },
                        store.servers@,
                    )
                    &&& text@ == tomlio::doc_text_of(d)
                },
            Err(e) => match e {
                AppError::Parse(_) => !codex_base_ok(super::live_view(live)),
                AppError::Config(_) => !codex_table_writable(store.servers@),
                _ => false,
            },
        },
        r is Ok <==> codex_base_ok(super::live_view(live)) && codex_table_writable(store.servers@),
{
    let mut doc = match live {
        None => tomlio::new_toml_document(),
        Some(text) => match tomlio::parse_toml_document(text) {
            Ok(d) => d,
            Err(_) => {
                return Err(
                    AppError::Parse("the live TOML configuration does not parse".to_owned()),
                );
            },
        },
    };
    tomlio::doc_remove_nested(&mut doc, "mcp", "servers");
    let enabled = super::collect_enabled_servers(store, &AppType::Codex);
    let ghost pairs = enabled_views(store.servers@, AppType::Codex);
    if enabled.len() == 0 {
        tomlio::doc_remove_key(&mut doc, "mcp_servers");
    } else {
        let mut table: Vec<(String, TomlVal)> = Vec::new();
        let mut i: usize = 0;
        while i < enabled.len()
            invariant
                pairs == eview(enabled@),
                enabled@.len() == pairs.len(),
                i <= pairs.len(),
                tev(table@) == codex_export_table(pairs).take(i as int),
            decreases pairs.len() - i,
        {
            proof {
                assert(pairs[i as int].0 == enabled@[i as int].0@);
                assert(pairs[i as int].1 == jview(enabled@[i as int].1));
            }
            let encoded = match crate::toml_convert::json_server_to_toml_table(&enabled[i].1) {
                Ok(tb) => tb,
                Err(_) => {
                    proof {
                        assert(false);
                    }
                    TomlVal::Bool(false)
                },
            };
            let id = enabled[i].0.clone();
            let ghost before = table@;
            let ghost pushed = (id, encoded);
            table.push((id, encoded));
            proof {
                assert(table@ == before.push(pushed));
                assert(tev(table@) =~= tev(before).push((pushed.0@, tview(pushed.1))));
                assert(tev(table@) =~= codex_export_table(pairs).take(i + 1));
            }
            i = i + 1;
        }
        proof {
            assert(codex_export_table(pairs).take(pairs.len() as int) =~= codex_export_table(
                pairs,
            ));
            crate::model::lemma_table_entries(table);
        }
        let table_val = TomlVal::Table(table);
        proof {
            assert(table_val@ == TVal::Table(codex_export_table(pairs)));
        }
        match tomlio::doc_set_key(&mut doc, "mcp_servers", &table_val) {
            Ok(_) => {},
            Err(_) => {
                return Err(
                    AppError::Config(
                        "a server field could not be encoded as TOML".to_owned(),
                    ),
                );
            },
        }
    }
    let text = tomlio::doc_to_text(&doc);
    proof {
        assert(tomlio::doc_model(doc) == codex_export_model(
            match super::live_view(live) {
                None => Map::empty(),
                Some(t) => tomlio::edit_doc_model_of(t)->Some_0,
            },
            store.servers@,
        ));
    }
    Ok(text)
}


/// The codex core keys are pairwise distinct strings.
proof fn distinct_codex_keys()
    ensures
        "type"@ != "command"@,
        "type"@ != "args"@,
        "type"@ != "cwd"@,
        "type"@ != "env"@,
        "command"@ != "args"@,
        "command"@ != "cwd"@,
        "command"@ != "env"@,
        "args"@ != "cwd"@,
        "args"@ != "env"@,
        "cwd"@ != "env"@,
{
    reveal_strlit("type");
    reveal_strlit("command");
    reveal_strlit("args");
    reveal_strlit("cwd");
    reveal_strlit("env");
    assert("type"@.len() == 4);
    assert("command"@.len() == 7);
    assert("args"@.len() == 4);
    assert("cwd"@.len() == 3);
    assert("env"@.len() == 3);
    assert("type"@[0] == 't' && "args"@[0] == 'a');
    assert("cwd"@[0] == 'c' && "env"@[0] == 'e');
}

proof fn lemma_tbl_get_head(entries: Seq<(Seq<char>, TVal)>, key: Seq<char>)
    requires
        entries.len() > 0,
        entries[0].0 == key,
    ensures
        tbl_get(entries, key) == Some(entries[0].1),
{
    crate::model::lemma_tbl_idx_first(entries, key, 0);
}

proof fn lemma_tbl_get_step(entries: Seq<(Seq<char>, TVal)>, key: Seq<char>)
    requires
        entries.len() > 0,
        entries[0].0 != key,
    ensures
        tbl_get(entries, key) == tbl_get(entries.drop_first(), key),
{
    crate::model::lemma_tbl_idx_range(entries.drop_first(), key);
    if tbl_has(entries.drop_first(), key) {
        let r = crate::model::tbl_idx(entries.drop_first(), key);
        assert(entries[r + 1] == entries.drop_first()[r]);
    }
}

proof fn lemma_tbl_get_skip(
    pre: Seq<(Seq<char>, TVal)>,
    rest: Seq<(Seq<char>, TVal)>,
    key: Seq<char>,
)
    requires
        forall|i: int| 0 <= i < pre.len() ==> (#[trigger] pre[i]).0 != key,
    ensures
        tbl_get(pre + rest, key) == tbl_get(rest, key),
    decreases pre.len(),
{
    if pre.len() == 0 {
        assert(pre + rest =~= rest);
    } else {
        assert((pre + rest)[0] == pre[0]);
        lemma_tbl_get_step(pre + rest, key);
        assert((pre + rest).drop_first() =~= pre.drop_first() + rest);
        assert forall|i: int| 0 <= i < pre.drop_first().len() implies (#[trigger] pre.drop_first()[
            i
        ]).0 != key by {
            assert(pre.drop_first()[i] == pre[i + 1]);
        }
        lemma_tbl_get_skip(pre.drop_first(), rest, key);
    }
}

proof fn lemma_vobj_get_head(entries: Seq<(Seq<char>, JVal)>, key: Seq<char>)
    requires
        entries.len() > 0,
        entries[0].0 == key,
    ensures
        crate::model::vobj_get(entries, key) == Some(entries[0].1),
{
    crate::model::lemma_vobj_idx_first(entries, key, 0);
}

proof fn lemma_vobj_get_step(entries: Seq<(Seq<char>, JVal)>, key: Seq<char>)
    requires
        entries.len() > 0,
        entries[0].0 != key,
    ensures
        crate::model::vobj_get(entries, key) == crate::model::vobj_get(
            entries.drop_first(),
            key,
        ),
{
    crate::model::lemma_vobj_idx_range(entries.drop_first(), key);
    if crate::model::vobj_has(entries.drop_first(), key) {
        let r = crate::model::vobj_idx(entries.drop_first(), key);
        assert(entries[r + 1] == entries.drop_first()[r]);
    }
}

proof fn lemma_vobj_get_skip(
    pre: Seq<(Seq<char>, JVal)>,
    rest: Seq<(Seq<char>, JVal)>,
    key: Seq<char>,
)
    requires
        forall|i: int| 0 <= i < pre.len() ==> (#[trigger] pre[i]).0 != key,
    ensures
        crate::model::vobj_get(pre + rest, key) == crate::model::vobj_get(rest, key),
    decreases pre.len(),
{
    if pre.len() == 0 {
        assert(pre + rest =~= rest);
    } else {
        assert((pre + rest)[0] == pre[0]);
        lemma_vobj_get_step(pre + rest, key);
        assert((pre + rest).drop_first() =~= pre.drop_first() + rest);
        assert forall|i: int| 0 <= i < pre.drop_first().len() implies (#[trigger] pre.drop_first()[
            i
        ]).0 != key by {
            assert(pre.drop_first()[i] == pre[i + 1]);
        }
        lemma_vobj_get_skip(pre.drop_first(), rest, key);
    }
}

/// Encoding keeps every element of an all-string array, and decoding
/// the encoded array gives the original back.
proof fn lemma_str_elems_roundtrip(a: Seq<JVal>)
    requires
        forall|i: int| 0 <= i < a.len() ==> a[i] is Str,
    ensures
        crate::toml_convert::str_elems(a).len() == a.len(),
        str_only_elems(crate::toml_convert::str_elems(a)) == a,
    decreases a.len(),
{
    if a.len() > 0 {
        assert(a.last() is Str);
        lemma_str_elems_roundtrip(a.drop_last());
        let e = crate::toml_convert::str_elems(a);
        let ep = crate::toml_convert::str_elems(a.drop_last());
        assert(e == ep + seq![TVal::Str(a.last()->Str_0)]);
        assert(e.drop_last() =~= ep);
        assert(e.last() == TVal::Str(a.last()->Str_0));
        assert(str_only_elems(e) == str_only_elems(ep) + seq![JVal::Str(a.last()->Str_0)]);
        assert(str_only_elems(e) =~= a);
    }
}

/// Encoding keeps every entry of an all-string table, and decoding
/// the encoded table gives the original back.
proof fn lemma_str_entries_roundtrip(o: Seq<(Seq<char>, JVal)>)
    requires
        forall|i: int| 0 <= i < o.len() ==> (#[trigger] o[i]).1 is Str,
    ensures
        crate::toml_convert::str_entries(o).len() == o.len(),
        str_entries_j(crate::toml_convert::str_entries(o)) == o,
    decreases o.len(),
{
    if o.len() > 0 {
        assert(o.last().1 is Str);
        lemma_str_entries_roundtrip(o.drop_last());
        let e = crate::toml_convert::str_entries(o);
        let ep = crate::toml_convert::str_entries(o.drop_last());
        assert(e == ep + seq![(o.last().0, TVal::Str(o.last().1->Str_0))]);
        assert(e.drop_last() =~= ep);
        assert(e.last() == (o.last().0, TVal::Str(o.last().1->Str_0)));
        assert(str_entries_j(e) == str_entries_j(ep) + seq![(o.last().0, JVal::Str(
            o.last().1->Str_0,
        ))]);
        assert(str_entries_j(e) =~= o);
    }
}


/// Shared skeleton facts of the encoded table: the transport read
/// back is stdio, and the typed entries sit where the decoder's
/// first-match lookups find them.
#[verifier::rlimit(100)]
#[verifier::spinoff_prover]
proof fn lemma_codex_rt_table(v: JVal)
    requires
        v is Obj,
        crate::toml_convert::transport_name(v) == "stdio"@,
    ensures
        tbl_transport(server_table_spec(v)) == "stdio"@,
        tbl_str(server_table_spec(v), "command"@) == Some(
            crate::validation::str_field(v, "command"@),
        ),
        (match v.get("args"@) {
            Some(JVal::Arr(a)) => crate::toml_convert::str_elems(a).len() > 0 ==> tbl_get(
                server_table_spec(v),
                "args"@,
            ) == Some(TVal::Arr(crate::toml_convert::str_elems(a))),
            _ => true,
        }),
        (match v.str_of("cwd"@) {
            Some(c) => nonblank(c) ==> tbl_str(server_table_spec(v), "cwd"@) == Some(c),
            _ => true,
        }),
        (match v.get("env"@) {
            Some(JVal::Obj(o)) => crate::toml_convert::str_entries(o).len() > 0 ==> tbl_get(
                server_table_spec(v),
                "env"@,
            ) == Some(TVal::Table(crate::toml_convert::str_entries(o))),
            _ => true,
        }),
{
    distinct_codex_keys();
    let t = "stdio"@;
    let tab = server_table_spec(v);
    let head = seq![("type"@, TVal::Str(t))];
    let p_cmd = seq![("command"@, TVal::Str(crate::validation::str_field(v, "command"@)))];
    let p_args = (match v.get("args"@) {
        Some(JVal::Arr(a)) => if crate::toml_convert::str_elems(a).len() > 0 {
            seq![("args"@, TVal::Arr(crate::toml_convert::str_elems(a)))]
        } else {
            Seq::<(Seq<char>, TVal)>::empty()
        },
        _ => Seq::<(Seq<char>, TVal)>::empty(),
    });
    let p_cwd = (match v.str_of("cwd"@) {
        Some(c) => if nonblank(c) {
            seq![("cwd"@, TVal::Str(c))]
        } else {
            Seq::<(Seq<char>, TVal)>::empty()
        },
        _ => Seq::<(Seq<char>, TVal)>::empty(),
    });
    let p_env = (match v.get("env"@) {
        Some(JVal::Obj(o)) => if crate::toml_convert::str_entries(o).len() > 0 {
            seq![("env"@, TVal::Table(crate::toml_convert::str_entries(o)))]
        } else {
            Seq::<(Seq<char>, TVal)>::empty()
        },
        _ => Seq::<(Seq<char>, TVal)>::empty(),
    });
    let ext = crate::toml_convert::ext_parts(v.entries(), t);
    assert(crate::toml_convert::stdio_parts(v) == p_cmd + p_args + p_cwd + p_env);
    assert(tab == head + crate::toml_convert::stdio_parts(v) + ext);
    assert(forall|i: int| 0 <= i < p_args.len() ==> (#[trigger] p_args[i]).0 == "args"@);
    assert(forall|i: int| 0 <= i < p_cwd.len() ==> (#[trigger] p_cwd[i]).0 == "cwd"@);

    assert(tab[0] == ("type"@, TVal::Str(t)));
    lemma_tbl_get_head(tab, "type"@);

    assert(tab =~= head + (p_cmd + p_args + p_cwd + p_env + ext));
    lemma_tbl_get_skip(head, p_cmd + p_args + p_cwd + p_env + ext, "command"@);
    lemma_tbl_get_head(p_cmd + p_args + p_cwd + p_env + ext, "command"@);

    if v.get("args"@) is Some && v.get("args"@)->Some_0 is Arr {
        let a = v.get("args"@)->Some_0->Arr_0;
        if crate::toml_convert::str_elems(a).len() > 0 {
            let pre = head + p_cmd;
            assert(tab =~= pre + (p_args + p_cwd + p_env + ext));
            assert(pre[0].0 == "type"@ && pre[1].0 == "command"@);
            lemma_tbl_get_skip(pre, p_args + p_cwd + p_env + ext, "args"@);
            assert((p_args + p_cwd + p_env + ext)[0] == p_args[0]);
            lemma_tbl_get_head(p_args + p_cwd + p_env + ext, "args"@);
        }
    }
    if v.str_of("cwd"@) is Some && nonblank(v.str_of("cwd"@)->Some_0) {
        let pre = head + p_cmd + p_args;
        assert(tab =~= pre + (p_cwd + p_env + ext));
        assert(pre[0].0 == "type"@ && pre[1].0 == "command"@);
        lemma_tbl_get_skip(pre, p_cwd + p_env + ext, "cwd"@);
        assert((p_cwd + p_env + ext)[0] == p_cwd[0]);
        lemma_tbl_get_head(p_cwd + p_env + ext, "cwd"@);
    }
    if v.get("env"@) is Some && v.get("env"@)->Some_0 is Obj {
        let o = v.get("env"@)->Some_0->Obj_0;
        if crate::toml_convert::str_entries(o).len() > 0 {
            let pre = head + p_cmd + p_args + p_cwd;
            assert(tab =~= pre + (p_env + ext));
            assert(pre[0].0 == "type"@ && pre[1].0 == "command"@);
            lemma_tbl_get_skip(pre, p_env + ext, "env"@);
            assert((p_env + ext)[0] == p_env[0]);
            lemma_tbl_get_head(p_env + ext, "env"@);
        }
    }
}

/// Round trip for the TOML client's typed stdio fields: decoding the
/// table the encoder writes for a stdio definition yields the same
/// transport, the same command string, the same non-empty all-string
/// argument array, the same non-blank working directory, and the
/// same non-empty all-string environment table. Fields outside these
/// hypotheses (a blank cwd, an argument array with non-string
/// elements) are dropped by the encoder by design, so nothing is
/// claimed of them.
#[verifier::rlimit(100)]
#[verifier::spinoff_prover]
pub proof fn lemma_codex_roundtrip_stdio(v: JVal)
    requires
        v is Obj,
        crate::toml_convert::transport_name(v) == "stdio"@,
    ensures
        codex_spec_of(server_table_spec(v)).str_of("type"@) == Some("stdio"@),
        (match v.get("command"@) {
            Some(JVal::Str(c)) => codex_spec_of(server_table_spec(v)).get("command"@) == Some(
                JVal::Str(c),
            ),
            _ => true,
        }),
        (match v.get("args"@) {
            Some(JVal::Arr(a)) => (a.len() > 0 && (forall|i: int|
                0 <= i < a.len() ==> a[i] is Str)) ==> codex_spec_of(server_table_spec(v)).get(
                "args"@,
            ) == Some(JVal::Arr(a)),
            _ => true,
        }),
        (match v.get("cwd"@) {
            Some(JVal::Str(c)) => nonblank(c) ==> codex_spec_of(server_table_spec(v)).get("cwd"@)
                == Some(JVal::Str(c)),
            _ => true,
        }),
        (match v.get("env"@) {
            Some(JVal::Obj(o)) => (o.len() > 0 && (forall|i: int|
                0 <= i < o.len() ==> (#[trigger] o[i]).1 is Str)) ==> codex_spec_of(
                server_table_spec(v),
            ).get("env"@) == Some(JVal::Obj(o)),
            _ => true,
        }),
{
    distinct_codex_keys();
    lemma_codex_rt_table(v);
    let t = "stdio"@;
    let tab = server_table_spec(v);
    let c_cmd = seq![
        ("command"@, JVal::Str(crate::validation::str_field(v, "command"@))),
    ];
    let c_args = (match tbl_get(tab, "args"@) {
        Some(TVal::Arr(a)) => if str_only_elems(a).len() > 0 {
            seq![("args"@, JVal::Arr(str_only_elems(a)))]
        } else {
            Seq::<(Seq<char>, JVal)>::empty()
        },
        _ => Seq::<(Seq<char>, JVal)>::empty(),
    });
    let c_cwd = (match tbl_str(tab, "cwd"@) {
        Some(c) => if nonblank(c) {
            seq![("cwd"@, JVal::Str(c))]
        } else {
            Seq::<(Seq<char>, JVal)>::empty()
        },
        None => Seq::<(Seq<char>, JVal)>::empty(),
    });
    let c_env = (match tbl_get(tab, "env"@) {
        Some(TVal::Table(e)) => if str_entries_j(e).len() > 0 {
            seq![("env"@, JVal::Obj(str_entries_j(e)))]
        } else {
            Seq::<(Seq<char>, JVal)>::empty()
        },
        _ => Seq::<(Seq<char>, JVal)>::empty(),
    });
    assert(codex_stdio_parts(tab) == c_cmd + c_args + c_cwd + c_env);
    let dhead = seq![("type"@, JVal::Str(t))];
    let dext = codex_ext_parts(tab, t);
    let d = codex_spec_of(tab);
    assert(d.entries() == dhead + codex_stdio_parts(tab) + dext);
    assert(forall|i: int| 0 <= i < c_args.len() ==> (#[trigger] c_args[i]).0 == "args"@);
    assert(forall|i: int| 0 <= i < c_cwd.len() ==> (#[trigger] c_cwd[i]).0 == "cwd"@);

    assert(d.entries()[0] == ("type"@, JVal::Str(t)));
    lemma_vobj_get_head(d.entries(), "type"@);
    assert(d.str_of("type"@) == Some(t));

    if v.get("command"@) is Some && v.get("command"@)->Some_0 is Str {
        let c = v.get("command"@)->Some_0->Str_0;
        assert(crate::validation::str_field(v, "command"@) == c);
        assert(d.entries() =~= dhead + (c_cmd + c_args + c_cwd + c_env + dext));
        lemma_vobj_get_skip(dhead, c_cmd + c_args + c_cwd + c_env + dext, "command"@);
        lemma_vobj_get_head(c_cmd + c_args + c_cwd + c_env + dext, "command"@);
        assert(d.get("command"@) == Some(JVal::Str(c)));
    }

    if v.get("args"@) is Some && v.get("args"@)->Some_0 is Arr {
        let a = v.get("args"@)->Some_0->Arr_0;
        if a.len() > 0 && (forall|i: int| 0 <= i < a.len() ==> a[i] is Str) {
            lemma_str_elems_roundtrip(a);
            assert(tbl_get(tab, "args"@) == Some(TVal::Arr(crate::toml_convert::str_elems(a))));
            assert(c_args == seq![("args"@, JVal::Arr(a))]);
            let dpre = dhead + c_cmd;
            assert(d.entries() =~= dpre + (c_args + c_cwd + c_env + dext));
            assert(dpre[0].0 == "type"@ && dpre[1].0 == "command"@);
            lemma_vobj_get_skip(dpre, c_args + c_cwd + c_env + dext, "args"@);
            lemma_vobj_get_head(c_args + c_cwd + c_env + dext, "args"@);
            assert(d.get("args"@) == Some(JVal::Arr(a)));
        }
    }

    if v.get("cwd"@) is Some && v.get("cwd"@)->Some_0 is Str {
        let c = v.get("cwd"@)->Some_0->Str_0;
        if nonblank(c) {
            assert(v.str_of("cwd"@) == Some(c));
            assert(tbl_str(tab, "cwd"@) == Some(c));
            assert(c_cwd == seq![("cwd"@, JVal::Str(c))]);
            let dpre = dhead + c_cmd + c_args;
            assert(d.entries() =~= dpre + (c_cwd + c_env + dext));
            assert(dpre[0].0 == "type"@ && dpre[1].0 == "command"@);
            lemma_vobj_get_skip(dpre, c_cwd + c_env + dext, "cwd"@);
            lemma_vobj_get_head(c_cwd + c_env + dext, "cwd"@);
            assert(d.get("cwd"@) == Some(JVal::Str(c)));
        }
    }

    if v.get("env"@) is Some && v.get("env"@)->Some_0 is Obj {
        let o = v.get("env"@)->Some_0->Obj_0;
        if o.len() > 0 && (forall|i: int| 0 <= i < o.len() ==> (#[trigger] o[i]).1 is Str) {
            lemma_str_entries_roundtrip(o);
            assert(tbl_get(tab, "env"@) == Some(
                TVal::Table(crate::toml_convert::str_entries(o)),
            ));
            assert(c_env == seq![("env"@, JVal::Obj(o))]);
            let dpre = dhead + c_cmd + c_args + c_cwd;
            assert(d.entries() =~= dpre + (c_env + dext));
            assert(dpre[0].0 == "type"@ && dpre[1].0 == "command"@);
            lemma_vobj_get_skip(dpre, c_env + dext, "env"@);
            lemma_vobj_get_head(c_env + dext, "env"@);
            assert(d.get("env"@) == Some(JVal::Obj(o)));
        }
    }
}

/// The codex net keys are pairwise distinct strings.
proof fn distinct_net_keys()
    ensures
        "type"@ != "url"@,
        "type"@ != "http_headers"@,
        "type"@ != "headers"@,
        "url"@ != "http_headers"@,
        "url"@ != "headers"@,
        "http"@ != "stdio"@,
        "sse"@ != "stdio"@,
{
    reveal_strlit("type");
    reveal_strlit("url");
    reveal_strlit("http_headers");
    reveal_strlit("headers");
    reveal_strlit("http");
    reveal_strlit("sse");
    reveal_strlit("stdio");
    assert("type"@.len() == 4);
    assert("url"@.len() == 3);
    assert("http_headers"@.len() == 12);
    assert("headers"@.len() == 7);
    assert("http"@.len() == 4);
    assert("sse"@.len() == 3);
    assert("stdio"@.len() == 5);
}

/// Shared skeleton facts of an encoded http/sse table.
#[verifier::rlimit(100)]
#[verifier::spinoff_prover]
proof fn lemma_codex_rt_table_net(v: JVal)
    requires
        v is Obj,
        crate::toml_convert::transport_name(v) == "http"@ || crate::toml_convert::transport_name(
            v,
        ) == "sse"@,
    ensures
        tbl_transport(server_table_spec(v)) == crate::toml_convert::transport_name(v),
        tbl_str(server_table_spec(v), "url"@) == Some(crate::validation::str_field(v, "url"@)),
        (match v.get("headers"@) {
            Some(JVal::Obj(o)) => crate::toml_convert::str_entries(o).len() > 0 ==> codex_headers(
                server_table_spec(v),
            ) == Some(crate::toml_convert::str_entries(o)),
            _ => true,
        }),
{
    distinct_net_keys();
    let t = crate::toml_convert::transport_name(v);
    let tab = server_table_spec(v);
    let head = seq![("type"@, TVal::Str(t))];
    let p_url = seq![("url"@, TVal::Str(crate::validation::str_field(v, "url"@)))];
    let p_hdr = (match v.get("headers"@) {
        Some(JVal::Obj(o)) => if crate::toml_convert::str_entries(o).len() > 0 {
            seq![("http_headers"@, TVal::Table(crate::toml_convert::str_entries(o)))]
        } else {
            Seq::<(Seq<char>, TVal)>::empty()
        },
        _ => Seq::<(Seq<char>, TVal)>::empty(),
    });
    let ext = crate::toml_convert::ext_parts(v.entries(), t);
    assert(crate::toml_convert::net_parts(v) == p_url + p_hdr);
    assert(tab == head + crate::toml_convert::net_parts(v) + ext);

    assert(tab[0] == ("type"@, TVal::Str(t)));
    lemma_tbl_get_head(tab, "type"@);
    assert(tbl_transport(tab) == t);

    assert(tab =~= head + (p_url + p_hdr + ext));
    lemma_tbl_get_skip(head, p_url + p_hdr + ext, "url"@);
    lemma_tbl_get_head(p_url + p_hdr + ext, "url"@);

    if v.get("headers"@) is Some && v.get("headers"@)->Some_0 is Obj {
        let o = v.get("headers"@)->Some_0->Obj_0;
        if crate::toml_convert::str_entries(o).len() > 0 {
            let pre = head + p_url;
            assert(tab =~= pre + (p_hdr + ext));
            assert(pre[0].0 == "type"@ && pre[1].0 == "url"@);
            lemma_tbl_get_skip(pre, p_hdr + ext, "http_headers"@);
            assert((p_hdr + ext)[0] == p_hdr[0]);
            lemma_tbl_get_head(p_hdr + ext, "http_headers"@);
            assert(tbl_get(tab, "http_headers"@) == Some(
                TVal::Table(crate::toml_convert::str_entries(o)),
            ));
        }
    }
}

/// Round trip for the TOML client's typed http/sse fields: decoding
/// the table the encoder writes yields the same transport, the same
/// url string and the same non-empty all-string headers table.
#[verifier::rlimit(100)]
#[verifier::spinoff_prover]
pub proof fn lemma_codex_roundtrip_net(v: JVal)
    requires
        v is Obj,
        crate::toml_convert::transport_name(v) == "http"@ || crate::toml_convert::transport_name(
            v,
        ) == "sse"@,
    ensures
        codex_spec_of(server_table_spec(v)).str_of("type"@) == Some(
            crate::toml_convert::transport_name(v),
        ),
        (match v.get("url"@) {
            Some(JVal::Str(u)) => codex_spec_of(server_table_spec(v)).get("url"@) == Some(
                JVal::Str(u),
            ),
            _ => true,
        }),
        (match v.get("headers"@) {
            Some(JVal::Obj(o)) => (o.len() > 0 && (forall|i: int|
                0 <= i < o.len() ==> (#[trigger] o[i]).1 is Str)) ==> codex_spec_of(
                server_table_spec(v),
            ).get("headers"@) == Some(JVal::Obj(o)),
            _ => true,
        }),
{
    distinct_net_keys();
    lemma_codex_rt_table_net(v);
    let t = crate::toml_convert::transport_name(v);
    let tab = server_table_spec(v);
    let c_url = seq![("url"@, JVal::Str(crate::validation::str_field(v, "url"@)))];
    let c_hdr = (match codex_headers(tab) {
        Some(h) => if str_entries_j(h).len() > 0 {
            seq![("headers"@, JVal::Obj(str_entries_j(h)))]
        } else {
            Seq::<(Seq<char>, JVal)>::empty()
        },
        None => Seq::<(Seq<char>, JVal)>::empty(),
    });
    assert(codex_net_parts(tab) == c_url + c_hdr);
    let dhead = seq![("type"@, JVal::Str(t))];
    let dext = codex_ext_parts(tab, t);
    let d = codex_spec_of(tab);
    assert(d.entries() == dhead + codex_net_parts(tab) + dext);

    assert(d.entries()[0] == ("type"@, JVal::Str(t)));
    lemma_vobj_get_head(d.entries(), "type"@);
    assert(d.str_of("type"@) == Some(t));

    if v.get("url"@) is Some && v.get("url"@)->Some_0 is Str {
        let u = v.get("url"@)->Some_0->Str_0;
        assert(crate::validation::str_field(v, "url"@) == u);
        assert(d.entries() =~= dhead + (c_url + c_hdr + dext));
        lemma_vobj_get_skip(dhead, c_url + c_hdr + dext, "url"@);
        lemma_vobj_get_head(c_url + c_hdr + dext, "url"@);
        assert(d.get("url"@) == Some(JVal::Str(u)));
    }

    if v.get("headers"@) is Some && v.get("headers"@)->Some_0 is Obj {
        let o = v.get("headers"@)->Some_0->Obj_0;
        if o.len() > 0 && (forall|i: int| 0 <= i < o.len() ==> (#[trigger] o[i]).1 is Str) {
            lemma_str_entries_roundtrip(o);
            assert(codex_headers(tab) == Some(crate::toml_convert::str_entries(o)));
            assert(c_hdr == seq![("headers"@, JVal::Obj(o))]);
            let dpre = dhead + c_url;
            assert(d.entries() =~= dpre + (c_hdr + dext));
            assert(dpre[0].0 == "type"@ && dpre[1].0 == "url"@);
            lemma_vobj_get_skip(dpre, c_hdr + dext, "headers"@);
            lemma_vobj_get_head(c_hdr + dext, "headers"@);
            assert(d.get("headers"@) == Some(JVal::Obj(o)));
        }
    }
}

} // verus!
