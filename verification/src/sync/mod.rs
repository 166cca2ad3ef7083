//! The shared import/export algorithm, independent of file encodings.
//!
//! Importing merges a list of `(id, spec)` pairs read from one client's
//! live file into the canonical store: an existing id only gets that
//! client's flag switched on, a new id becomes a full record enabled
//! for that client alone, and an invalid spec is skipped without
//! aborting the batch. Exporting filters the store by one client's
//! flag.

pub mod client_a;
pub mod codex;
pub mod gemini;

use vstd::prelude::*;

use crate::app_config::{AppType, McpApps, McpServer, ServerView};
use crate::model::{eview, JVal, JsonVal};
use crate::store::CanonicalStore;
use crate::validation::valid_server_spec;

verus! {

/// The store as a map from id to record.
pub open spec fn store_map(s: CanonicalStore) -> Map<Seq<char>, ServerView> {
    Map::new(|id: Seq<char>| s.has(id), |id: Seq<char>| s.get(id))
}

/// The record created for an id first seen in this client's live file.
pub open spec fn new_server_view(id: Seq<char>, spec: JVal, app: AppType) -> ServerView {
    ServerView {
        id: id,
        name: id,
        server: spec,
        apps: (McpApps { client_a: false, codex: false, gemini: false }).spec_set_enabled_for(
            app,
            true,
        ),
        description: None,
        homepage: None,
        docs: None,
        tags: Seq::empty(),
    }
}

/// One merge step: skip an invalid spec; flip the flag of a known id;
/// insert a full record for a new id. The count tallies flips that
/// actually changed the flag, plus insertions.
pub open spec fn merge_step(
    m: Map<Seq<char>, ServerView>,
    n: nat,
    id: Seq<char>,
    spec: JVal,
    app: AppType,
) -> (Map<Seq<char>, ServerView>, nat) {
    if !valid_server_spec(spec) {
        (m, n)
    } else if m.dom().contains(id) {
        if m[id].apps.spec_enabled_for(app) {
            (m, n)
        } else {
            (
                m.insert(
                    id,
                    ServerView { apps: m[id].apps.spec_set_enabled_for(app, true), ..m[id] },
                ),
                n + 1,
            )
        }
    } else {
        (m.insert(id, new_server_view(id, spec, app)), n + 1)
    }
}

/// Left fold of `merge_step` over the entries of a live file.
pub open spec fn merge_fold(
    m: Map<Seq<char>, ServerView>,
    entries: Seq<(Seq<char>, JVal)>,
    app: AppType,
) -> (Map<Seq<char>, ServerView>, nat)
    decreases entries.len(),
{
    if entries.len() == 0 {
        (m, 0)
    } else {
        let prev = merge_fold(m, entries.drop_last(), app);
        let e = entries.last();
        let stepped = merge_step(prev.0, prev.1, e.0, e.1, app);
        (stepped.0, stepped.1)
    }
}

impl CanonicalStore {
    /// The client flags of the record with the given id, if any.
    pub fn apps_of(&self, id: &str) -> (r: Option<McpApps>)
        requires
            self.wf(),
        ensures
            match r {
                Some(a) => self.has(id@) && a == self.get(id@).apps,
                None => !self.has(id@),
            },
    {
        let mut i: usize = 0;
        while i < self.servers.len()
            invariant
                self.wf(),
                i <= self.servers@.len(),
                forall|j: int| 0 <= j < i ==> (#[trigger] self.servers@[j])@.id != id@,
            decreases self.servers@.len() - i,
        {
            if crate::strutil::str_eq(self.servers[i].id.as_str(), id) {
                proof {
                    crate::store::lemma_get_at(*self, i as int);
                }
                return Some(self.servers[i].apps);
            }
            i = i + 1;
        }
        None
    }
}

/// Merge a decoded live file into the store for one client and report
/// how many records were inserted or had their flag switched on.
pub fn import_servers(store: &mut CanonicalStore, entries: &Vec<(String, JsonVal)>, app: &AppType)
    -> (n: usize)
    requires
        old(store).wf(),
    ensures
        final(store).wf(),
        store_map(*final(store)) == merge_fold(store_map(*old(store)), eview(entries@), *app).0,
        n == merge_fold(store_map(*old(store)), eview(entries@), *app).1,
{
    let ghost m0 = store_map(*old(store));
    let ghost ev = eview(entries@);
    let mut changed: usize = 0;
    let mut i: usize = 0;
    while i < entries.len()
        invariant
            store.wf(),
            ev == eview(entries@),
            i <= ev.len(),
            entries@.len() == ev.len(),
            changed <= i,
            store_map(*store) == merge_fold(m0, ev.take(i as int), *app).0,
            changed == merge_fold(m0, ev.take(i as int), *app).1,
        decreases ev.len() - i,
    {
        let ghost pre_map = store_map(*store);
        let ghost pre_n = changed as nat;
        let ghost step = merge_step(pre_map, pre_n, ev[i as int].0, ev[i as int].1, *app);
        let valid = crate::validation::validate_server_spec(&entries[i].1).is_ok();
        if valid {
            match store.apps_of(entries[i].0.as_str()) {
                Some(apps) => {
                    if !apps.is_enabled_for(app) {
                        store.toggle_app(entries[i].0.as_str(), app, true);
                        changed = changed + 1;
                        proof {
                            assert(store_map(*store) =~= step.0);
                        }
                    } else {
                        proof {
                            assert(store_map(*store) =~= step.0);
                        }
                    }
                },
                None => {
                    let id_s = entries[i].0.clone();
                    let name_s = entries[i].0.clone();
                    let spec_c = entries[i].1.clone();
                    let mut a = McpApps { client_a: false, codex: false, gemini: false };
                    a.set_enabled_for(app, true);
                    let server = McpServer {
                        id: id_s,
                        name: name_s,
                        server: spec_c,
                        apps: a,
                        description: None,
                        homepage: None,
                        docs: None,
                        tags: Vec::new(),
                    };
                    proof {
                        assert(crate::app_config::tags_view(Seq::<String>::empty()) =~= Seq::<
                            Seq<char>,
                        >::empty());
                        assert(server@ == new_server_view(ev[i as int].0, ev[i as int].1, *app));
                    }
                    let res = store.upsert_server(server);
                    proof {
                        if res is Err {
                            assert(false);
                        }
                    }
                    changed = changed + 1;
                    proof {
                        assert(store_map(*store) =~= step.0);
                    }
                },
            }
        } else {
            proof {
                assert(store_map(*store) =~= step.0);
            }
        }
        proof {
            assert(store_map(*store) == step.0 && changed == step.1);
            assert(ev.take(i + 1).drop_last() =~= ev.take(i as int));
            assert(ev.take(i + 1).last() == ev[i as int]);
            assert(merge_fold(m0, ev.take(i + 1), *app).0 == step.0);
            assert(merge_fold(m0, ev.take(i + 1), *app).1 == step.1);
        }
        i = i + 1;
    }
    proof {
        assert(ev.take(ev.len() as int) =~= ev);
    }
    changed
}


/// The `(id, spec)` pairs of the records enabled for one client, in
/// store order.
pub open spec fn enabled_views(ss: Seq<McpServer>, app: AppType) -> Seq<(Seq<char>, JVal)>
    decreases ss.len(),
{
    if ss.len() == 0 {
        Seq::empty()
    } else {
        enabled_views(ss.drop_last(), app) + (if ss.last()@.apps.spec_enabled_for(app) {
            seq![(ss.last()@.id, ss.last()@.server)]
        } else {
            Seq::empty()
        })
    }
}

/// Filter the store by one client's flag.
pub fn collect_enabled_servers(store: &CanonicalStore, app: &AppType) -> (r: Vec<
    (String, JsonVal),
>)
    ensures
        eview(r@) == enabled_views(store.servers@, *app),
{
    let mut r: Vec<(String, JsonVal)> = Vec::new();
    let mut i: usize = 0;
    while i < store.servers.len()
        invariant
            i <= store.servers@.len(),
            eview(r@) == enabled_views(store.servers@.take(i as int), *app),
        decreases store.servers@.len() - i,
    {
        if store.servers[i].apps.is_enabled_for(app) {
            let id = store.servers[i].id.clone();
            let spec = store.servers[i].server.clone();
            r.push((id, spec));
        }
        proof {
            assert(store.servers@.take(i + 1).drop_last() =~= store.servers@.take(i as int));
            assert(store.servers@.take(i + 1).last() == store.servers@[i as int]);
            assert(eview(r@) =~= enabled_views(store.servers@.take(i + 1), *app));
        }
        i = i + 1;
    }
    proof {
        assert(store.servers@.take(store.servers@.len() as int) =~= store.servers@);
    }
    r
}

/// The UI-only bookkeeping fields stripped before writing a live file.
pub open spec fn strip_ui_fields(e: Seq<(Seq<char>, JVal)>) -> Seq<(Seq<char>, JVal)> {
    crate::model::vobj_remove(
        crate::model::vobj_remove(
            crate::model::vobj_remove(
                crate::model::vobj_remove(
                    crate::model::vobj_remove(
                        crate::model::vobj_remove(
                            crate::model::vobj_remove(
                                crate::model::vobj_remove(e, "enabled"@),
                                "source"@,
                            ),
                            "id"@,
                        ),
                        "name"@,
                    ),
                    "description"@,
                ),
                "tags"@,
            ),
            "homepage"@,
        ),
        "docs"@,
    )
}

/// Whether a stored record can be written out: it is a JSON object,
/// and its legacy `server` wrapper, when present, is an object too.
pub open spec fn payload_base_ok(v: JVal) -> bool {
    &&& v is Obj
    &&& match crate::model::vobj_get(v.entries(), "server"@) {
        Some(s) => s is Obj,
        None => true,
    }
}

/// The entries the payload starts from: the legacy `server` wrapper's
/// object when present, the record itself otherwise.
pub open spec fn payload_base(v: JVal) -> Seq<(Seq<char>, JVal)> {
    match crate::model::vobj_get(v.entries(), "server"@) {
        Some(s) => s.entries(),
        None => v.entries(),
    }
}

/// The transport-specific rename for the one client that tells
/// HTTP-streaming from SSE by field name: `url` becomes `httpUrl`
/// when the transport is `http`.
pub open spec fn http_url_rename(e: Seq<(Seq<char>, JVal)>) -> Seq<(Seq<char>, JVal)> {
    if crate::model::vobj_get(e, "type"@) == Some(JVal::Str("http"@)) && crate::model::vobj_has(
        e,
        "url"@,
    ) {
        crate::model::vobj_set(
            crate::model::vobj_remove(e, "url"@),
            "httpUrl"@,
            crate::model::vobj_get(e, "url"@)->Some_0,
        )
    } else {
        e
    }
}

/// The object written for one server into a client's live file.
pub open spec fn payload_entries(v: JVal, app: AppType) -> Seq<(Seq<char>, JVal)> {
    match app {
        AppType::Gemini => crate::model::vobj_remove(
            strip_ui_fields(http_url_rename(payload_base(v))),
            "type"@,
        ),
        _ => strip_ui_fields(payload_base(v)),
    }
}

/// Build the live-file object for one record; reject a record whose
/// definition is not an object.
pub fn client_payload(spec: &JsonVal, app: &AppType) -> (r: Result<JsonVal, crate::errors::AppError>)
    ensures
        match r {
            Ok(p) => payload_base_ok(spec@) && p@ == JVal::Obj(payload_entries(spec@, *app)),
            Err(e) => !payload_base_ok(spec@) && e is McpValidation,
        },
{
    let entries = match spec {
        JsonVal::Obj(entries) => entries,
        _ => {
            return Err(
                crate::errors::AppError::McpValidation(
                    "MCP server definition is not an object".to_owned(),
                ),
            );
        },
    };
    proof {
        crate::model::lemma_obj_entries(*entries);
    }
    let mut work: Vec<(String, JsonVal)> = match crate::model::obj_get(entries, "server") {
        Some(inner) => match inner {
            JsonVal::Obj(ie) => {
                proof {
                    crate::model::lemma_obj_entries(*ie);
                }
                crate::model::clone_entries(ie)
            },
            _ => {
                return Err(
                    crate::errors::AppError::McpValidation(
                        "MCP server's server field is not an object".to_owned(),
                    ),
                );
            },
        },
        None => crate::model::clone_entries(entries),
    };
    proof {
        assert(eview(work@) == payload_base(spec@));
    }
    if let AppType::Gemini = app {
        let is_http = match crate::model::obj_get(&work, "type") {
            Some(JsonVal::Str(t)) => crate::strutil::str_eq(t.as_str(), "http"),
            _ => false,
        };
        if is_http {
            match crate::model::obj_take(&mut work, "url") {
                Some(uv) => {
                    crate::model::obj_set(&mut work, "httpUrl".to_owned(), uv);
                },
                None => {},
            }
        }
        proof {
            assert(eview(work@) == http_url_rename(payload_base(spec@)));
        }
    }
    let ghost renamed = eview(work@);
    crate::model::obj_remove(&mut work, "enabled");
    crate::model::obj_remove(&mut work, "source");
    crate::model::obj_remove(&mut work, "id");
    crate::model::obj_remove(&mut work, "name");
    crate::model::obj_remove(&mut work, "description");
    crate::model::obj_remove(&mut work, "tags");
    crate::model::obj_remove(&mut work, "homepage");
    crate::model::obj_remove(&mut work, "docs");
    proof {
        assert(eview(work@) == strip_ui_fields(renamed));
    }
    if let AppType::Gemini = app {
        crate::model::obj_remove(&mut work, "type");
    }
    proof {
        crate::model::lemma_obj_entries(work);
        assert(eview(work@) == payload_entries(spec@, *app));
    }
    Ok(JsonVal::Obj(work))
}

/// The `mcpServers` object for one client: each enabled record keyed
/// by id, rendered as that client's payload.
pub open spec fn export_pairs(pairs: Seq<(Seq<char>, JVal)>, app: AppType) -> Seq<
    (Seq<char>, JVal),
> {
    Seq::new(pairs.len(), |i: int| (pairs[i].0, JVal::Obj(payload_entries(pairs[i].1, app))))
}

/// Whether every pair can be written.
pub open spec fn all_payload_ok(pairs: Seq<(Seq<char>, JVal)>) -> bool {
    forall|i: int| 0 <= i < pairs.len() ==> payload_base_ok((#[trigger] pairs[i]).1)
}

/// Apply one client's payload shape to each `(id, spec)` pair.
pub fn payload_pairs_vec(pairs: &Vec<(String, JsonVal)>, app: &AppType) -> (r: Result<
    Vec<(String, JsonVal)>,
    crate::errors::AppError,
>)
    ensures
        match r {
            Ok(out) => all_payload_ok(eview(pairs@)) && eview(out@) == export_pairs(
                eview(pairs@),
                *app,
            ),
            Err(e) => !all_payload_ok(eview(pairs@)) && e is McpValidation,
        },
{
    let ghost pv = eview(pairs@);
    let mut out: Vec<(String, JsonVal)> = Vec::new();
    let mut i: usize = 0;
    while i < pairs.len()
        invariant
            pv == eview(pairs@),
            pairs@.len() == pv.len(),
            i <= pv.len(),
            forall|j: int| 0 <= j < i ==> payload_base_ok((#[trigger] pv[j]).1),
            eview(out@) == export_pairs(pv, *app).take(i as int),
        decreases pv.len() - i,
    {
        proof {
            assert(pv[i as int].0 == pairs@[i as int].0@);
            assert(pv[i as int].1 == crate::model::jview(pairs@[i as int].1));
        }
        match client_payload(&pairs[i].1, app) {
            Ok(p) => {
                let id = pairs[i].0.clone();
                let ghost before = out@;
                let ghost pushed = (id, p);
                out.push((id, p));
                proof {
                    assert(out@ == before.push(pushed));
                    crate::model::lemma_eview_push(before, pushed);
                    assert(export_pairs(pv, *app)[i as int] == (
                        pv[i as int].0,
                        JVal::Obj(payload_entries(pv[i as int].1, *app)),
                    ));
                    assert(eview(out@) == export_pairs(pv, *app).take(i as int).push(
                        export_pairs(pv, *app)[i as int],
                    ));
                    assert(eview(out@) =~= export_pairs(pv, *app).take(i + 1));
                }
            },
            Err(e) => {
                proof {
                    assert(!payload_base_ok(pv[i as int].1));
                }
                return Err(e);
            },
        }
        i = i + 1;
    }
    proof {
        assert(export_pairs(pv, *app).take(pv.len() as int) =~= export_pairs(pv, *app));
    }
    Ok(out)
}

/// The value stored under `mcpServers` in a client's live file:
/// every enabled record, as that client's payload. Fails, leaving
/// nothing written, when some enabled record is not an object.
pub fn export_mcp_servers_value(store: &CanonicalStore, app: &AppType) -> (r: Result<
    JsonVal,
    crate::errors::AppError,
>)
    ensures
        match r {
            Ok(v) => all_payload_ok(enabled_views(store.servers@, *app)) && v@ == JVal::Obj(
                export_pairs(enabled_views(store.servers@, *app), *app),
            ),
            Err(e) => !all_payload_ok(enabled_views(store.servers@, *app)) && e is McpValidation,
        },
{
    let pairs = collect_enabled_servers(store, app);
    match payload_pairs_vec(&pairs, app) {
        Ok(out) => {
            proof {
                crate::model::lemma_obj_entries(out);
            }
            Ok(JsonVal::Obj(out))
        },
        Err(e) => Err(e),
    }
}

/// View of an optional live-file text.
pub open spec fn live_view(live: Option<&str>) -> Option<Seq<char>> {
    match live {
        Some(t) => Some(t@),
        None => None,
    }
}

/// Whether the live file can serve as the base document: it is absent,
/// or it parses to a JSON object.
pub open spec fn live_base_ok(live: Option<Seq<char>>) -> bool {
    match live {
        None => true,
        Some(t) => match crate::jsonio::json_doc_of(t) {
            Some(d) => d is Obj,
            None => false,
        },
    }
}

/// The top-level entries of the base document (empty for a missing file).
pub open spec fn live_base_entries(live: Option<Seq<char>>) -> Seq<(Seq<char>, JVal)> {
    match live {
        None => Seq::empty(),
        Some(t) => crate::jsonio::json_doc_of(t)->Some_0.entries(),
    }
}

/// The `(id, spec)` pairs a JSON-family live file carries: the entries
/// of its `mcpServers` object, or none when the key or file is absent.
pub open spec fn live_server_entries(live: Option<Seq<char>>) -> Seq<(Seq<char>, JVal)> {
    match live {
        None => Seq::empty(),
        Some(t) => match crate::jsonio::json_doc_of(t) {
            Some(d) => match d.get("mcpServers"@) {
                Some(JVal::Obj(e)) => e,
                _ => Seq::empty(),
            },
            None => Seq::empty(),
        },
    }
}

/// The text written to a JSON-family live file: the base document with
/// only its `mcpServers` key replaced.
pub open spec fn export_text_spec(
    live: Option<Seq<char>>,
    ss: Seq<McpServer>,
    app: AppType,
) -> Seq<char> {
    crate::jsonio::json_text_of(
        JVal::Obj(
            crate::model::vobj_set(
                live_base_entries(live),
                "mcpServers"@,
                JVal::Obj(export_pairs(enabled_views(ss, app), app)),
            ),
        ),
    )
}

/// Project the records enabled for one client into that client's live
/// file: read the existing document (or start from an empty object),
/// replace only the `mcpServers` key, and hand back the new text.
/// A malformed live file is a hard error and nothing is written.
pub fn render_live_export(store: &CanonicalStore, app: &AppType, live: Option<&str>) -> (r: Result<
    String,
    crate::errors::AppError,
>)
    ensures
        match r {
            Ok(text) => {
                &&& all_payload_ok(enabled_views(store.servers@, *app))
                &&& live_base_ok(live_view(live))
                &&& text@ == export_text_spec(live_view(live), store.servers@, *app)
            },
            Err(e) => match e {
                crate::errors::AppError::Parse(_) => live_view(live) is Some
                    && crate::jsonio::json_doc_of(live_view(live)->Some_0) is None,
                crate::errors::AppError::Config(_) => !live_base_ok(live_view(live)),
                crate::errors::AppError::McpValidation(_) => !all_payload_ok(
                    enabled_views(store.servers@, *app),
                ),
                _ => false,
            },
        },
        r is Ok <==> live_base_ok(live_view(live)) && all_payload_ok(
            enabled_views(store.servers@, *app),
        ),
{
    let servers_value = match export_mcp_servers_value(store, app) {
        Ok(v) => v,
        Err(e) => {
            return Err(e);
        },
    };
    let mut base: Vec<(String, JsonVal)> = match live {
        None => Vec::new(),
        Some(text) => {
            match crate::jsonio::parse_json(text) {
                Ok(doc) => match doc {
                    JsonVal::Obj(entries) => {
                        proof {
                            crate::model::lemma_obj_entries(entries);
                        }
                        entries
                    },
                    _ => {
                        return Err(
                            crate::errors::AppError::Config(
                                "live configuration root is not a JSON object".to_owned(),
                            ),
                        );
                    },
                },
                Err(_) => {
                    return Err(
                        crate::errors::AppError::Parse(
                            "live configuration is not valid JSON".to_owned(),
                        ),
                    );
                },
            }
        },
    };
    proof {
        assert(eview(base@) =~= live_base_entries(live_view(live)));
    }
    crate::model::obj_set(&mut base, "mcpServers".to_owned(), servers_value);
    proof {
        crate::model::lemma_obj_entries(base);
    }
    let root = JsonVal::Obj(base);
    Ok(crate::jsonio::render_json_pretty(&root))
}

/// Merge one JSON-family live file into the store. A missing file is
/// zero changes; a malformed one is a hard error that leaves the store
/// untouched; a file without an `mcpServers` object contributes no
/// entries.
pub fn import_from_live_json(store: &mut CanonicalStore, live: Option<&str>, app: &AppType) -> (r:
    Result<usize, crate::errors::AppError>)
    requires
        old(store).wf(),
    ensures
        final(store).wf(),
        match r {
            Ok(n) => {
                &&& (live_view(live) is Some ==> crate::jsonio::json_doc_of(
                    live_view(live)->Some_0,
                ) is Some)
                &&& store_map(*final(store)) == merge_fold(
                    store_map(*old(store)),
                    live_server_entries(live_view(live)),
                    *app,
                ).0
                &&& n == merge_fold(
                    store_map(*old(store)),
                    live_server_entries(live_view(live)),
                    *app,
                ).1
            },
            Err(e) => {
                &&& e is Parse
                &&& live_view(live) is Some
                &&& crate::jsonio::json_doc_of(live_view(live)->Some_0) is None
                &&& *final(store) == *old(store)
            },
        },
{
    let text = match live {
        None => {
            proof {
                assert(merge_fold(
                    store_map(*old(store)),
                    Seq::<(Seq<char>, JVal)>::empty(),
                    *app,
                ).0 =~= store_map(*old(store)));
            }
            return Ok(0);
        },
        Some(t) => t,
    };
    let doc = match crate::jsonio::parse_json(text) {
        Ok(d) => d,
        Err(_) => {
            return Err(
                crate::errors::AppError::Parse("live configuration is not valid JSON".to_owned()),
            );
        },
    };
    let entries_opt: Option<&Vec<(String, JsonVal)>> = match &doc {
        JsonVal::Obj(root_entries) => {
            proof {
                crate::model::lemma_obj_entries(*root_entries);
            }
            match crate::model::obj_get(root_entries, "mcpServers") {
                Some(ms) => match ms {
                    JsonVal::Obj(server_entries) => {
                        proof {
                            crate::model::lemma_obj_entries(*server_entries);
                        }
                        Some(server_entries)
                    },
                    _ => None,
                },
                None => None,
            }
        },
        _ => None,
    };
    match entries_opt {
        Some(server_entries) => {
            let n = import_servers(store, server_entries, app);
            Ok(n)
        },
        None => {
            proof {
                assert(live_server_entries(live_view(live)) =~= Seq::<(Seq<char>, JVal)>::empty());
                assert(merge_fold(
                    store_map(*old(store)),
                    live_server_entries(live_view(live)),
                    *app,
                ).0 =~= store_map(*old(store)));
            }
            Ok(0)
        },
    }
}


/// The text written back after removing one server from a JSON-family
/// live file: the remaining `mcpServers` entries re-encoded as that
/// client's payloads, everything else in the document untouched.
pub open spec fn remove_text_spec(live: Option<Seq<char>>, id: Seq<char>, app: AppType) -> Seq<
    char,
> {
    crate::jsonio::json_text_of(
        JVal::Obj(
            crate::model::vobj_set(
                live_base_entries(live),
                "mcpServers"@,
                JVal::Obj(
                    export_pairs(
                        crate::model::vobj_remove(live_server_entries(live), id),
                        app,
                    ),
                ),
            ),
        ),
    )
}

/// Remove one server's entry from a JSON-family live file and hand
/// back the new text. A missing file yields a document holding only an
/// empty `mcpServers` object; a malformed one is a hard error.
pub fn remove_server_from_live(live: Option<&str>, id: &str, app: &AppType) -> (r: Result<
    String,
    crate::errors::AppError,
>)
    ensures
        match r {
            Ok(text) => {
                &&& live_base_ok(live_view(live))
                &&& all_payload_ok(
                    crate::model::vobj_remove(live_server_entries(live_view(live)), id@),
                )
                &&& text@ == remove_text_spec(live_view(live), id@, *app)
            },
            Err(e) => match e {
                crate::errors::AppError::Parse(_) => live_view(live) is Some
                    && crate::jsonio::json_doc_of(live_view(live)->Some_0) is None,
                crate::errors::AppError::Config(_) => !live_base_ok(live_view(live)),
                crate::errors::AppError::McpValidation(_) => !all_payload_ok(
                    crate::model::vobj_remove(live_server_entries(live_view(live)), id@),
                ),
                _ => false,
            },
        },
{
    let mut base: Vec<(String, JsonVal)> = Vec::new();
    let mut servers: Vec<(String, JsonVal)> = Vec::new();
    if let Some(text) = live {
        let doc = match crate::jsonio::parse_json(text) {
            Ok(d) => d,
            Err(_) => {
                return Err(
                    crate::errors::AppError::Parse(
                        "live configuration is not valid JSON".to_owned(),
                    ),
                );
            },
        };
        match doc {
            JsonVal::Obj(root_entries) => {
                proof {
                    crate::model::lemma_obj_entries(root_entries);
                }
                match crate::model::obj_get(&root_entries, "mcpServers") {
                    Some(ms) => match ms {
                        JsonVal::Obj(server_entries) => {
                            proof {
                                crate::model::lemma_obj_entries(*server_entries);
                            }
                            servers = crate::model::clone_entries(server_entries);
                        },
                        _ => {},
                    },
                    None => {},
                }
                base = root_entries;
            },
            _ => {
                return Err(
                    crate::errors::AppError::Config(
                        "live configuration root is not a JSON object".to_owned(),
                    ),
                );
            },
        }
    }
    proof {
        assert(eview(base@) =~= live_base_entries(live_view(live)));
        assert(eview(servers@) =~= live_server_entries(live_view(live)));
    }
    crate::model::obj_remove(&mut servers, id);
    let payloads = match payload_pairs_vec(&servers, app) {
        Ok(p) => p,
        Err(e) => {
            return Err(e);
        },
    };
    proof {
        crate::model::lemma_obj_entries(payloads);
    }
    crate::model::obj_set(&mut base, "mcpServers".to_owned(), JsonVal::Obj(payloads));
    proof {
        crate::model::lemma_obj_entries(base);
    }
    let root = JsonVal::Obj(base);
    Ok(crate::jsonio::render_json_pretty(&root))
}

} // verus!
