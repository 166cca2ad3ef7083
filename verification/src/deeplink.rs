//! The import-request side of deep links. URL handling and Base64
//! decoding live in the surrounding application; the crate owns the
//! `apps` parameter grammar, a comma-separated list of client names.

use vstd::prelude::*;

use crate::app_config::{AppType, McpApps};
use crate::errors::AppError;
use crate::strutil::{self, char_idx, trim_spec};

verus! {

/// Which client one trimmed segment names, if any. The names are
/// matched exactly, lower case.
pub open spec fn seg_app(seg: Seq<char>) -> Option<AppType> {
    let t = trim_spec(seg);
    if t == "client_a"@ {
        Some(AppType::ClientA)
    } else if t == "codex"@ {
        Some(AppType::Codex)
    } else if t == "gemini"@ {
        Some(AppType::Gemini)
    } else {
        None
    }
}

/// Fold the comma-separated list into flags; any unknown segment
/// fails the whole parse.
pub open spec fn parse_apps_rec(s: Seq<char>, acc: McpApps) -> Option<McpApps>
    decreases s.len(),
{
    let i = char_idx(s, ',');
    if 0 <= i < s.len() {
        match seg_app(s.take(i)) {
            Some(a) => parse_apps_rec(s.skip(i + 1), acc.spec_set_enabled_for(a, true)),
            None => None,
        }
    } else {
        match seg_app(s) {
            Some(a) => Some(acc.spec_set_enabled_for(a, true)),
            None => None,
        }
    }
}

/// The flags an `apps` parameter denotes.
pub open spec fn parse_mcp_apps_spec(s: Seq<char>) -> Option<McpApps> {
    parse_apps_rec(s, McpApps { client_a: false, codex: false, gemini: false })
}

fn find_comma(cs: &Vec<char>, from: usize) -> (r: Option<usize>)
    requires
        from <= cs@.len(),
    ensures
        match r {
            Some(i) => from <= i < cs@.len() && char_idx(cs@.skip(from as int), ',') == i - from,
            None => char_idx(cs@.skip(from as int), ',') < 0,
        },
{
    let mut i: usize = from;
    while i < cs.len()
        invariant
            from <= i <= cs@.len(),
            forall|j: int| from <= j < i ==> cs@[j] != ',',
        decreases cs@.len() - i,
    {
        if cs[i] == ',' {
            proof {
                let sk = cs@.skip(from as int);
                assert(sk[i - from] == cs@[i as int]);
                assert forall|j: int| 0 <= j < i - from implies sk[j] != ',' by {
                    assert(sk[j] == cs@[from + j]);
                }
                strutil::lemma_char_idx_first(sk, ',', i - from as int);
            }
            return Some(i);
        }
        i = i + 1;
    }
    proof {
        let sk = cs@.skip(from as int);
        strutil::lemma_char_idx(sk, ',');
        if char_idx(sk, ',') >= 0 {
            assert(cs@[from + char_idx(sk, ',')] == ',');
        }
    }
    None
}

fn seg_app_exec(seg: &Vec<char>) -> (r: Option<AppType>)
    ensures
        r == seg_app(seg@),
{
    let t = strutil::trim_chars(seg);
    let client_a = strutil::str_chars("client_a");
    let codex = strutil::str_chars("codex");
    let gemini = strutil::str_chars("gemini");
    if strutil::chars_eq(&t, &client_a) {
        Some(AppType::ClientA)
    } else if strutil::chars_eq(&t, &codex) {
        Some(AppType::Codex)
    } else if strutil::chars_eq(&t, &gemini) {
        Some(AppType::Gemini)
    } else {
        None
    }
}

/// Parse the `apps` parameter of an MCP import request: one or more
/// client names separated by commas, whitespace around each name
/// ignored. An unknown name rejects the whole parameter; an accepted
/// list always enables at least one client.
pub fn parse_mcp_apps(apps_str: &str) -> (r: Result<McpApps, AppError>)
    ensures
        match r {
            Ok(a) => parse_mcp_apps_spec(apps_str@) == Some(a) && !(a == (McpApps {
                client_a: false,
                codex: false,
                gemini: false,
            })),
            Err(e) => e is InvalidInput,
        },
        parse_mcp_apps_spec(apps_str@) is Some ==> r is Ok,
{
    let cs = strutil::str_chars(apps_str);
    let total_len: usize = cs.len();
    proof {
        assert(cs@.len() == total_len);
    }
    let mut acc = McpApps { client_a: false, codex: false, gemini: false };
    let mut pos: usize = 0;
    let mut more: bool = true;
    proof {
        assert(cs@.skip(0) =~= cs@);
    }
    while more
        invariant
            pos <= cs@.len(),
            cs@.len() <= usize::MAX,
            cs@ == apps_str@,
            more ==> parse_mcp_apps_spec(cs@) == parse_apps_rec(cs@.skip(pos as int), acc),
            !more ==> parse_mcp_apps_spec(cs@) == Some(acc) && (acc.client_a || acc.codex
                || acc.gemini),
        decreases cs@.len() - pos + (if more {
            1int
        } else {
            0int
        }),
    {
        let ghost rest = cs@.skip(pos as int);
        let comma = find_comma(&cs, pos);
        let upto = match comma {
            Some(i) => i,
            None => cs.len(),
        };
        let mut seg: Vec<char> = Vec::new();
        let mut k: usize = pos;
        while k < upto
            invariant
                pos <= k <= upto <= cs@.len(),
                seg@ == cs@.subrange(pos as int, k as int),
            decreases upto - k,
        {
            seg.push(cs[k]);
            proof {
                assert(seg@ =~= cs@.subrange(pos as int, k + 1));
            }
            k = k + 1;
        }
        let app = match seg_app_exec(&seg) {
            Some(a) => a,
            None => {
                let shown = strutil::chars_string(&strutil::trim_chars(&seg));
                let mut msg = "Invalid app in 'apps': ".to_owned();
                msg.append(shown.as_str());
                proof {
                    match comma {
                        Some(i) => {
                            assert(seg@ =~= rest.take(i - pos));
                        },
                        None => {
                            assert(seg@ =~= rest);
                        },
                    }
                }
                return Err(AppError::InvalidInput(msg));
            },
        };
        acc.set_enabled_for(&app, true);
        match comma {
            Some(i) => {
                proof {
                    assert(seg@ =~= rest.take(i - pos));
                    assert(rest.skip(i - pos + 1) =~= cs@.skip(i + 1));
                    strutil::lemma_char_idx(rest, ',');
                }
                pos = i + 1;
            },
            None => {
                proof {
                    assert(seg@ =~= rest);
                    strutil::lemma_char_idx(rest, ',');
                }
                pos = cs.len();
                more = false;
            },
        }
    }
    if acc.is_empty() {
        return Err(
            AppError::InvalidInput("At least one app must be specified in 'apps'".to_owned()),
        );
    }
    Ok(acc)
}


/// The outcome of a deep-link MCP import.
pub struct McpImportError {
    pub id: String,
    pub error: String,
}

pub struct McpImportResult {
    pub imported_count: usize,
    pub imported_ids: Vec<String>,
    pub failed: Vec<McpImportError>,
}

/// One deep-link merge step: an existing record keeps every field and
/// gains the requested flags; a new id becomes a full record with the
/// requested flags and the import tag. A record whose definition
/// fails validation is skipped and reported.
pub open spec fn deep_step(
    m: Map<Seq<char>, crate::app_config::ServerView>,
    id: Seq<char>,
    spec: crate::model::JVal,
    apps: McpApps,
) -> Map<Seq<char>, crate::app_config::ServerView> {
    if m.dom().contains(id) {
        if crate::validation::valid_server_spec(m[id].server) {
            m.insert(
                id,
                crate::app_config::ServerView {
                    apps: McpApps {
                        client_a: m[id].apps.client_a || apps.client_a,
                        codex: m[id].apps.codex || apps.codex,
                        gemini: m[id].apps.gemini || apps.gemini,
                    },
                    ..m[id]
                },
            )
        } else {
            m
        }
    } else {
        if crate::validation::valid_server_spec(spec) {
            m.insert(
                id,
                crate::app_config::ServerView {
                    id: id,
                    name: id,
                    server: spec,
                    apps: apps,
                    description: None,
                    homepage: None,
                    docs: None,
                    tags: seq!["imported"@],
                },
            )
        } else {
            m
        }
    }
}

pub open spec fn deep_fold(
    m: Map<Seq<char>, crate::app_config::ServerView>,
    entries: Seq<(Seq<char>, crate::model::JVal)>,
    apps: McpApps,
) -> Map<Seq<char>, crate::app_config::ServerView>
    decreases entries.len(),
{
    if entries.len() == 0 {
        m
    } else {
        deep_step(deep_fold(m, entries.drop_last(), apps), entries.last().0, entries.last().1, apps)
    }
}

/// Merge an already-decoded deep-link MCP request into the store:
/// each entry for the requested clients, existing records keeping
/// every field but gaining the requested flags, and per-entry
/// validation failures collected instead of aborting the batch.
pub fn import_mcp_from_deeplink(
    store: &mut crate::store::CanonicalStore,
    entries: &Vec<(String, crate::model::JsonVal)>,
    apps: &McpApps,
) -> (r: McpImportResult)
    requires
        old(store).wf(),
    ensures
        final(store).wf(),
        crate::sync::store_map(*final(store)) == deep_fold(
            crate::sync::store_map(*old(store)),
            crate::model::eview(entries@),
            *apps,
        ),
        r.imported_count == r.imported_ids@.len(),
        r.imported_ids@.len() + r.failed@.len() == entries@.len(),
{
    let ghost m0 = crate::sync::store_map(*old(store));
    let ghost ev = crate::model::eview(entries@);
    let mut imported_ids: Vec<String> = Vec::new();
    let mut failed: Vec<McpImportError> = Vec::new();
    let mut i: usize = 0;
    while i < entries.len()
        invariant
            store.wf(),
            ev == crate::model::eview(entries@),
            i <= ev.len(),
            entries@.len() == ev.len(),
            imported_ids@.len() + failed@.len() == i,
            crate::sync::store_map(*store) == deep_fold(m0, ev.take(i as int), *apps),
        decreases ev.len() - i,
    {
        let ghost pre = crate::sync::store_map(*store);
        let id = &entries[i].0;
        match store.stored_spec_valid(id.as_str()) {
            Some(true) => {
                if apps.client_a {
                    store.toggle_app(id.as_str(), &AppType::ClientA, true);
                }
                if apps.codex {
                    store.toggle_app(id.as_str(), &AppType::Codex, true);
                }
                if apps.gemini {
                    store.toggle_app(id.as_str(), &AppType::Gemini, true);
                }
                imported_ids.push(id.clone());
            },
            Some(false) => {
                failed.push(
                    McpImportError {
                        id: id.clone(),
                        error: "the stored definition fails validation".to_owned(),
                    },
                );
            },
            None => {
                let mut tags: Vec<String> = Vec::new();
                tags.push("imported".to_owned());
                let record = crate::app_config::McpServer {
                    id: id.clone(),
                    name: id.clone(),
                    server: entries[i].1.clone(),
                    apps: *apps,
                    description: None,
                    homepage: None,
                    docs: None,
                    tags: tags,
                };
                proof {
                    assert(crate::app_config::tags_view(record.tags@) =~= seq!["imported"@]);
                }
                match store.upsert_server(record) {
                    Ok(_) => {
                        imported_ids.push(id.clone());
                    },
                    Err(e) => {
                        failed.push(McpImportError { id: id.clone(), error: e.message() });
                    },
                }
            },
        }
        proof {
            assert(crate::sync::store_map(*store) =~= deep_step(
                pre,
                ev[i as int].0,
                ev[i as int].1,
                *apps,
            ));
            assert(ev.take(i + 1).drop_last() =~= ev.take(i as int));
            assert(ev.take(i + 1).last() == ev[i as int]);
        }
        i = i + 1;
    }
    proof {
        assert(ev.take(ev.len() as int) =~= ev);
    }
    McpImportResult { imported_count: imported_ids.len(), imported_ids, failed }
}

} // verus!
