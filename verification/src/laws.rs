//! Global properties of the import/export algorithm, proved once over
//! the models that the functions' own contracts use.

use vstd::prelude::*;

use crate::app_config::{AppType, McpServer, ServerView};
use crate::model::JVal;
use crate::store::CanonicalStore;
use crate::sync::{
    enabled_views, export_pairs, merge_fold, merge_step, new_server_view, store_map,
};

verus! {

/// A merge whose every entry already names a present, enabled record
/// changes nothing and counts zero.
proof fn lemma_fold_noop(m: Map<Seq<char>, ServerView>, e: Seq<(Seq<char>, JVal)>, app: AppType)
    requires
        forall|k: int|
            0 <= k < e.len() ==> m.dom().contains((#[trigger] e[k]).0) && m[e[k].0].apps.spec_enabled_for(
                app,
            ),
    ensures
        merge_fold(m, e, app) == (m, 0nat),
    decreases e.len(),
{
    if e.len() > 0 {
        lemma_fold_noop(m, e.drop_last(), app);
        assert(e[e.len() - 1] == e.last());
    }
}

/// Every id listed by `enabled_views` is present in the store with
/// that client's flag on.
proof fn lemma_enabled_views_ids(s: CanonicalStore, ss: Seq<McpServer>, app: AppType, k: int)
    requires
        s.wf(),
        ss == s.servers@,
        0 <= k < enabled_views(ss, app).len(),
    ensures
        store_map(s).dom().contains(enabled_views(ss, app)[k].0),
        store_map(s)[enabled_views(ss, app)[k].0].apps.spec_enabled_for(app),
{
    assert(s.servers@.take(s.servers@.len() as int) =~= s.servers@);
    lemma_enabled_views_from(s, ss.len() as int, app, k);
}

/// The entries of `enabled_views` of a prefix each come from a record
/// of the store with the flag on.
proof fn lemma_enabled_views_from(s: CanonicalStore, n: int, app: AppType, k: int)
    requires
        s.wf(),
        0 <= n <= s.servers@.len(),
        0 <= k < enabled_views(s.servers@.take(n), app).len(),
    ensures
        store_map(s).dom().contains(enabled_views(s.servers@.take(n), app)[k].0),
        store_map(s)[enabled_views(s.servers@.take(n), app)[k].0].apps.spec_enabled_for(app),
    decreases n,
{
    let pre = s.servers@.take(n);
    if n > 0 {
        assert(pre.drop_last() =~= s.servers@.take(n - 1));
        let shorter = enabled_views(s.servers@.take(n - 1), app);
        if k < shorter.len() {
            lemma_enabled_views_from(s, n - 1, app, k);
        } else {
            assert(pre.last() == s.servers@[n - 1]);
            crate::store::lemma_get_at(s, n - 1);
            assert(enabled_views(pre, app)[k] == (
                s.servers@[n - 1]@.id,
                s.servers@[n - 1]@.server,
            ));
        }
    }
}

/// Round-trip: exporting the records enabled for one client and
/// importing the result back merges nothing new — the store is
/// unchanged and the importer counts zero changes — so the effective
/// enabled set for that client survives an export/import cycle.
pub proof fn lemma_export_reimport_roundtrip(s: CanonicalStore, app: AppType)
    requires
        s.wf(),
    ensures
        merge_fold(store_map(s), export_pairs(enabled_views(s.servers@, app), app), app) == (
            store_map(s),
            0nat,
        ),
{
    let ev = enabled_views(s.servers@, app);
    let ep = export_pairs(ev, app);
    assert(s.servers@.take(s.servers@.len() as int) =~= s.servers@);
    assert forall|k: int|
        0 <= k < ep.len() implies store_map(s).dom().contains((#[trigger] ep[k]).0) && store_map(
        s,
    )[ep[k].0].apps.spec_enabled_for(app) by {
        assert(ep[k].0 == ev[k].0);
        lemma_enabled_views_ids(s, s.servers@, app, k);
    }
    lemma_fold_noop(store_map(s), ep, app);
}

/// After one merge, every valid entry of the batch is present with the
/// client's flag on.
proof fn lemma_fold_covers(
    m: Map<Seq<char>, ServerView>,
    e: Seq<(Seq<char>, JVal)>,
    app: AppType,
    k: int,
)
    requires
        0 <= k < e.len(),
        crate::validation::valid_server_spec(e[k].1),
    ensures
        merge_fold(m, e, app).0.dom().contains(e[k].0),
        merge_fold(m, e, app).0[e[k].0].apps.spec_enabled_for(app),
    decreases e.len(),
{
    let prev = merge_fold(m, e.drop_last(), app);
    if k < e.len() - 1 {
        lemma_fold_covers(m, e.drop_last(), app, k);
        assert(e.drop_last()[k] == e[k]);
        lemma_step_keeps_enabled(prev.0, prev.1, e.last().0, e.last().1, app, e[k].0);
    } else {
        assert(e[k] == e.last());
    }
}

/// One merge step never removes an id nor clears the flag.
proof fn lemma_step_keeps_enabled(
    m: Map<Seq<char>, ServerView>,
    n: nat,
    id: Seq<char>,
    spec: JVal,
    app: AppType,
    watched: Seq<char>,
)
    requires
        m.dom().contains(watched),
        m[watched].apps.spec_enabled_for(app),
    ensures
        merge_step(m, n, id, spec, app).0.dom().contains(watched),
        merge_step(m, n, id, spec, app).0[watched].apps.spec_enabled_for(app),
{
}

/// Idempotence: running the same import twice changes nothing the
/// second time and reports zero changes.
pub proof fn lemma_import_idempotent(
    m: Map<Seq<char>, ServerView>,
    e: Seq<(Seq<char>, JVal)>,
    app: AppType,
)
    ensures
        merge_fold(merge_fold(m, e, app).0, e, app) == (merge_fold(m, e, app).0, 0nat),
{
    let m1 = merge_fold(m, e, app).0;
    assert forall|k: int|
        0 <= k < e.len() implies m1.dom().contains((#[trigger] e[k]).0)
            && m1[e[k].0].apps.spec_enabled_for(app) || !crate::validation::valid_server_spec(
            e[k].1,
        ) by {
        if crate::validation::valid_server_spec(e[k].1) {
            lemma_fold_covers(m, e, app, k);
        }
    }
    lemma_fold_noop_or_invalid(m1, e, app);
}

/// A merge whose every entry is either invalid or already present and
/// enabled changes nothing.
proof fn lemma_fold_noop_or_invalid(
    m: Map<Seq<char>, ServerView>,
    e: Seq<(Seq<char>, JVal)>,
    app: AppType,
)
    requires
        forall|k: int|
            0 <= k < e.len() ==> m.dom().contains((#[trigger] e[k]).0)
                && m[e[k].0].apps.spec_enabled_for(app) || !crate::validation::valid_server_spec(
                e[k].1,
            ),
    ensures
        merge_fold(m, e, app) == (m, 0nat),
    decreases e.len(),
{
    if e.len() > 0 {
        lemma_fold_noop_or_invalid(m, e.drop_last(), app);
        assert(e[e.len() - 1] == e.last());
    }
}

/// Merge-safety: importing never overwrites an existing record's
/// name, definition, description, tags or links; at most that one
/// client's flag changes, and only from off to on.
pub proof fn lemma_import_merge_safe(
    m: Map<Seq<char>, ServerView>,
    e: Seq<(Seq<char>, JVal)>,
    app: AppType,
    id: Seq<char>,
)
    requires
        m.dom().contains(id),
    ensures
        ({
            let m1 = merge_fold(m, e, app).0;
            &&& m1.dom().contains(id)
            &&& m1[id].id == m[id].id
            &&& m1[id].name == m[id].name
            &&& m1[id].server == m[id].server
            &&& m1[id].description == m[id].description
            &&& m1[id].homepage == m[id].homepage
            &&& m1[id].docs == m[id].docs
            &&& m1[id].tags == m[id].tags
            &&& (m1[id].apps == m[id].apps || m1[id].apps == m[id].apps.spec_set_enabled_for(
                app,
                true,
            ))
        }),
    decreases e.len(),
{
    if e.len() > 0 {
        lemma_import_merge_safe(m, e.drop_last(), app, id);
    }
}

} // verus!
