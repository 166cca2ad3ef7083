//! The canonical unified server store.
//!
//! One record per server id, independent of any client file format.
//! The store is a list with pairwise-distinct ids; contracts address
//! it through `has` / `get`, a map in all but name.

use vstd::prelude::*;

use crate::app_config::{AppType, McpServer, ServerView};
use crate::errors::AppError;
use crate::validation::valid_server_spec;

verus! {

pub struct CanonicalStore {
    pub servers: Vec<McpServer>,
}

impl CanonicalStore {
    /// Pairwise-distinct ids.
    pub open spec fn wf(self) -> bool {
        forall|i: int, j: int|
            0 <= i < j < self.servers@.len() ==> (#[trigger] self.servers@[i])@.id != (
            #[trigger] self.servers@[j])@.id
    }

    pub open spec fn has(self, id: Seq<char>) -> bool {
        exists|i: int| 0 <= i < self.servers@.len() && (#[trigger] self.servers@[i])@.id == id
    }

    /// The record with the given id, when `has(id)`.
    pub open spec fn get(self, id: Seq<char>) -> ServerView {
        self.servers@[choose|i: int|
            0 <= i < self.servers@.len() && (#[trigger] self.servers@[i])@.id == id]@
    }

    pub fn new() -> (r: CanonicalStore)
        ensures
            r.wf(),
            r.servers@.len() == 0,
    {
        CanonicalStore { servers: Vec::new() }
    }

    /// Position of the record with the given id, if any.
    fn find(&self, id: &str) -> (r: Option<usize>)
        ensures
            match r {
                Some(i) => i < self.servers@.len() && self.servers@[i as int]@.id == id@,
                None => !self.has(id@),
            },
    {
        let mut i: usize = 0;
        while i < self.servers.len()
            invariant
                i <= self.servers@.len(),
                forall|j: int| 0 <= j < i ==> (#[trigger] self.servers@[j])@.id != id@,
            decreases self.servers@.len() - i,
        {
            if crate::strutil::str_eq(self.servers[i].id.as_str(), id) {
                return Some(i);
            }
            i = i + 1;
        }
        None
    }

    /// Insert a new record or fully replace the one with the same id.
    /// The server definition must pass validation; a rejected record
    /// leaves the store untouched.
    pub fn upsert_server(&mut self, server: McpServer) -> (r: Result<(), AppError>)
        requires
            old(self).wf(),
        ensures
            final(self).wf(),
            match r {
                Ok(_) => {
                    &&& valid_server_spec(server@.server)
                    &&& final(self).has(server@.id)
                    &&& final(self).get(server@.id) == server@
                    &&& forall|id: Seq<char>|
                        id != server@.id ==> (#[trigger] final(self).has(id)) == old(self).has(id)
                            && (final(self).has(id) ==> final(self).get(id) == old(self).get(id))
                },
                Err(e) => {
                    &&& !valid_server_spec(server@.server)
                    &&& e is McpValidation
                    &&& *final(self) == *old(self)
                },
            },
    {
        if let Err(e) = crate::validation::validate_server_spec(&server.server) {
            return Err(e);
        }
        let found = self.find(server.id.as_str());
        let ghost orig = self.servers@;
        match found {
            Some(i) => {
                self.servers[i] = server;
                proof {
                    lemma_unique_update(orig, self.servers@, i as int);
                    assert(self.get(server@.id) == server@) by {
                        lemma_get_at(*self, i as int);
                    }
                    assert forall|id: Seq<char>| id != server@.id implies (#[trigger] self.has(id))
                        == old(self).has(id) && (self.has(id) ==> self.get(id) == old(self).get(
                        id,
                    )) by {
                        lemma_has_get_update(*old(self), *self, i as int, id);
                    }
                }
            },
            None => {
                self.servers.push(server);
                proof {
                    assert forall|i: int, j: int|
                        0 <= i < j < self.servers@.len() implies (#[trigger] self.servers@[i])@.id
                        != (#[trigger] self.servers@[j])@.id by {
                        if j < orig.len() {
                            assert(orig[i] == self.servers@[i]);
                        } else {
                            assert(self.servers@[j]@.id == server@.id);
                            assert(orig[i] == self.servers@[i]);
                            assert(!old(self).has(server@.id));
                        }
                    }
                    assert(self.get(server@.id) == server@) by {
                        lemma_get_at(*self, orig.len() as int);
                    }
                    assert forall|id: Seq<char>| id != server@.id implies (#[trigger] self.has(id))
                        == old(self).has(id) && (self.has(id) ==> self.get(id) == old(self).get(
                        id,
                    )) by {
                        lemma_has_get_push(*old(self), *self, id);
                    }
                }
            },
        }
        Ok(())
    }

    /// Remove the record with the given id; report whether it existed.
    pub fn delete_server(&mut self, id: &str) -> (r: bool)
        requires
            old(self).wf(),
        ensures
            final(self).wf(),
            r == old(self).has(id@),
            !final(self).has(id@),
            forall|other: Seq<char>|
                other != id@ ==> (#[trigger] final(self).has(other)) == old(self).has(other) && (
                final(self).has(other) ==> final(self).get(other) == old(self).get(other)),
    {
        let found = self.find(id);
        let ghost orig = *self;
        match found {
            Some(i) => {
                self.servers.remove(i);
                proof {
                    lemma_remove_effect(orig, *self, i as int, id@);
                }
                true
            },
            None => false,
        }
    }

    /// Flip exactly one client flag of the record with the given id.
    /// An unknown id is a no-op that reports `false`; no placeholder
    /// record is ever created.
    pub fn toggle_app(&mut self, id: &str, app: &AppType, enabled: bool) -> (r: bool)
        requires
            old(self).wf(),
        ensures
            final(self).wf(),
            r == old(self).has(id@),
            final(self).has(id@) == old(self).has(id@),
            old(self).has(id@) ==> final(self).get(id@) == (ServerView {
                apps: old(self).get(id@).apps.spec_set_enabled_for(*app, enabled),
                ..old(self).get(id@)
            }),
            forall|other: Seq<char>|
                other != id@ ==> (#[trigger] final(self).has(other)) == old(self).has(other) && (
                final(self).has(other) ==> final(self).get(other) == old(self).get(other)),
    {
        let found = self.find(id);
        let ghost orig = *self;
        match found {
            Some(i) => {
                self.servers[i].apps.set_enabled_for(app, enabled);
                proof {
                    lemma_unique_update(orig.servers@, self.servers@, i as int);
                    assert(self.servers@[i as int]@.id == id@);
                    lemma_get_at(orig, i as int);
                    lemma_get_at(*self, i as int);
                    assert forall|other: Seq<char>| other != id@ implies (#[trigger] self.has(
                        other,
                    )) == old(self).has(other) && (self.has(other) ==> self.get(other) == old(
                        self,
                    ).get(other)) by {
                        lemma_has_get_update(orig, *self, i as int, other);
                    }
                }
                true
            },
            None => false,
        }
    }
}


impl CanonicalStore {
    /// Whether the stored record's definition passes validation, for
    /// a present id.
    pub fn stored_spec_valid(&self, id: &str) -> (r: Option<bool>)
        requires
            self.wf(),
        ensures
            match r {
                Some(b) => self.has(id@) && b == valid_server_spec(self.get(id@).server),
                None => !self.has(id@),
            },
    {
        let mut i: usize = 0;
        while i < self.servers.len()
            invariant
                self.wf(),
                i <= self.servers@.len(),
                forall|j: int| 0 <= j < i ==> (#[trigger] self.servers@[j])@.id != id@,
            decreases self.servers@.len() - i,
        {
            if crate::strutil::str_eq(self.servers[i].id.as_str(), id) {
                proof {
                    lemma_get_at(*self, i as int);
                }
                let ok = crate::validation::validate_server_spec(&self.servers[i].server).is_ok();
                return Some(ok);
            }
            i = i + 1;
        }
        None
    }
}

/// `get` picks the record at any index whose id matches, since ids
/// are pairwise distinct.
pub proof fn lemma_get_at(s: CanonicalStore, i: int)
    requires
        s.wf(),
        0 <= i < s.servers@.len(),
    ensures
        s.has(s.servers@[i]@.id),
        s.get(s.servers@[i]@.id) == s.servers@[i]@,
{
    let id = s.servers@[i]@.id;
    assert(s.has(id));
    let j = choose|j: int| 0 <= j < s.servers@.len() && (#[trigger] s.servers@[j])@.id == id;
    if i != j {
        if i < j {
            assert(s.servers@[i]@.id != s.servers@[j]@.id);
        } else {
            assert(s.servers@[j]@.id != s.servers@[i]@.id);
        }
    }
}

proof fn lemma_unique_update(orig: Seq<McpServer>, upd: Seq<McpServer>, i: int)
    requires
        0 <= i < orig.len(),
        upd.len() == orig.len(),
        upd[i]@.id == orig[i]@.id,
        forall|k: int| 0 <= k < orig.len() && k != i ==> upd[k] == orig[k],
        forall|a: int, b: int|
            0 <= a < b < orig.len() ==> (#[trigger] orig[a])@.id != (#[trigger] orig[b])@.id,
    ensures
        forall|a: int, b: int|
            0 <= a < b < upd.len() ==> (#[trigger] upd[a])@.id != (#[trigger] upd[b])@.id,
{
    assert forall|a: int, b: int| 0 <= a < b < upd.len() implies (#[trigger] upd[a])@.id != (
    #[trigger] upd[b])@.id by {
        assert(orig[a]@.id != orig[b]@.id);
        assert(upd[a]@.id == orig[a]@.id);
        assert(upd[b]@.id == orig[b]@.id);
    }
}

pub proof fn lemma_has_get_update(orig: CanonicalStore, upd: CanonicalStore, i: int, id: Seq<char>)
    requires
        orig.wf(),
        upd.wf(),
        0 <= i < orig.servers@.len(),
        upd.servers@.len() == orig.servers@.len(),
        upd.servers@[i]@.id == orig.servers@[i]@.id,
        id != orig.servers@[i]@.id,
        forall|k: int| 0 <= k < orig.servers@.len() && k != i ==> upd.servers@[k] == orig.servers@[k],
    ensures
        upd.has(id) == orig.has(id),
        upd.has(id) ==> upd.get(id) == orig.get(id),
{
    if orig.has(id) {
        let k = choose|k: int|
            0 <= k < orig.servers@.len() && (#[trigger] orig.servers@[k])@.id == id;
        assert(k != i);
        assert(upd.servers@[k]@.id == id);
        assert(upd.has(id));
        lemma_get_at(orig, k);
        lemma_get_at(upd, k);
    }
    if upd.has(id) {
        let k = choose|k: int| 0 <= k < upd.servers@.len() && (#[trigger] upd.servers@[k])@.id == id;
        assert(k != i);
        assert(orig.servers@[k]@.id == id);
        assert(orig.has(id));
    }
}

pub proof fn lemma_has_get_push(orig: CanonicalStore, upd: CanonicalStore, id: Seq<char>)
    requires
        orig.wf(),
        upd.wf(),
        upd.servers@.len() == orig.servers@.len() + 1,
        id != upd.servers@[orig.servers@.len() as int]@.id,
        forall|k: int| 0 <= k < orig.servers@.len() ==> upd.servers@[k] == orig.servers@[k],
    ensures
        upd.has(id) == orig.has(id),
        upd.has(id) ==> upd.get(id) == orig.get(id),
{
    if orig.has(id) {
        let k = choose|k: int|
            0 <= k < orig.servers@.len() && (#[trigger] orig.servers@[k])@.id == id;
        assert(upd.servers@[k]@.id == id);
        assert(upd.has(id));
        lemma_get_at(orig, k);
        lemma_get_at(upd, k);
    }
    if upd.has(id) {
        let k = choose|k: int| 0 <= k < upd.servers@.len() && (#[trigger] upd.servers@[k])@.id == id;
        assert(k < orig.servers@.len());
        assert(orig.servers@[k]@.id == id);
        assert(orig.has(id));
    }
}

proof fn lemma_remove_effect(orig: CanonicalStore, upd: CanonicalStore, i: int, id: Seq<char>)
    requires
        orig.wf(),
        0 <= i < orig.servers@.len(),
        orig.servers@[i]@.id == id,
        upd.servers@ == orig.servers@.remove(i),
    ensures
        upd.wf(),
        !upd.has(id),
        forall|other: Seq<char>|
            other != id ==> (#[trigger] upd.has(other)) == orig.has(other) && (upd.has(other)
                ==> upd.get(other) == orig.get(other)),
{
    assert forall|a: int, b: int| 0 <= a < b < upd.servers@.len() implies (
    #[trigger] upd.servers@[a])@.id != (#[trigger] upd.servers@[b])@.id by {
        let oa: int = if a < i {
            a
        } else {
            a + 1
        };
        let ob: int = if b < i {
            b
        } else {
            b + 1
        };
        assert(upd.servers@[a] == orig.servers@[oa]);
        assert(upd.servers@[b] == orig.servers@[ob]);
        assert(orig.servers@[oa]@.id != orig.servers@[ob]@.id);
    }
    assert forall|k: int| 0 <= k < upd.servers@.len() implies (#[trigger] upd.servers@[k])@.id
        != id by {
        let ok: int = if k < i {
            k
        } else {
            k + 1
        };
        assert(upd.servers@[k] == orig.servers@[ok]);
        if ok != i {
            if ok < i {
                assert(orig.servers@[ok]@.id != orig.servers@[i]@.id);
            } else {
                assert(orig.servers@[i]@.id != orig.servers@[ok]@.id);
            }
        }
    }
    assert forall|other: Seq<char>| other != id implies (#[trigger] upd.has(other)) == orig.has(
        other,
    ) && (upd.has(other) ==> upd.get(other) == orig.get(other)) by {
        if orig.has(other) {
            let k = choose|k: int|
                0 <= k < orig.servers@.len() && (#[trigger] orig.servers@[k])@.id == other;
            assert(k != i);
            let nk: int = if k < i {
                k
            } else {
                k - 1
            };
            assert(upd.servers@[nk] == orig.servers@[k]);
            assert(upd.has(other));
            lemma_get_at(orig, k);
            lemma_get_at(CanonicalStore { servers: upd.servers }, nk);
            assert(upd.get(other) == orig.get(other));
        }
        if upd.has(other) {
            let k = choose|k: int|
                0 <= k < upd.servers@.len() && (#[trigger] upd.servers@[k])@.id == other;
            let ok: int = if k < i {
                k
            } else {
                k + 1
            };
            assert(upd.servers@[k] == orig.servers@[ok]);
            assert(orig.has(other));
        }
    }
}

} // verus!
