//! Id repair for the legacy per-client server maps.
//!
//! Each entry of such a map is a loose JSON object that may carry its
//! own `id` field. Id uniqueness is the map key's business, so a
//! missing, blank, non-string or mismatched embedded id is repaired
//! to the entry's map key; the keys themselves never change.

use vstd::prelude::*;

use crate::model::{eview, jview, obj_get, obj_set, JsonVal, JVal};
use crate::strutil;

verus! {

/// After repair, every object entry's embedded id names its own key.
pub open spec fn ids_match_keys(entries: Seq<(String, JsonVal)>) -> bool {
    forall|i: int|
        0 <= i < entries.len() && jview((#[trigger] entries[i]).1) is Obj ==> jview(
            entries[i].1,
        ).str_of("id"@) == Some(entries[i].0@)
}

/// Whether one entry needs its id repaired: it is an object whose
/// embedded id is not exactly its key.
pub open spec fn needs_repair(key: Seq<char>, v: JVal) -> bool {
    v is Obj && v.str_of("id"@) != Some(key)
}

/// How many entries the repair changes.
pub open spec fn repair_count(es: Seq<(Seq<char>, JVal)>) -> nat
    decreases es.len(),
{
    if es.len() == 0 {
        0
    } else {
        repair_count(es.drop_last()) + (if needs_repair(es.last().0, es.last().1) {
            1nat
        } else {
            0nat
        })
    }
}

/// Repair one map in place and report how many entries changed.
/// Every object entry's embedded id equals its key afterwards; keys
/// and entries that are not objects are untouched.
pub fn normalize_server_keys(entries: &mut Vec<(String, JsonVal)>) -> (n: usize)
    ensures
        ids_match_keys(final(entries)@),
        final(entries)@.len() == old(entries)@.len(),
        forall|i: int|
            0 <= i < old(entries)@.len() ==> (#[trigger] final(entries)@[i]).0 == old(
                entries,
            )@[i].0,
        forall|i: int|
            0 <= i < old(entries)@.len() && !(jview((#[trigger] old(entries)@[i]).1) is Obj)
                ==> final(entries)@[i] == old(entries)@[i],
        forall|i: int|
            0 <= i < old(entries)@.len() && jview((#[trigger] old(entries)@[i]).1) is Obj ==> jview(
                final(entries)@[i].1,
            ) == JVal::Obj(
                crate::model::vobj_set(
                    jview(old(entries)@[i].1).entries(),
                    "id"@,
                    JVal::Str(old(entries)@[i].0@),
                ),
            ),
        n == repair_count(eview(old(entries)@)),
{
    let ghost ev = eview(old(entries)@);
    let mut changed: usize = 0;
    let mut i: usize = 0;
    while i < entries.len()
        invariant
            i <= entries@.len(),
            ev == eview(old(entries)@),
            entries@.len() == old(entries)@.len(),
            changed == repair_count(ev.take(i as int)),
            changed <= i,
            forall|k: int|
                0 <= k < old(entries)@.len() ==> (#[trigger] entries@[k]).0 == old(entries)@[k].0,
            forall|k: int|
                i <= k < entries@.len() ==> #[trigger] entries@[k] == old(entries)@[k],
            forall|k: int|
                0 <= k < i && !(jview((#[trigger] old(entries)@[k]).1) is Obj) ==> entries@[k]
                    == old(entries)@[k],
            forall|k: int|
                0 <= k < i && jview((#[trigger] old(entries)@[k]).1) is Obj ==> jview(
                    entries@[k].1,
                ) == JVal::Obj(
                    crate::model::vobj_set(
                        jview(old(entries)@[k].1).entries(),
                        "id"@,
                        JVal::Str(old(entries)@[k].0@),
                    ),
                ),
        decreases entries@.len() - i,
    {
        let is_obj = match &entries[i].1 {
            JsonVal::Obj(_) => true,
            _ => false,
        };
        if is_obj {
            let key_copy = entries[i].0.clone();
            proof {
                assert(ev[i as int].0 == old(entries)@[i as int].0@);
                assert(ev[i as int].1 == jview(old(entries)@[i as int].1));
            }
            set_entry_id(entries, i, key_copy, &mut changed);
        }
        proof {
            assert(ev.take(i + 1).drop_last() =~= ev.take(i as int));
            assert(ev.take(i + 1).last() == ev[i as int]);
        }
        i = i + 1;
    }
    proof {
        assert(ev.take(ev.len() as int) =~= ev);
        assert(ids_match_keys(entries@)) by {
            assert forall|k: int|
                0 <= k < entries@.len() && jview((#[trigger] entries@[k]).1) is Obj implies jview(
                entries@[k].1,
            ).str_of("id"@) == Some(entries@[k].0@) by {
                if jview(old(entries)@[k].1) is Obj {
                    crate::model::lemma_vobj_set_get(
                        jview(old(entries)@[k].1).entries(),
                        "id"@,
                        JVal::Str(old(entries)@[k].0@),
                    );
                }
            }
        }
    }
    changed
}

/// Set the entry's embedded id, counting a change exactly when the
/// stored id was not already this string.
fn set_entry_id(entries: &mut Vec<(String, JsonVal)>, i: usize, id: String, changed: &mut usize)
    requires
        i < old(entries)@.len(),
        jview(old(entries)@[i as int].1) is Obj,
        *old(changed) < usize::MAX,
    ensures
        final(entries)@.len() == old(entries)@.len(),
        forall|k: int|
            0 <= k < old(entries)@.len() && k != i ==> #[trigger] final(entries)@[k] == old(
                entries,
            )@[k],
        final(entries)@[i as int].0 == old(entries)@[i as int].0,
        jview(final(entries)@[i as int].1) == JVal::Obj(
            crate::model::vobj_set(
                jview(old(entries)@[i as int].1).entries(),
                "id"@,
                JVal::Str(id@),
            ),
        ),
        *final(changed) == *old(changed) + (if needs_repair(id@, jview(old(entries)@[i as int].1)) {
            1int
        } else {
            0int
        }),
{
    let already = match &entries[i].1 {
        JsonVal::Obj(obj_entries) => {
            proof {
                crate::model::lemma_obj_entries(*obj_entries);
            }
            match obj_get(obj_entries, "id") {
                Some(JsonVal::Str(s)) => strutil::str_eq(s.as_str(), id.as_str()),
                _ => false,
            }
        },
        _ => false,
    };
    match &mut entries[i].1 {
        JsonVal::Obj(obj_entries) => {
            let ghost before = eview(obj_entries@);
            obj_set(obj_entries, "id".to_owned(), JsonVal::Str(id));
            proof {
                crate::model::lemma_obj_entries(*obj_entries);
            }
        },
        _ => {},
    }
    if !already {
        *changed = *changed + 1;
    }
}

} // verus!
