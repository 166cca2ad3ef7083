//! In-crate models of JSON and TOML documents.
//!
//! Live files are parsed into and rendered from these types, so all
//! merge, filter and conversion logic is ordinary verified code over
//! plain values. A non-integer number is carried as its literal text,
//! so the crate itself never computes with floating point.
//!
//! Contracts speak of the mathematical views `JVal` and `TVal`; the
//! executable types `JsonVal` and `TomlVal` carry the same structure
//! with `String` and `Vec` in place of `Seq`.

use vstd::prelude::*;

verus! {

broadcast use vstd::std_specs::vec::axiom_vec_decreases_to_view, vstd::seq::axiom_seq_index_decreases;

/// A JSON value. Objects keep their entries in the order the
/// producing parser or builder handed them over (the bundled JSON
/// parser yields keys sorted).
pub enum JsonVal {
    Null,
    Bool(bool),
    Int(i64),
    /// Literal text of a number that is not a 64-bit integer.
    Float(String),
    Str(String),
    Arr(Vec<JsonVal>),
    Obj(Vec<(String, JsonVal)>),
}

/// A TOML value as produced by the converter. Tables keep entry order.
pub enum TomlVal {
    Bool(bool),
    Int(i64),
    /// Literal text of a float.
    Float(String),
    Str(String),
    /// Literal text of a date-time; carried through, never produced
    /// by the converter.
    Datetime(String),
    Arr(Vec<TomlVal>),
    Table(Vec<(String, TomlVal)>),
}

/// Mathematical view of a JSON value.
#[verifier::ext_equal]
pub enum JVal {
    Null,
    Bool(bool),
    Int(i64),
    Float(Seq<char>),
    Str(Seq<char>),
    Arr(Seq<JVal>),
    Obj(Seq<(Seq<char>, JVal)>),
}

/// Mathematical view of a TOML value.
#[verifier::ext_equal]
pub enum TVal {
    Bool(bool),
    Int(i64),
    Float(Seq<char>),
    Str(Seq<char>),
    Datetime(Seq<char>),
    Arr(Seq<TVal>),
    Table(Seq<(Seq<char>, TVal)>),
}

pub open spec fn jview(v: JsonVal) -> JVal
    decreases v,
    via jview_decreases
{
    match v {
        JsonVal::Null => JVal::Null,
        JsonVal::Bool(b) => JVal::Bool(b),
        JsonVal::Int(n) => JVal::Int(n),
        JsonVal::Float(s) => JVal::Float(s@),
        JsonVal::Str(s) => JVal::Str(s@),
        JsonVal::Arr(a) => JVal::Arr(Seq::new(a@.len(), |i: int| if 0 <= i < a@.len() { jview(a@[i]) } else { JVal::Null })),
        JsonVal::Obj(o) => JVal::Obj(Seq::new(o@.len(), |i: int| (o@[i].0@, if 0 <= i < o@.len() { jview(o@[i].1) } else { JVal::Null }))),
    }
}

pub open spec fn tview(v: TomlVal) -> TVal
    decreases v,
    via tview_decreases
{
    match v {
        TomlVal::Bool(b) => TVal::Bool(b),
        TomlVal::Int(n) => TVal::Int(n),
        TomlVal::Float(s) => TVal::Float(s@),
        TomlVal::Str(s) => TVal::Str(s@),
        TomlVal::Datetime(s) => TVal::Datetime(s@),
        TomlVal::Arr(a) => TVal::Arr(Seq::new(a@.len(), |i: int| if 0 <= i < a@.len() { tview(a@[i]) } else { TVal::Bool(false) })),
        TomlVal::Table(o) => TVal::Table(Seq::new(o@.len(), |i: int| (o@[i].0@, if 0 <= i < o@.len() { tview(o@[i].1) } else { TVal::Bool(false) }))),
    }
}

#[via_fn]
proof fn jview_decreases(v: JsonVal) {
    match v {
        JsonVal::Arr(a) => {
            assert forall|i: int| 0 <= i < a@.len() implies #[trigger] (decreases_to!(v => a@[i])) by {
                assert(a == v->Arr_0);
                assert(decreases_to!(v => v->Arr_0));
                assert(decreases_to!(v->Arr_0 => v->Arr_0@));
                assert(decreases_to!(v->Arr_0@ => v->Arr_0@[i]));
            }
        },
        JsonVal::Obj(o) => {
            assert forall|i: int| 0 <= i < o@.len() implies #[trigger] (decreases_to!(v => o@[i].1)) by {
                assert(o == v->Obj_0);
                assert(decreases_to!(v => v->Obj_0));
                assert(decreases_to!(v->Obj_0 => v->Obj_0@));
                assert(decreases_to!(v->Obj_0@ => v->Obj_0@[i]));
                assert(decreases_to!(v->Obj_0@[i] => v->Obj_0@[i].1));
            }
        },
        _ => {},
    }
}

#[via_fn]
proof fn tview_decreases(v: TomlVal) {
    match v {
        TomlVal::Arr(a) => {
            assert forall|i: int| 0 <= i < a@.len() implies #[trigger] (decreases_to!(v => a@[i])) by {
                assert(a == v->Arr_0);
                assert(decreases_to!(v => v->Arr_0));
                assert(decreases_to!(v->Arr_0 => v->Arr_0@));
                assert(decreases_to!(v->Arr_0@ => v->Arr_0@[i]));
            }
        },
        TomlVal::Table(o) => {
            assert forall|i: int| 0 <= i < o@.len() implies #[trigger] (decreases_to!(v => o@[i].1)) by {
                assert(o == v->Table_0);
                assert(decreases_to!(v => v->Table_0));
                assert(decreases_to!(v->Table_0 => v->Table_0@));
                assert(decreases_to!(v->Table_0@ => v->Table_0@[i]));
                assert(decreases_to!(v->Table_0@[i] => v->Table_0@[i].1));
            }
        },
        _ => {},
    }
}

impl View for JsonVal {
    type V = JVal;

    open spec fn view(&self) -> JVal {
        jview(*self)
    }
}

impl View for TomlVal {
    type V = TVal;

    open spec fn view(&self) -> TVal {
        tview(*self)
    }
}

/// View of a list of object entries.
pub open spec fn eview(entries: Seq<(String, JsonVal)>) -> Seq<(Seq<char>, JVal)> {
    Seq::new(entries.len(), |i: int| (entries[i].0@, jview(entries[i].1)))
}

/// View of a list of table entries.
pub open spec fn tev(entries: Seq<(String, TomlVal)>) -> Seq<(Seq<char>, TVal)> {
    Seq::new(entries.len(), |i: int| (entries[i].0@, tview(entries[i].1)))
}

/// Index of the first entry with the given key, or -1.
pub open spec fn vobj_idx(entries: Seq<(Seq<char>, JVal)>, key: Seq<char>) -> int
    decreases entries.len(),
{
    if entries.len() == 0 {
        -1
    } else if entries[0].0 == key {
        0
    } else {
        let r = vobj_idx(entries.drop_first(), key);
        if r < 0 {
            -1
        } else {
            r + 1
        }
    }
}

pub open spec fn vobj_has(entries: Seq<(Seq<char>, JVal)>, key: Seq<char>) -> bool {
    vobj_idx(entries, key) >= 0
}

pub open spec fn vobj_get(entries: Seq<(Seq<char>, JVal)>, key: Seq<char>) -> Option<JVal> {
    if vobj_has(entries, key) {
        Some(entries[vobj_idx(entries, key)].1)
    } else {
        None
    }
}

/// The entries with the first occurrence of `key` replaced by `v`,
/// or with `(key, v)` appended when the key is absent.
pub open spec fn vobj_set(entries: Seq<(Seq<char>, JVal)>, key: Seq<char>, v: JVal) -> Seq<
    (Seq<char>, JVal),
> {
    if vobj_has(entries, key) {
        entries.update(vobj_idx(entries, key), (key, v))
    } else {
        entries.push((key, v))
    }
}

/// The entries with the first occurrence of `key` removed.
pub open spec fn vobj_remove(entries: Seq<(Seq<char>, JVal)>, key: Seq<char>) -> Seq<
    (Seq<char>, JVal),
> {
    if vobj_has(entries, key) {
        entries.remove(vobj_idx(entries, key))
    } else {
        entries
    }
}

pub proof fn lemma_vobj_idx_range(entries: Seq<(Seq<char>, JVal)>, key: Seq<char>)
    ensures
        vobj_has(entries, key) ==> 0 <= vobj_idx(entries, key) < entries.len() && entries[vobj_idx(
            entries,
            key,
        )].0 == key,
        !vobj_has(entries, key) ==> forall|i: int|
            0 <= i < entries.len() ==> (#[trigger] entries[i]).0 != key,
        forall|i: int| 0 <= i < vobj_idx(entries, key) ==> (#[trigger] entries[i]).0 != key,
    decreases entries.len(),
{
    if entries.len() > 0 && entries[0].0 != key {
        lemma_vobj_idx_range(entries.drop_first(), key);
        assert forall|i: int| 0 <= i < vobj_idx(entries, key) implies (#[trigger] entries[i]).0
            != key by {
            if i > 0 {
                assert(entries.drop_first()[i - 1] == entries[i]);
            }
        }
        if !vobj_has(entries, key) {
            assert forall|i: int| 0 <= i < entries.len() implies (#[trigger] entries[i]).0
                != key by {
                if i > 0 {
                    assert(entries.drop_first()[i - 1] == entries[i]);
                }
            }
        }
    }
}

pub proof fn lemma_vobj_idx_first(entries: Seq<(Seq<char>, JVal)>, key: Seq<char>, i: int)
    requires
        0 <= i < entries.len(),
        entries[i].0 == key,
        forall|j: int| 0 <= j < i ==> (#[trigger] entries[j]).0 != key,
    ensures
        vobj_idx(entries, key) == i,
    decreases entries.len(),
{
    if i > 0 {
        assert(entries[0].0 != key);
        assert(entries.drop_first()[i - 1] == entries[i]);
        assert forall|j: int| 0 <= j < i - 1 implies (#[trigger] entries.drop_first()[j]).0
            != key by {
            assert(entries.drop_first()[j] == entries[j + 1]);
        }
        lemma_vobj_idx_first(entries.drop_first(), key, i - 1);
    }
}

impl JVal {
    pub open spec fn entries(self) -> Seq<(Seq<char>, JVal)> {
        self->Obj_0
    }

    /// First value stored under `key`, for object values.
    pub open spec fn get(self, key: Seq<char>) -> Option<JVal> {
        if self is Obj {
            vobj_get(self.entries(), key)
        } else {
            None
        }
    }

    pub open spec fn str_of(self, key: Seq<char>) -> Option<Seq<char>> {
        match self.get(key) {
            Some(JVal::Str(s)) => Some(s),
            _ => None,
        }
    }
}


/// View of a list of TOML array elements.
pub open spec fn tev_elems(elems: Seq<TomlVal>) -> Seq<TVal> {
    Seq::new(elems.len(), |i: int| tview(elems[i]))
}

/// View of a list of array elements.
pub open spec fn aview(elems: Seq<JsonVal>) -> Seq<JVal> {
    Seq::new(elems.len(), |i: int| jview(elems[i]))
}

pub proof fn lemma_obj_entries(o: Vec<(String, JsonVal)>)
    ensures
        jview(JsonVal::Obj(o)) == JVal::Obj(eview(o@)),
{
    assert(jview(JsonVal::Obj(o))->Obj_0 =~= eview(o@));
}

pub proof fn lemma_arr_elems(a: Vec<JsonVal>)
    ensures
        jview(JsonVal::Arr(a)) == JVal::Arr(aview(a@)),
{
    assert(jview(JsonVal::Arr(a))->Arr_0 =~= aview(a@));
}

/// View of a list of TOML table entries, as the table's value.
pub proof fn lemma_table_entries(o: Vec<(String, TomlVal)>)
    ensures
        tview(TomlVal::Table(o)) == TVal::Table(tev(o@)),
{
    assert(tview(TomlVal::Table(o))->Table_0 =~= tev(o@));
}

pub proof fn lemma_toml_arr_elems(a: Vec<TomlVal>)
    ensures
        tview(TomlVal::Arr(a)) == TVal::Arr(Seq::new(a@.len(), |i: int| tview(a@[i]))),
{
    assert(tview(TomlVal::Arr(a))->Arr_0 =~= Seq::new(a@.len(), |i: int| tview(a@[i])));
}

impl Clone for JsonVal {
    /// Deep copy; the view is preserved exactly.
    fn clone(&self) -> (r: Self)
        ensures
            r@ == self@,
        decreases *self,
    {
        match self {
            JsonVal::Null => JsonVal::Null,
            JsonVal::Bool(b) => JsonVal::Bool(*b),
            JsonVal::Int(n) => JsonVal::Int(*n),
            JsonVal::Float(s) => JsonVal::Float(s.clone()),
            JsonVal::Str(s) => JsonVal::Str(s.clone()),
            JsonVal::Arr(a) => {
                let mut out: Vec<JsonVal> = Vec::new();
                let mut i: usize = 0;
                while i < a.len()
                    invariant
                        *self == JsonVal::Arr(*a),
                        i <= a@.len(),
                        out@.len() == i,
                        forall|j: int| 0 <= j < i ==> jview(#[trigger] out@[j]) == jview(a@[j]),
                    decreases a@.len() - i,
                {
                    proof {
                        let sv = *self;
                        assert(*a == sv->Arr_0);
                        assert(decreases_to!(sv => sv->Arr_0));
                        assert(decreases_to!(sv->Arr_0 => sv->Arr_0@));
                        assert(decreases_to!(sv->Arr_0@ => sv->Arr_0@[i as int]));
                    }
                    let c = a[i].clone();
                    out.push(c);
                    i = i + 1;
                }
                proof {
                    assert(jview(JsonVal::Arr(out))->Arr_0 =~~= jview(JsonVal::Arr(*a))->Arr_0);
                }
                JsonVal::Arr(out)
            },
            JsonVal::Obj(o) => {
                let mut out: Vec<(String, JsonVal)> = Vec::new();
                let mut i: usize = 0;
                while i < o.len()
                    invariant
                        *self == JsonVal::Obj(*o),
                        i <= o@.len(),
                        out@.len() == i,
                        forall|j: int|
                            0 <= j < i ==> (#[trigger] out@[j]).0@ == o@[j].0@ && jview(out@[j].1)
                                == jview(o@[j].1),
                    decreases o@.len() - i,
                {
                    proof {
                        let sv = *self;
                        assert(*o == sv->Obj_0);
                        assert(decreases_to!(sv => sv->Obj_0));
                        assert(decreases_to!(sv->Obj_0 => sv->Obj_0@));
                        assert(decreases_to!(sv->Obj_0@ => sv->Obj_0@[i as int]));
                        assert(decreases_to!(sv->Obj_0@[i as int] => sv->Obj_0@[i as int].1));
                    }
                    let k = o[i].0.clone();
                    let c = o[i].1.clone();
                    out.push((k, c));
                    i = i + 1;
                }
                proof {
                    assert(jview(JsonVal::Obj(out))->Obj_0 =~~= jview(JsonVal::Obj(*o))->Obj_0);
                }
                JsonVal::Obj(out)
            },
        }
    }
}

/// Look up the first entry with the given key.
pub fn obj_get<'a>(entries: &'a Vec<(String, JsonVal)>, key: &str) -> (r: Option<&'a JsonVal>)
    ensures
        match r {
            Some(v) => vobj_get(eview(entries@), key@) == Some(jview(*v)),
            None => vobj_get(eview(entries@), key@) is None,
        },
{
    proof {
        lemma_vobj_idx_range(eview(entries@), key@);
    }
    let mut i: usize = 0;
    while i < entries.len()
        invariant
            i <= entries@.len(),
            forall|j: int| 0 <= j < i ==> (#[trigger] entries@[j]).0@ != key@,
        decreases entries@.len() - i,
    {
        if crate::strutil::str_eq(entries[i].0.as_str(), key) {
            proof {
                lemma_vobj_idx_first(eview(entries@), key@, i as int);
            }
            return Some(&entries[i].1);
        }
        i = i + 1;
    }
    proof {
        assert(forall|j: int|
            0 <= j < eview(entries@).len() ==> (#[trigger] eview(entries@)[j]).0 == entries@[j].0@);
        lemma_vobj_idx_range(eview(entries@), key@);
        if vobj_has(eview(entries@), key@) {
            let k = vobj_idx(eview(entries@), key@);
            assert(eview(entries@)[k].0 == key@);
        }
    }
    None
}

/// Replace the first entry with `k`'s key, or append a new entry.
pub fn obj_set(entries: &mut Vec<(String, JsonVal)>, k: String, v: JsonVal)
    ensures
        eview(final(entries)@) == vobj_set(eview(old(entries)@), k@, jview(v)),
{
    let ghost orig = entries@;
    let mut i: usize = 0;
    while i < entries.len()
        invariant
            i <= entries@.len(),
            entries@ == orig,
            orig == old(entries)@,
            forall|j: int| 0 <= j < i ==> (#[trigger] entries@[j]).0@ != k@,
        decreases entries@.len() - i,
    {
        if crate::strutil::str_eq(entries[i].0.as_str(), k.as_str()) {
            proof {
                lemma_vobj_idx_first(eview(orig), k@, i as int);
            }
            entries[i].1 = v;
            proof {
                assert(eview(entries@) =~= vobj_set(eview(orig), k@, jview(v)));
            }
            return ;
        }
        i = i + 1;
    }
    proof {
        lemma_vobj_idx_range(eview(orig), k@);
        if vobj_has(eview(orig), k@) {
            let j = vobj_idx(eview(orig), k@);
            assert(eview(orig)[j].0 == orig[j].0@);
        }
    }
    entries.push((k, v));
    proof {
        assert(eview(entries@) =~= vobj_set(eview(orig), k@, jview(v)));
    }
}

/// Remove the first entry with the given key; tell whether one was there.
pub fn obj_remove(entries: &mut Vec<(String, JsonVal)>, key: &str) -> (r: bool)
    ensures
        eview(final(entries)@) == vobj_remove(eview(old(entries)@), key@),
        r == vobj_has(eview(old(entries)@), key@),
{
    let ghost orig = entries@;
    let mut i: usize = 0;
    while i < entries.len()
        invariant
            i <= entries@.len(),
            entries@ == orig,
            orig == old(entries)@,
            forall|j: int| 0 <= j < i ==> (#[trigger] entries@[j]).0@ != key@,
        decreases entries@.len() - i,
    {
        if crate::strutil::str_eq(entries[i].0.as_str(), key) {
            proof {
                lemma_vobj_idx_first(eview(orig), key@, i as int);
            }
            entries.remove(i);
            proof {
                assert(eview(entries@) =~= vobj_remove(eview(orig), key@));
            }
            return true;
        }
        i = i + 1;
    }
    proof {
        lemma_vobj_idx_range(eview(orig), key@);
        if vobj_has(eview(orig), key@) {
            let j = vobj_idx(eview(orig), key@);
            assert(eview(orig)[j].0 == orig[j].0@);
        }
    }
    false
}



pub proof fn lemma_eview_push(s: Seq<(String, JsonVal)>, p: (String, JsonVal))
    ensures
        eview(s.push(p)) == eview(s).push((p.0@, jview(p.1))),
{
    assert(eview(s.push(p)) =~= eview(s).push((p.0@, jview(p.1))));
}


/// Reading back the key just set yields the value just set.
pub proof fn lemma_vobj_set_get(entries: Seq<(Seq<char>, JVal)>, key: Seq<char>, v: JVal)
    ensures
        vobj_get(vobj_set(entries, key, v), key) == Some(v),
{
    lemma_vobj_idx_range(entries, key);
    let upd = vobj_set(entries, key, v);
    if vobj_has(entries, key) {
        let i = vobj_idx(entries, key);
        assert(upd[i].0 == key);
        assert forall|j: int| 0 <= j < i implies (#[trigger] upd[j]).0 != key by {
            assert(upd[j] == entries[j]);
        }
        lemma_vobj_idx_first(upd, key, i);
    } else {
        let i = entries.len() as int;
        assert(upd[i].0 == key);
        assert forall|j: int| 0 <= j < i implies (#[trigger] upd[j]).0 != key by {
            assert(upd[j] == entries[j]);
        }
        lemma_vobj_idx_first(upd, key, i);
    }
}

/// Deep-copy a list of object entries; the view is preserved.
pub fn clone_entries(entries: &Vec<(String, JsonVal)>) -> (r: Vec<(String, JsonVal)>)
    ensures
        eview(r@) == eview(entries@),
{
    let mut r: Vec<(String, JsonVal)> = Vec::new();
    let mut i: usize = 0;
    while i < entries.len()
        invariant
            i <= entries@.len(),
            r@.len() == i,
            forall|j: int|
                0 <= j < i ==> (#[trigger] r@[j]).0@ == entries@[j].0@ && jview(r@[j].1) == jview(
                    entries@[j].1,
                ),
        decreases entries@.len() - i,
    {
        r.push((entries[i].0.clone(), entries[i].1.clone()));
        i = i + 1;
    }
    proof {
        assert(eview(r@) =~= eview(entries@));
    }
    r
}

/// Remove and return the first entry with the given key.
pub fn obj_take(entries: &mut Vec<(String, JsonVal)>, key: &str) -> (r: Option<JsonVal>)
    ensures
        eview(final(entries)@) == vobj_remove(eview(old(entries)@), key@),
        match r {
            Some(v) => vobj_get(eview(old(entries)@), key@) == Some(jview(v)),
            None => vobj_get(eview(old(entries)@), key@) is None,
        },
{
    let ghost orig = entries@;
    let mut i: usize = 0;
    while i < entries.len()
        invariant
            i <= entries@.len(),
            entries@ == orig,
            orig == old(entries)@,
            forall|j: int| 0 <= j < i ==> (#[trigger] entries@[j]).0@ != key@,
        decreases entries@.len() - i,
    {
        if crate::strutil::str_eq(entries[i].0.as_str(), key) {
            proof {
                lemma_vobj_idx_first(eview(orig), key@, i as int);
            }
            let pair = entries.remove(i);
            proof {
                assert(eview(entries@) =~= vobj_remove(eview(orig), key@));
            }
            return Some(pair.1);
        }
        i = i + 1;
    }
    proof {
        lemma_vobj_idx_range(eview(orig), key@);
        if vobj_has(eview(orig), key@) {
            let j = vobj_idx(eview(orig), key@);
            assert(eview(orig)[j].0 == orig[j].0@);
        }
    }
    None
}


/// Index of the first table entry with the given key, or -1.
pub open spec fn tbl_idx(entries: Seq<(Seq<char>, TVal)>, key: Seq<char>) -> int
    decreases entries.len(),
{
    if entries.len() == 0 {
        -1
    } else if entries[0].0 == key {
        0
    } else {
        let r = tbl_idx(entries.drop_first(), key);
        if r < 0 {
            -1
        } else {
            r + 1
        }
    }
}

pub open spec fn tbl_has(entries: Seq<(Seq<char>, TVal)>, key: Seq<char>) -> bool {
    tbl_idx(entries, key) >= 0
}

pub open spec fn tbl_get(entries: Seq<(Seq<char>, TVal)>, key: Seq<char>) -> Option<TVal> {
    if tbl_has(entries, key) {
        Some(entries[tbl_idx(entries, key)].1)
    } else {
        None
    }
}

/// The table entries with the first occurrence of `key` removed.
pub open spec fn tbl_remove(entries: Seq<(Seq<char>, TVal)>, key: Seq<char>) -> Seq<
    (Seq<char>, TVal),
> {
    if tbl_has(entries, key) {
        entries.remove(tbl_idx(entries, key))
    } else {
        entries
    }
}


/// Insert into a table model the way an index-preserving map does:
/// an existing key keeps its position and takes the new value, a new
/// key goes to the end.
pub open spec fn tbl_insert(entries: Seq<(Seq<char>, TVal)>, k: Seq<char>, v: TVal) -> Seq<
    (Seq<char>, TVal),
> {
    if tbl_has(entries, k) {
        entries.update(tbl_idx(entries, k), (k, v))
    } else {
        entries.push((k, v))
    }
}

/// A TOML value as an index-preserving map writer stores it: every
/// table's entries inserted left to right, so a duplicate key keeps
/// its first position and its last value.
pub open spec fn tdedup(v: TVal) -> TVal
    decreases v,
    via tdedup_decreases
{
    match v {
        TVal::Arr(a) => TVal::Arr(
            Seq::new(
                a.len(),
                |i: int|
                    if 0 <= i < a.len() {
                        tdedup(a[i])
                    } else {
                        TVal::Bool(false)
                    },
            ),
        ),
        TVal::Table(es) => TVal::Table(tdedup_entries(es)),
        other => other,
    }
}

/// The entries of a table after index-preserving insertion.
pub open spec fn tdedup_entries(es: Seq<(Seq<char>, TVal)>) -> Seq<(Seq<char>, TVal)>
    decreases es,
    via tdedup_entries_decreases
{
    if es.len() == 0 {
        Seq::empty()
    } else {
        tbl_insert(tdedup_entries(es.drop_last()), es.last().0, tdedup(es.last().1))
    }
}

#[via_fn]
proof fn tdedup_decreases(v: TVal) {
    match v {
        TVal::Arr(a) => {
            assert forall|i: int| 0 <= i < a.len() implies #[trigger] (decreases_to!(v => a[i])) by {
                assert(a == v->Arr_0);
                assert(decreases_to!(v => v->Arr_0));
                assert(decreases_to!(v->Arr_0 => v->Arr_0[i]));
            }
        },
        TVal::Table(es) => {
            assert(es == v->Table_0);
            assert(decreases_to!(v => v->Table_0));
        },
        _ => {},
    }
}

#[via_fn]
proof fn tdedup_entries_decreases(es: Seq<(Seq<char>, TVal)>) {
    if es.len() > 0 {
        assert(decreases_to!(es => es.drop_last()));
        assert(decreases_to!(es => es[es.len() - 1]));
        assert(decreases_to!(es[es.len() - 1] => es[es.len() - 1].1));
    }
}

pub proof fn lemma_tbl_idx_range(entries: Seq<(Seq<char>, TVal)>, key: Seq<char>)
    ensures
        tbl_has(entries, key) ==> 0 <= tbl_idx(entries, key) < entries.len() && entries[tbl_idx(
            entries,
            key,
        )].0 == key,
        !tbl_has(entries, key) ==> forall|i: int|
            0 <= i < entries.len() ==> (#[trigger] entries[i]).0 != key,
        forall|i: int| 0 <= i < tbl_idx(entries, key) ==> (#[trigger] entries[i]).0 != key,
    decreases entries.len(),
{
    if entries.len() > 0 && entries[0].0 != key {
        lemma_tbl_idx_range(entries.drop_first(), key);
        assert forall|i: int| 0 <= i < tbl_idx(entries, key) implies (#[trigger] entries[i]).0
            != key by {
            if i > 0 {
                assert(entries.drop_first()[i - 1] == entries[i]);
            }
        }
        if !tbl_has(entries, key) {
            assert forall|i: int| 0 <= i < entries.len() implies (#[trigger] entries[i]).0
                != key by {
                if i > 0 {
                    assert(entries.drop_first()[i - 1] == entries[i]);
                }
            }
        }
    }
}

pub proof fn lemma_tbl_idx_first(entries: Seq<(Seq<char>, TVal)>, key: Seq<char>, i: int)
    requires
        0 <= i < entries.len(),
        entries[i].0 == key,
        forall|j: int| 0 <= j < i ==> (#[trigger] entries[j]).0 != key,
    ensures
        tbl_idx(entries, key) == i,
    decreases entries.len(),
{
    if i > 0 {
        assert(entries[0].0 != key);
        assert(entries.drop_first()[i - 1] == entries[i]);
        assert forall|j: int| 0 <= j < i - 1 implies (#[trigger] entries.drop_first()[j]).0
            != key by {
            assert(entries.drop_first()[j] == entries[j + 1]);
        }
        lemma_tbl_idx_first(entries.drop_first(), key, i - 1);
    }
}

/// Look up the first table entry with the given key.
pub fn tbl_lookup<'a>(entries: &'a Vec<(String, TomlVal)>, key: &str) -> (r: Option<&'a TomlVal>)
    ensures
        match r {
            Some(v) => tbl_get(tev(entries@), key@) == Some(tview(*v)),
            None => tbl_get(tev(entries@), key@) is None,
        },
{
    let mut i: usize = 0;
    while i < entries.len()
        invariant
            i <= entries@.len(),
            forall|j: int| 0 <= j < i ==> (#[trigger] entries@[j]).0@ != key@,
        decreases entries@.len() - i,
    {
        if crate::strutil::str_eq(entries[i].0.as_str(), key) {
            proof {
                lemma_tbl_idx_first(tev(entries@), key@, i as int);
            }
            return Some(&entries[i].1);
        }
        i = i + 1;
    }
    proof {
        lemma_tbl_idx_range(tev(entries@), key@);
        if tbl_has(tev(entries@), key@) {
            let j = tbl_idx(tev(entries@), key@);
            assert(tev(entries@)[j].0 == entries@[j].0@);
        }
    }
    None
}

} // verus!
