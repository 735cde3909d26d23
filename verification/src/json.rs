//! An ordered JSON document model.
//!
//! `JsonValue` is the executable tree; `Json` is its mathematical model.
//! Objects keep their entries in insertion order with distinct keys; a new
//! key is appended, inserting an existing key replaces its value in place,
//! and removing a key moves the last entry into the freed position.

use vstd::prelude::*;
use crate::text::str_eq;


verus! {

/// Mathematical model of a JSON value.
pub enum Json {
    Null,
    Bool(bool),
    /// A number, by its textual form.
    Number(Seq<char>),
    Str(Seq<char>),
    Array(Seq<Json>),
    Object(Seq<(Seq<char>, Json)>),
}

/// A JSON value.
///
/// Objects keep their entries in order, and that order is part of the
/// value: `==` compares object entries position by position, so two
/// objects with the same entries in another order are not equal.
#[derive(Debug, PartialEq)]
pub enum JsonValue {
    Null,
    Bool(bool),
    /// A number, by its textual form (for example `1`, `-2.5`, `1e3`).
    Number(String),
    Str(String),
    Array(Vec<JsonValue>),
    Object(JsonMap),
}

/// A JSON object: entries in order, keys distinct. `==` compares the
/// entries in order.
#[derive(Debug, PartialEq)]
pub struct JsonMap {
    entries: Vec<(String, JsonValue)>,
}

/// The keys of a sequence of model entries.
pub open spec fn entry_keys(es: Seq<(Seq<char>, Json)>) -> Seq<Seq<char>> {
    es.map_values(|e: (Seq<char>, Json)| e.0)
}

/// No key occurs twice.
pub open spec fn keys_distinct(es: Seq<(Seq<char>, Json)>) -> bool {
    forall|i: int, j: int| 0 <= i < j < es.len() ==> #[trigger] es[i].0 != #[trigger] es[j].0
}

/// Index of the entry with key `k`, if any (the first one).
pub open spec fn key_index(es: Seq<(Seq<char>, Json)>, k: Seq<char>) -> Option<int>
    decreases es.len(),
{
    if es.len() == 0 {
        None
    } else if es[0].0 == k {
        Some(0)
    } else {
        match key_index(es.drop_first(), k) {
            Some(i) => Some(i + 1),
            None => None,
        }
    }
}

/// Whether the entries hold key `k`.
pub open spec fn has_key(es: Seq<(Seq<char>, Json)>, k: Seq<char>) -> bool {
    key_index(es, k) is Some
}

/// The value stored under `k`.
pub open spec fn get_value(es: Seq<(Seq<char>, Json)>, k: Seq<char>) -> Option<Json> {
    match key_index(es, k) {
        Some(i) => Some(es[i].1),
        None => None,
    }
}

/// Insertion: an existing key keeps its position and takes the new value;
/// a new key is appended.
pub open spec fn insert_entry(es: Seq<(Seq<char>, Json)>, k: Seq<char>, v: Json) -> Seq<
    (Seq<char>, Json),
> {
    match key_index(es, k) {
        Some(i) => es.update(i, (es[i].0, v)),
        None => es.push((k, v)),
    }
}

/// Removal by swapping: the last entry takes the removed entry's position.
pub open spec fn swap_remove_entry(es: Seq<(Seq<char>, Json)>, k: Seq<char>) -> Seq<
    (Seq<char>, Json),
> {
    match key_index(es, k) {
        Some(i) => es.update(i, es.last()).drop_last(),
        None => es,
    }
}


/// `es` with the value under `k` replaced by `v`, if `k` is present.
pub open spec fn replace_entry_value(es: Seq<(Seq<char>, Json)>, k: Seq<char>, v: Json) -> Seq<
    (Seq<char>, Json),
> {
    match key_index(es, k) {
        Some(i) => es.update(i, (es[i].0, v)),
        None => es,
    }
}

/// The value under `k` in `j`, if `j` is an object that holds `k`.
pub open spec fn child(j: Json, k: Seq<char>) -> Option<Json> {
    match j {
        Json::Object(es) => get_value(es, k),
        _ => None,
    }
}

/// `j` with the value under `k` replaced by `v`, if `j` is an object that
/// holds `k`; otherwise `j`.
pub open spec fn with_child(j: Json, k: Seq<char>, v: Json) -> Json {
    match j {
        Json::Object(es) => Json::Object(replace_entry_value(es, k, v)),
        _ => j,
    }
}

/// `j` with `v` inserted under `k`, if `j` is an object; otherwise `j`.
pub open spec fn with_inserted(j: Json, k: Seq<char>, v: Json) -> Json {
    match j {
        Json::Object(es) => Json::Object(insert_entry(es, k, v)),
        _ => j,
    }
}

/// `j` without the entry `k` (removed by swapping), if `j` is an object.
pub open spec fn with_removed(j: Json, k: Seq<char>) -> Json {
    match j {
        Json::Object(es) => Json::Object(swap_remove_entry(es, k)),
        _ => j,
    }
}


/// `j` with `f` applied to the value under `k`, if `j` is an object that
/// holds `k`; otherwise `j`.
pub open spec fn update_child(j: Json, k: Seq<char>, f: spec_fn(Json) -> Json) -> Json {
    match child(j, k) {
        Some(c) => with_child(j, k, f(c)),
        None => j,
    }
}

/// `key_index` depends on the keys alone.
pub proof fn lemma_key_index_keys(a: Seq<(Seq<char>, Json)>, b: Seq<(Seq<char>, Json)>, k: Seq<char>)
    requires
        a.len() == b.len(),
        forall|i: int| 0 <= i < a.len() ==> (#[trigger] a[i]).0 == b[i].0,
    ensures
        key_index(a, k) == key_index(b, k),
    decreases a.len(),
{
    if a.len() > 0 {
        assert(a[0].0 == b[0].0);
        assert forall|i: int| 0 <= i < a.drop_first().len() implies (
        #[trigger] a.drop_first()[i]).0 == b.drop_first()[i].0 by {
            assert(a[i + 1].0 == b[i + 1].0);
        }
        lemma_key_index_keys(a.drop_first(), b.drop_first(), k);
    }
}

/// Replacing a child twice keeps the last value; putting back the child
/// that was there restores the object.
pub proof fn lemma_with_child(j: Json, k: Seq<char>, v1: Json, v2: Json)
    ensures
        with_child(with_child(j, k, v1), k, v2) == with_child(j, k, v2),
        child(with_child(j, k, v1), k) == (if child(j, k) is Some { Some(v1) } else { None::<Json> }),
        child(j, k) matches Some(c) ==> with_child(j, k, c) == j,
{
    if let Json::Object(es) = j {
        lemma_key_index(es, k);
        if let Some(i) = key_index(es, k) {
            let e1 = es.update(i, (es[i].0, v1));
            assert forall|m: int| 0 <= m < es.len() implies (#[trigger] es[m]).0 == e1[m].0 by {}
            lemma_key_index_keys(es, e1, k);
            assert(e1.update(i, (e1[i].0, v2)) =~= es.update(i, (es[i].0, v2)));
            assert(es.update(i, (es[i].0, es[i].1)) =~= es);
        }
    }
}


/// Inserts the entries of `more` into `es`, in order.
pub open spec fn insert_all(es: Seq<(Seq<char>, Json)>, more: Seq<(Seq<char>, Json)>) -> Seq<
    (Seq<char>, Json),
>
    decreases more.len(),
{
    if more.len() == 0 {
        es
    } else {
        let e = more.last();
        insert_entry(insert_all(es, more.drop_last()), e.0, e.1)
    }
}

/// Inserts the entries of `more` into `es`, in order, skipping keys that
/// are already present.
pub open spec fn insert_missing(es: Seq<(Seq<char>, Json)>, more: Seq<(Seq<char>, Json)>) -> Seq<
    (Seq<char>, Json),
>
    decreases more.len(),
{
    if more.len() == 0 {
        es
    } else {
        let o = insert_missing(es, more.drop_last());
        let e = more.last();
        if has_key(o, e.0) {
            o
        } else {
            insert_entry(o, e.0, e.1)
        }
    }
}


/// Inserting under a key after replacing its value is inserting directly.
pub proof fn lemma_insert_after_replace(es: Seq<(Seq<char>, Json)>, k: Seq<char>, v1: Json, v2: Json)
    ensures
        insert_entry(replace_entry_value(es, k, v1), k, v2) == insert_entry(es, k, v2),
{
    lemma_key_index(es, k);
    if let Some(i) = key_index(es, k) {
        let e1 = es.update(i, (es[i].0, v1));
        assert forall|m: int| 0 <= m < es.len() implies (#[trigger] es[m]).0 == e1[m].0 by {}
        lemma_key_index_keys(es, e1, k);
        assert(e1.update(i, (e1[i].0, v2)) =~= es.update(i, (es[i].0, v2)));
    }
}


/// With distinct keys, each entry is what its key finds.
pub proof fn lemma_get_value_at(es: Seq<(Seq<char>, Json)>, i: int)
    requires
        keys_distinct(es),
        0 <= i < es.len(),
    ensures
        get_value(es, es[i].0) == Some(es[i].1),
{
    lemma_key_index_unique(es, es[i].0, i);
}

/// A key held by no entry finds nothing; a key that finds a value is held
/// by an entry with that value.
pub proof fn lemma_get_value_cases(es: Seq<(Seq<char>, Json)>, k: Seq<char>)
    ensures
        (forall|i: int| 0 <= i < es.len() ==> es[i].0 != k) ==> get_value(es, k) is None,
        get_value(es, k) matches Some(v) ==> exists|i: int|
            0 <= i < es.len() && es[i].0 == k && es[i].1 == v,
        get_value(es, k) is None ==> forall|i: int| 0 <= i < es.len() ==> es[i].0 != k,
{
    lemma_key_index(es, k);
}

/// Appending an entry with a new key.
pub proof fn lemma_get_value_push(es: Seq<(Seq<char>, Json)>, k: Seq<char>, v: Json)
    requires
        keys_distinct(es),
        get_value(es, k) is None,
    ensures
        keys_distinct(es.push((k, v))),
        insert_entry(es, k, v) == es.push((k, v)),
        forall|k2: Seq<char>| #[trigger] get_value(es.push((k, v)), k2) == if k2 == k {
            Some(v)
        } else {
            get_value(es, k2)
        },
{
    let e2 = es.push((k, v));
    lemma_key_index(es, k);
    assert forall|a: int, b: int| 0 <= a < b < e2.len() implies #[trigger] e2[a].0 != #[trigger] e2[b].0 by {
        if b == es.len() {
            assert(e2[a] == es[a]);
        } else {
            assert(e2[a] == es[a] && e2[b] == es[b]);
        }
    }
    assert forall|k2: Seq<char>| #[trigger] get_value(e2, k2) == if k2 == k {
        Some(v)
    } else {
        get_value(es, k2)
    } by {
        if k2 == k {
            lemma_get_value_at(e2, es.len() as int);
        } else {
            lemma_get_value_cases(es, k2);
            lemma_get_value_cases(e2, k2);
            if let Some(w) = get_value(es, k2) {
                let i = choose|i: int| 0 <= i < es.len() && es[i].0 == k2 && es[i].1 == w;
                assert(e2[i] == es[i]);
                lemma_get_value_at(e2, i);
            } else {
                assert forall|i: int| 0 <= i < e2.len() implies e2[i].0 != k2 by {
                    if i < es.len() {
                        assert(e2[i] == es[i]);
                    }
                }
            }
        }
    }
}

/// Removing a key by swapping: the key is gone, the rest stays.
pub proof fn lemma_get_value_swap_remove(es: Seq<(Seq<char>, Json)>, k: Seq<char>)
    requires
        keys_distinct(es),
    ensures
        keys_distinct(swap_remove_entry(es, k)),
        swap_remove_entry(es, k).len() == if has_key(es, k) { es.len() - 1 } else { es.len() as int },
        forall|k2: Seq<char>| #[trigger] get_value(swap_remove_entry(es, k), k2) == if k2 == k {
            None
        } else {
            get_value(es, k2)
        },
{
    lemma_key_index(es, k);
    let r = swap_remove_entry(es, k);
    match key_index(es, k) {
        Some(i) => {
            let l = es.len() - 1;
            assert forall|m: int| 0 <= m < r.len() implies #[trigger] r[m] == es[if m == i { l } else { m }] by {}
            assert forall|a: int, b: int| 0 <= a < b < r.len() implies #[trigger] r[a].0 != #[trigger] r[b].0 by {
                let oa = if a == i { l } else { a };
                let ob = if b == i { l } else { b };
                assert(r[a] == es[oa]);
                assert(r[b] == es[ob]);
                if oa < ob {
                    assert(es[oa].0 != es[ob].0);
                } else {
                    assert(es[ob].0 != es[oa].0);
                }
            }
            assert forall|k2: Seq<char>| #[trigger] get_value(r, k2) == if k2 == k {
                None
            } else {
                get_value(es, k2)
            } by {
                lemma_get_value_cases(es, k2);
                lemma_get_value_cases(r, k2);
                if k2 == k {
                    assert forall|m: int| 0 <= m < r.len() implies r[m].0 != k2 by {
                        let om = if m == i { l } else { m };
                        assert(r[m] == es[om]);
                        if om != i {
                            if om < i {
                                assert(es[om].0 != es[i].0);
                            } else {
                                assert(es[i].0 != es[om].0);
                            }
                        }
                    }
                } else {
                    if let Some(w) = get_value(es, k2) {
                        let j = choose|j: int| 0 <= j < es.len() && es[j].0 == k2 && es[j].1 == w;
                        assert(j != i);
                        let rj = if j == l { i } else { j };
                        assert(r[rj] == es[j]);
                        lemma_get_value_at(r, rj);
                    } else {
                        assert forall|m: int| 0 <= m < r.len() implies r[m].0 != k2 by {
                            let om = if m == i { l } else { m };
                            assert(r[m] == es[om]);
                        }
                    }
                }
            }
        },
        None => {},
    }
}


/// Insertion: the key takes the new value, other keys keep theirs, and
/// keys stay distinct.
pub proof fn lemma_get_value_insert(es: Seq<(Seq<char>, Json)>, k: Seq<char>, v: Json)
    requires
        keys_distinct(es),
    ensures
        keys_distinct(insert_entry(es, k, v)),
        forall|k2: Seq<char>| #[trigger] get_value(insert_entry(es, k, v), k2) == if k2 == k {
            Some(v)
        } else {
            get_value(es, k2)
        },
{
    lemma_key_index(es, k);
    match key_index(es, k) {
        Some(i) => {
            let r = es.update(i, (es[i].0, v));
            assert forall|a: int, b: int| 0 <= a < b < r.len() implies #[trigger] r[a].0 != #[trigger] r[b].0 by {
                assert(r[a].0 == es[a].0 && r[b].0 == es[b].0);
            }
            assert forall|k2: Seq<char>| #[trigger] get_value(r, k2) == if k2 == k {
                Some(v)
            } else {
                get_value(es, k2)
            } by {
                if k2 == k {
                    lemma_get_value_at(r, i);
                } else {
                    lemma_get_value_cases(es, k2);
                    lemma_get_value_cases(r, k2);
                    if let Some(w) = get_value(es, k2) {
                        let j = choose|j: int| 0 <= j < es.len() && es[j].0 == k2 && es[j].1 == w;
                        assert(r[j] == es[j]);
                        lemma_get_value_at(r, j);
                    } else {
                        assert forall|m: int| 0 <= m < r.len() implies r[m].0 != k2 by {
                            assert(r[m].0 == es[m].0);
                        }
                    }
                }
            }
        },
        None => {
            lemma_get_value_cases(es, k);
            lemma_get_value_push(es, k, v);
        },
    }
}


/// Replacing a value keeps the keys, in order, and every other value.
pub proof fn lemma_get_value_replace(es: Seq<(Seq<char>, Json)>, k: Seq<char>, v: Json)
    requires
        keys_distinct(es),
    ensures
        keys_distinct(replace_entry_value(es, k, v)),
        entry_keys(replace_entry_value(es, k, v)) == entry_keys(es),
        forall|k2: Seq<char>| #[trigger] get_value(replace_entry_value(es, k, v), k2) == if k2 == k && has_key(es, k) {
            Some(v)
        } else {
            get_value(es, k2)
        },
{
    lemma_key_index(es, k);
    if has_key(es, k) {
        lemma_get_value_insert(es, k, v);
        let i = key_index(es, k)->0;
        assert(entry_keys(es.update(i, (es[i].0, v))) =~= entry_keys(es));
    } else {
        assert(replace_entry_value(es, k, v) == es);
    }
}

/// With distinct keys, entries that are a permutation of `es` find the same
/// values and keep keys distinct.
pub proof fn lemma_get_value_permutation(es: Seq<(Seq<char>, Json)>, r: Seq<(Seq<char>, Json)>)
    requires
        keys_distinct(es),
        keys_distinct(r),
        r.to_multiset() == es.to_multiset(),
    ensures
        forall|k: Seq<char>| #[trigger] get_value(r, k) == get_value(es, k),
{
    broadcast use vstd::seq_lib::group_to_multiset_ensures;
    assert forall|k: Seq<char>| #[trigger] get_value(r, k) == get_value(es, k) by {
        lemma_get_value_cases(r, k);
        lemma_get_value_cases(es, k);
        if let Some(v) = get_value(r, k) {
            let i = choose|i: int| 0 <= i < r.len() && r[i].0 == k && r[i].1 == v;
            assert(r.to_multiset().count(r[i]) > 0);
            assert(es.contains(r[i]));
            let j = choose|j: int| 0 <= j < es.len() && es[j] == r[i];
            lemma_get_value_at(es, j);
        } else if let Some(v) = get_value(es, k) {
            let i = choose|i: int| 0 <= i < es.len() && es[i].0 == k && es[i].1 == v;
            assert(es.to_multiset().count(es[i]) > 0);
            assert(r.contains(es[i]));
            let j = choose|j: int| 0 <= j < r.len() && r[j] == es[i];
            lemma_get_value_at(r, j);
        }
    }
}

/// The model of a sequence of values.
pub open spec fn values_view(s: Seq<JsonValue>) -> Seq<Json>
    decreases s,
{
    if s.len() == 0 {
        Seq::empty()
    } else {
        values_view(s.drop_last()).push(s.last().view_json())
    }
}

/// The model of a sequence of entries.
pub open spec fn entries_view(s: Seq<(String, JsonValue)>) -> Seq<(Seq<char>, Json)>
    decreases s,
{
    if s.len() == 0 {
        Seq::empty()
    } else {
        entries_view(s.drop_last()).push((s.last().0@, s.last().1.view_json()))
    }
}


/// Length and elements of `values_view`.
pub proof fn lemma_values_view(s: Seq<JsonValue>)
    ensures
        values_view(s).len() == s.len(),
        forall|i: int| 0 <= i < s.len() ==> #[trigger] values_view(s)[i] == s[i]@,
    decreases s.len(),
{
    if s.len() > 0 {
        lemma_values_view(s.drop_last());
    }
}

/// Length and elements of `entries_view`.
pub proof fn lemma_entries_view(s: Seq<(String, JsonValue)>)
    ensures
        entries_view(s).len() == s.len(),
        forall|i: int|
            0 <= i < s.len() ==> #[trigger] entries_view(s)[i] == (s[i].0@, s[i].1@),
    decreases s.len(),
{
    if s.len() > 0 {
        lemma_entries_view(s.drop_last());
    }
}

/// `entries_view` is determined element by element.
pub proof fn lemma_entries_view_ext(s: Seq<(String, JsonValue)>, t: Seq<(Seq<char>, Json)>)
    requires
        s.len() == t.len(),
        forall|i: int| 0 <= i < s.len() ==> (s[i].0@, s[i].1@) == #[trigger] t[i],
    ensures
        entries_view(s) == t,
{
    lemma_entries_view(s);
    assert(entries_view(s) =~= t);
}

/// `values_view` is determined element by element.
pub proof fn lemma_values_view_ext(s: Seq<JsonValue>, t: Seq<Json>)
    requires
        s.len() == t.len(),
        forall|i: int| 0 <= i < s.len() ==> s[i]@ == #[trigger] t[i],
    ensures
        values_view(s) == t,
{
    lemma_values_view(s);
    assert(values_view(s) =~= t);
}

/// What `key_index` finds.
pub proof fn lemma_key_index(es: Seq<(Seq<char>, Json)>, k: Seq<char>)
    ensures
        match key_index(es, k) {
            Some(i) => 0 <= i < es.len() && es[i].0 == k && forall|j: int|
                0 <= j < i ==> #[trigger] es[j].0 != k,
            None => forall|j: int| 0 <= j < es.len() ==> #[trigger] es[j].0 != k,
        },
    decreases es.len(),
{
    if es.len() > 0 && es[0].0 != k {
        lemma_key_index(es.drop_first(), k);
        assert forall|j: int| 0 < j < es.len() implies es[j] == es.drop_first()[j - 1] by {}
    }
}

/// With distinct keys, the entry holding `k` is the one `key_index` finds.
pub proof fn lemma_key_index_unique(es: Seq<(Seq<char>, Json)>, k: Seq<char>, i: int)
    requires
        keys_distinct(es),
        0 <= i < es.len(),
        es[i].0 == k,
    ensures
        key_index(es, k) == Some(i),
{
    lemma_key_index(es, k);
    if let Some(j) = key_index(es, k) {
        if j < i {
            assert(es[j].0 != es[i].0);
        }
    }
}

impl JsonValue {
    /// The model of this value.
    pub open spec fn view_json(&self) -> Json
        decreases self,
    {
        match self {
            JsonValue::Null => Json::Null,
            JsonValue::Bool(b) => Json::Bool(*b),
            JsonValue::Number(n) => Json::Number(n@),
            JsonValue::Str(s) => Json::Str(s@),
            JsonValue::Array(a) => Json::Array(values_view(a@)),
            JsonValue::Object(m) => Json::Object(m.view_entries()),
        }
    }
}


impl JsonValue {
    /// The value under `key`, if this is an object holding `key`.
    pub fn get(&self, key: &str) -> (r: Option<&JsonValue>)
        ensures
            match child(self@, key@) {
                Some(v) => r matches Some(x) && x@ == v,
                None => r is None,
            },
    {
        match self {
            JsonValue::Object(m) => m.get(key),
            _ => None,
        }
    }

    /// The object, if this is one.
    pub fn as_object(&self) -> (r: Option<&JsonMap>)
        ensures
            match self@ {
                Json::Object(es) => r matches Some(m) && m@ == es,
                _ => r is None,
            },
    {
        match self {
            JsonValue::Object(m) => Some(m),
            _ => None,
        }
    }

    /// The elements, if this is an array.
    pub fn as_array(&self) -> (r: Option<&Vec<JsonValue>>)
        ensures
            match self@ {
                Json::Array(a) => r matches Some(v) && values_view(v@) == a,
                _ => r is None,
            },
    {
        match self {
            JsonValue::Array(a) => Some(a),
            _ => None,
        }
    }

    /// The string, if this is one.
    pub fn as_str(&self) -> (r: Option<&str>)
        ensures
            match self@ {
                Json::Str(s) => r matches Some(x) && x@ == s,
                _ => r is None,
            },
    {
        match self {
            JsonValue::Str(s) => Some(s.as_str()),
            _ => None,
        }
    }

    /// A string value.
    pub fn from_str(s: &str) -> (r: JsonValue)
        ensures
            r@ == Json::Str(s@),
    {
        JsonValue::Str(s.to_owned())
    }

    /// Takes the value under `key` out of this object, leaving `null` in its
    /// place; does nothing unless this is an object holding `key`.
    pub fn take_child(&mut self, key: &str) -> (r: Option<JsonValue>)
        ensures
            match child(old(self)@, key@) {
                Some(v) => r matches Some(x) && x@ == v && final(self)@ == with_child(
                    old(self)@,
                    key@,
                    Json::Null,
                ),
                None => r is None && final(self)@ == old(self)@,
            },
    {
        match self {
            JsonValue::Object(m) => {
                let r = m.replace_value(key, JsonValue::Null);
                r
            },
            _ => None,
        }
    }

    /// Puts `value` under `key` in this object, keeping the entry's position;
    /// does nothing unless this is an object holding `key`.
    pub fn put_child(&mut self, key: &str, value: JsonValue)
        ensures
            final(self)@ == with_child(old(self)@, key@, value@),
    {
        match self {
            JsonValue::Object(m) => {
                m.replace_value(key, value);
            },
            _ => {},
        }
    }

    /// Inserts `value` under `key`, if this is an object.
    pub fn insert_child(&mut self, key: String, value: JsonValue)
        ensures
            final(self)@ == with_inserted(old(self)@, key@, value@),
    {
        match self {
            JsonValue::Object(m) => {
                m.insert(key, value);
            },
            _ => {},
        }
    }

    /// Removes the entry `key`, if this is an object holding it; the last
    /// entry moves into its position.
    pub fn remove_child(&mut self, key: &str) -> (r: Option<JsonValue>)
        ensures
            final(self)@ == with_removed(old(self)@, key@),
            match child(old(self)@, key@) {
                Some(v) => r matches Some(x) && x@ == v,
                None => r is None,
            },
    {
        match self {
            JsonValue::Object(m) => m.remove(key),
            _ => None,
        }
    }
}

impl View for JsonValue {
    type V = Json;

    open spec fn view(&self) -> Json {
        self.view_json()
    }
}

impl JsonMap {
    /// The model of this object's entries.
    pub closed spec fn view_entries(&self) -> Seq<(Seq<char>, Json)>
        decreases self,
    {
        entries_view(self.entries@)
    }

    #[verifier::type_invariant]
    closed spec fn inv(&self) -> bool {
        keys_distinct(entries_view(self.entries@))
    }
}


impl JsonMap {
    /// An empty object.
    pub fn new() -> (m: JsonMap)
        ensures
            m@ == Seq::<(Seq<char>, Json)>::empty(),
    {
        let m = JsonMap { entries: Vec::new() };
        proof {
            lemma_entries_view(m.entries@);
        }
        m
    }

    /// The number of entries.
    pub fn len(&self) -> (n: usize)
        ensures
            n == self@.len(),
    {
        proof {
            lemma_entries_view(self.entries@);
        }
        self.entries.len()
    }

    /// The position of `key`, if present.
    pub fn index_of(&self, key: &str) -> (r: Option<usize>)
        ensures
            match r {
                Some(i) => key_index(self@, key@) == Some(i as int),
                None => key_index(self@, key@) is None,
            },
    {
        proof {
            use_type_invariant(self);
            lemma_entries_view(self.entries@);
        }
        let mut i: usize = 0;
        while i < self.entries.len()
            invariant
                i <= self.entries@.len(),
                keys_distinct(self@),
                entries_view(self.entries@).len() == self.entries@.len(),
                forall|j: int|
                    0 <= j < self.entries@.len() ==> #[trigger] entries_view(self.entries@)[j] == (
                    self.entries@[j].0@,
                    self.entries@[j].1@,
                ),
                forall|j: int| 0 <= j < i ==> #[trigger] self.entries@[j].0@ != key@,
            decreases self.entries.len() - i,
        {
            if str_eq(self.entries[i].0.as_str(), key) {
                proof {
                    lemma_key_index_unique(self@, key@, i as int);
                }
                return Some(i);
            }
            i = i + 1;
        }
        proof {
            lemma_key_index(self@, key@);
            if let Some(k) = key_index(self@, key@) {
                assert(self.entries@[k].0@ != key@);
            }
        }
        None
    }

    /// Whether `key` is present.
    pub fn contains_key(&self, key: &str) -> (b: bool)
        ensures
            b == has_key(self@, key@),
    {
        self.index_of(key).is_some()
    }

    /// The value under `key`.
    pub fn get(&self, key: &str) -> (r: Option<&JsonValue>)
        ensures
            match get_value(self@, key@) {
                Some(v) => r matches Some(x) && x@ == v,
                None => r is None,
            },
    {
        proof {
            lemma_entries_view(self.entries@);
            lemma_key_index(self@, key@);
        }
        match self.index_of(key) {
            Some(i) => {
                assert(self@[i as int] == (self.entries@[i as int].0@, self.entries@[i as int].1@));
                let e = &self.entries[i];
                assert(e.1@ == self@[i as int].1);

                Some(&e.1)
            },
            None => None,
        }
    }

    /// Inserts `value` under `key`; an existing key keeps its position.
    /// Returns the value previously stored under `key`.
    pub fn insert(&mut self, key: String, value: JsonValue) -> (r: Option<JsonValue>)
        ensures
            final(self)@ == insert_entry(old(self)@, key@, value@),
            match get_value(old(self)@, key@) {
                Some(v) => r matches Some(x) && x@ == v,
                None => r is None,
            },
    {
        proof {
            use_type_invariant(&*self);
            lemma_entries_view(self.entries@);
            lemma_key_index(self@, key@);
        }
        match self.index_of(key.as_str()) {
            Some(i) => {
                let ghost old_entries = self.entries@;
                let mut es: Vec<(String, JsonValue)> = Vec::new();
                std::mem::swap(&mut es, &mut self.entries);
                let (k0, old_v) = es.remove(i);
                es.insert(i, (k0, value));
                proof {
                    lemma_entries_view(es@);
                    assert(es@ == old_entries.update(i as int, (k0, value)));
                    lemma_entries_view_ext(
                        es@,
                        insert_entry(entries_view(old_entries), key@, value@),
                    );
                    assert forall|a: int, b: int|
                        0 <= a < b < entries_view(es@).len() implies #[trigger] entries_view(
                        es@,
                    )[a].0 != #[trigger] entries_view(es@)[b].0 by {
                        assert(entries_view(es@)[a].0 == entries_view(old_entries)[a].0);
                        assert(entries_view(es@)[b].0 == entries_view(old_entries)[b].0);
                    }
                }
                self.entries = es;
                proof {
                    lemma_entries_view(self.entries@);
                }
                Some(old_v)
            },
            None => {
                let ghost old_entries = self.entries@;
                let mut es: Vec<(String, JsonValue)> = Vec::new();
                std::mem::swap(&mut es, &mut self.entries);
                es.push((key, value));
                proof {
                    lemma_entries_view(es@);
                    lemma_entries_view_ext(
                        es@,
                        insert_entry(entries_view(old_entries), key@, value@),
                    );
                    assert forall|a: int, b: int|
                        0 <= a < b < entries_view(es@).len() implies #[trigger] entries_view(
                        es@,
                    )[a].0 != #[trigger] entries_view(es@)[b].0 by {
                        if b == old_entries.len() {
                            assert(entries_view(old_entries)[a].0 != key@);
                        } else {
                            assert(entries_view(es@)[a] == entries_view(old_entries)[a]);
                            assert(entries_view(es@)[b] == entries_view(old_entries)[b]);
                        }
                    }
                }
                self.entries = es;
                None
            },
        }
    }


    /// Replaces the value under `key`, if present, keeping its position;
    /// returns the value it held. An absent key leaves the object unchanged.
    pub fn replace_value(&mut self, key: &str, value: JsonValue) -> (r: Option<JsonValue>)
        ensures
            final(self)@ == replace_entry_value(old(self)@, key@, value@),
            match get_value(old(self)@, key@) {
                Some(v) => r matches Some(x) && x@ == v,
                None => r is None,
            },
    {
        proof {
            lemma_key_index(self@, key@);
        }
        if self.contains_key(key) {
            let k = key.to_owned();
            self.insert(k, value)
        } else {
            None
        }
    }

    /// Removes `key` and returns its entry; the last entry moves into the
    /// freed position.
    pub fn remove_entry(&mut self, key: &str) -> (r: Option<(String, JsonValue)>)
        ensures
            final(self)@ == swap_remove_entry(old(self)@, key@),
            match key_index(old(self)@, key@) {
                Some(i) => r matches Some(e) && (e.0@, e.1@) == old(self)@[i],
                None => r is None,
            },
    {
        proof {
            use_type_invariant(&*self);
            lemma_entries_view(self.entries@);
            lemma_key_index(self@, key@);
        }
        match self.index_of(key) {
            Some(i) => {
                let ghost old_entries = self.entries@;
                let mut es: Vec<(String, JsonValue)> = Vec::new();
                std::mem::swap(&mut es, &mut self.entries);
                let e = es.swap_remove(i);
                proof {
                    lemma_entries_view(es@);
                    let t = swap_remove_entry(entries_view(old_entries), key@);
                    assert(t.len() == es@.len());
                    assert forall|j: int| 0 <= j < es@.len() implies (
                    es@[j].0@,
                    es@[j].1@,
                ) == #[trigger] t[j] by {}
                    lemma_entries_view_ext(es@, t);
                    assert forall|a: int, b: int|
                        0 <= a < b < entries_view(es@).len() implies #[trigger] entries_view(
                        es@,
                    )[a].0 != #[trigger] entries_view(es@)[b].0 by {
                        let ol = old_entries.len() - 1;
                        let oa = if a == i { ol } else { a };
                        let ob = if b == i { ol } else { b };
                        assert(entries_view(es@)[a] == entries_view(old_entries)[oa]);
                        assert(entries_view(es@)[b] == entries_view(old_entries)[ob]);
                        if oa < ob {
                            assert(entries_view(old_entries)[oa].0 != entries_view(
                                old_entries,
                            )[ob].0);
                        } else {
                            assert(entries_view(old_entries)[ob].0 != entries_view(
                                old_entries,
                            )[oa].0);
                        }
                    }
                }
                self.entries = es;
                Some(e)
            },
            None => None,
        }
    }

    /// Removes `key` and returns its value; the last entry moves into the
    /// freed position.
    pub fn remove(&mut self, key: &str) -> (r: Option<JsonValue>)
        ensures
            final(self)@ == swap_remove_entry(old(self)@, key@),
            match get_value(old(self)@, key@) {
                Some(v) => r matches Some(x) && x@ == v,
                None => r is None,
            },
    {
        match self.remove_entry(key) {
            Some(e) => Some(e.1),
            None => None,
        }
    }

    /// The keys, in order.
    pub fn keys(&self) -> (r: Vec<String>)
        ensures
            r@.map_values(|k: String| k@) == entry_keys(self@),
    {
        proof {
            lemma_entries_view(self.entries@);
        }
        let mut r: Vec<String> = Vec::new();
        let mut i: usize = 0;
        while i < self.entries.len()
            invariant
                i <= self.entries@.len(),
                r@.len() == i,
                entries_view(self.entries@).len() == self.entries@.len(),
                forall|j: int|
                    0 <= j < self.entries@.len() ==> #[trigger] entries_view(self.entries@)[j] == (
                    self.entries@[j].0@,
                    self.entries@[j].1@,
                ),
                forall|j: int| 0 <= j < i ==> #[trigger] r@[j]@ == self.entries@[j].0@,
            decreases self.entries.len() - i,
        {
            r.push(self.entries[i].0.clone());
            i = i + 1;
        }
        assert(r@.map_values(|k: String| k@) =~= entry_keys(self@));
        r
    }

    /// The entries, in order.
    pub fn into_entries(self) -> (r: Vec<(String, JsonValue)>)
        ensures
            entries_view(r@) == self@,
            keys_distinct(self@),
            forall|i: int| 0 <= i < r@.len() ==> decreases_to!(self => r@[i].1),
    {
        proof {
            use_type_invariant(&self);
            assert forall|i: int| 0 <= i < self.entries@.len() implies decreases_to!(self => self.entries@[i].1) by {
                assert(decreases_to!(self => self.entries));
                assert(decreases_to!(self.entries => self.entries@));
                assert(decreases_to!(self.entries@ => self.entries@[i]));
                assert(decreases_to!(self.entries@[i] => self.entries@[i].1));
            }
        }
        self.entries
    }

    /// An object made of entries with distinct keys, in the given order.
    pub fn from_entries(entries: Vec<(String, JsonValue)>) -> (m: JsonMap)
        requires
            keys_distinct(entries_view(entries@)),
        ensures
            m@ == entries_view(entries@),
    {
        JsonMap { entries }
    }
}

impl View for JsonMap {
    type V = Seq<(Seq<char>, Json)>;

    open spec fn view(&self) -> Seq<(Seq<char>, Json)> {
        self.view_entries()
    }
}

} // verus!
