//! Deterministic "house style" ordering of JSON object keys.
//!
//! Priority keys (such as `$schema`, `name`, `title`, `type`, `properties`)
//! come first in a fixed order, followed by the remaining keys in
//! alphabetical order; the definitions (`definitions`, `$defs`) come last.
//! Array order is kept, except that `examples` arrays are sorted by their
//! string values.

use vstd::prelude::*;
use crate::text::{str_eq, chars_of, seq_lt};
use crate::json::{Json, JsonValue, JsonMap, keys_distinct, get_value, lemma_get_value_cases, lemma_get_value_at, lemma_get_value_permutation, entries_view, values_view, lemma_entries_view, lemma_values_view, lemma_entries_view_ext, lemma_values_view_ext};
use crate::sorting::{SortKey, sort_by_key, sorted_by, with_key, sort_items, item_key, lemma_sort_by_key_map, lemma_sort_by_key_props, lemma_sort_by_key_contains, lemma_sort_by_key_sorted, lemma_sort_by_key_stable};

verus! {

/// The priority rank of a JSON Schema key; keys without one sort
/// alphabetically after the prioritized keys, but before the definitions
/// (`definitions`, `$defs`), which come last.
pub open spec fn spec_key_rank(key: Seq<char>) -> Option<usize> {
    if key == "$schema"@ {
        Some(0)
    } else if key == "$id"@ {
        Some(1)
    } else if key == "name"@ {
        Some(10)
    } else if key == "title"@ {
        Some(11)
    } else if key == "description"@ {
        Some(12)
    } else if key == "type"@ {
        Some(20)
    } else if key == "additionalProperties"@ {
        Some(30)
    } else if key == "unevaluatedProperties"@ {
        Some(31)
    } else if key == "properties"@ {
        Some(40)
    } else if key == "required"@ {
        Some(41)
    } else if key == "enum"@ {
        Some(45)
    } else if key == "const"@ {
        Some(46)
    } else if key == "default"@ {
        Some(47)
    } else if key == "inputSchema"@ {
        Some(50)
    } else if key == "outputSchema"@ {
        Some(51)
    } else if key == "annotations"@ {
        Some(52)
    } else if key == "definitions"@ {
        Some(100)
    } else if key == "$defs"@ {
        Some(100)
    } else {
        None
    }
}

/// The rank used for sorting: the priority rank, or 99 for other keys, so
/// that they follow every prioritized key but the definitions.
pub open spec fn sort_rank(key: Seq<char>) -> nat {
    match spec_key_rank(key) {
        Some(r) => r as nat,
        None => 99,
    }
}

/// Object entries sort by rank, then by key.
pub open spec fn entry_sort_key() -> spec_fn((Seq<char>, Json)) -> SortKey {
    |e: (Seq<char>, Json)| (sort_rank(e.0), e.0)
}

/// The string an `examples` element sorts by: its string value, or the
/// empty string for other values.
pub open spec fn example_text(v: Json) -> Seq<char> {
    match v {
        Json::Str(s) => s,
        _ => Seq::empty(),
    }
}

/// `examples` elements sort by their string value.
pub open spec fn example_sort_key() -> spec_fn(Json) -> SortKey {
    |v: Json| (0nat, example_text(v))
}

/// `j` with house-style key order at every level; `in_examples` says that
/// `j` is the value of an `examples` key.
pub open spec fn sort_json(j: Json, in_examples: bool) -> Json
    decreases j,
{
    match j {
        Json::Object(es) => Json::Object(sort_by_key(sort_json_entries(es), entry_sort_key())),
        Json::Array(a) => if in_examples {
            Json::Array(sort_by_key(sort_json_values(a), example_sort_key()))
        } else {
            Json::Array(sort_json_values(a))
        },
        _ => j,
    }
}

/// Each element sorted, none of them being under an `examples` key.
pub open spec fn sort_json_values(a: Seq<Json>) -> Seq<Json>
    decreases a,
{
    if a.len() == 0 {
        Seq::empty()
    } else {
        sort_json_values(a.drop_last()).push(sort_json(a.last(), false))
    }
}

/// Each entry's value sorted; the value of an `examples` key is an
/// `examples` value.
pub open spec fn sort_json_entries(es: Seq<(Seq<char>, Json)>) -> Seq<(Seq<char>, Json)>
    decreases es,
{
    if es.len() == 0 {
        Seq::empty()
    } else {
        sort_json_entries(es.drop_last()).push(
            (es.last().0, sort_json(es.last().1, es.last().0 == "examples"@)),
        )
    }
}

/// The house-style ordering of a whole document.
pub open spec fn spec_sort_json_keys(j: Json) -> Json {
    sort_json(j, false)
}

pub proof fn lemma_sort_json_values(a: Seq<Json>)
    ensures
        sort_json_values(a).len() == a.len(),
        forall|i: int|
            0 <= i < a.len() ==> #[trigger] sort_json_values(a)[i] == sort_json(a[i], false),
    decreases a.len(),
{
    if a.len() > 0 {
        lemma_sort_json_values(a.drop_last());
    }
}

pub proof fn lemma_sort_json_entries(es: Seq<(Seq<char>, Json)>)
    ensures
        sort_json_entries(es).len() == es.len(),
        forall|i: int|
            0 <= i < es.len() ==> #[trigger] sort_json_entries(es)[i] == (
                es[i].0,
                sort_json(es[i].1, es[i].0 == "examples"@),
            ),
    decreases es.len(),
{
    if es.len() > 0 {
        lemma_sort_json_entries(es.drop_last());
    }
}



/// Sorting a sorted document changes nothing: house-style ordering is
/// idempotent at every level.
pub proof fn lemma_sort_json_idempotent(j: Json, in_examples: bool)
    ensures
        sort_json(sort_json(j, in_examples), in_examples) == sort_json(j, in_examples),
    decreases j,
{
    match j {
        Json::Object(es) => {
            let v = sort_json_entries(es);
            let s = sort_by_key(v, entry_sort_key());
            lemma_sort_json_entries(es);
            lemma_sort_by_key_props(v, entry_sort_key());
            lemma_sort_json_entries(s);
            assert forall|i: int| 0 <= i < s.len() implies #[trigger] sort_json_entries(s)[i]
                == s[i] by {
                lemma_sort_by_key_contains(v, entry_sort_key(), i);
                let m = choose|m: int| 0 <= m < v.len() && v[m] == s[i];
                lemma_sort_json_idempotent(es[m].1, es[m].0 == "examples"@);
            }
            assert(sort_json_entries(s) =~= s);
            lemma_sort_by_key_sorted(s, entry_sort_key());
        },
        Json::Array(a) => {
            let v = sort_json_values(a);
            lemma_sort_json_values(a);
            if in_examples {
                let s = sort_by_key(v, example_sort_key());
                lemma_sort_by_key_props(v, example_sort_key());
                lemma_sort_json_values(s);
                assert forall|i: int| 0 <= i < s.len() implies #[trigger] sort_json_values(s)[i]
                    == s[i] by {
                    lemma_sort_by_key_contains(v, example_sort_key(), i);
                    let m = choose|m: int| 0 <= m < v.len() && v[m] == s[i];
                    lemma_sort_json_idempotent(a[m], false);
                }
                assert(sort_json_values(s) =~= s);
                lemma_sort_by_key_sorted(s, example_sort_key());
            } else {
                lemma_sort_json_values(v);
                assert forall|i: int| 0 <= i < v.len() implies #[trigger] sort_json_values(v)[i]
                    == v[i] by {
                    lemma_sort_json_idempotent(a[i], false);
                }
                assert(sort_json_values(v) =~= v);
            }
        },
        _ => {},
    }
}

/// Sorting the keys of a document twice gives the same document as sorting
/// them once.
pub proof fn lemma_sort_json_keys_idempotent(j: Json)
    ensures
        spec_sort_json_keys(spec_sort_json_keys(j)) == spec_sort_json_keys(j),
{
    lemma_sort_json_idempotent(j, false);
}

/// The shape of a sorted value: an object holds the same entries (each
/// value sorted) in rank-then-key order; an array keeps its order (each
/// element sorted), except under an `examples` key, where it is ordered by
/// string value and elements with equal sort strings keep their order;
/// other values are unchanged.
pub proof fn lemma_sort_json_shape(j: Json, in_examples: bool)
    ensures
        match j {
            Json::Object(es) => sort_json(j, in_examples) matches Json::Object(r) && sorted_by(
                r,
                entry_sort_key(),
            ) && r.to_multiset() == sort_json_entries(es).to_multiset(),
            Json::Array(a) => sort_json(j, in_examples) matches Json::Array(r) && if in_examples {
                &&& sorted_by(r, example_sort_key())
                &&& r.to_multiset() == sort_json_values(a).to_multiset()
                &&& forall|k: SortKey|
                    r.filter(#[trigger] with_key(example_sort_key(), k)) == sort_json_values(
                        a,
                    ).filter(with_key(example_sort_key(), k))
            } else {
                r == sort_json_values(a)
            },
            _ => sort_json(j, in_examples) == j,
        },
{
    match j {
        Json::Object(es) => {
            lemma_sort_by_key_props(sort_json_entries(es), entry_sort_key());
        },
        Json::Array(a) => {
            if in_examples {
                let v = sort_json_values(a);
                lemma_sort_by_key_props(v, example_sort_key());
                assert forall|k: SortKey|
                    sort_by_key(v, example_sort_key()).filter(
                        #[trigger] with_key(example_sort_key(), k),
                    ) == v.filter(with_key(example_sort_key(), k)) by {
                    lemma_sort_by_key_stable(v, example_sort_key(), k);
                }
            }
        },
        _ => {},
    }
}


/// In a sorted object, the keys without a priority rank come after every
/// prioritized key except the definitions (`definitions`, `$defs`, which
/// come last), and among themselves in alphabetical order.
pub proof fn lemma_sort_json_unranked_keys(j: Json, in_examples: bool)
    ensures
        j is Object ==> (sort_json(j, in_examples) matches Json::Object(r) && forall|a: int, c: int|
            0 <= a < c < r.len() && spec_key_rank(#[trigger] r[a].0) is None ==> {
                &&& spec_key_rank(#[trigger] r[c].0) matches Some(x) ==> x == 100
                &&& spec_key_rank(r[c].0) is None ==> seq_lt(r[a].0, r[c].0) || r[a].0 == r[c].0
            }),
{
    lemma_sort_json_shape(j, in_examples);
}

/// The priority table: `$schema` 0, `$id` 1, `name` 10, `title` 11,
/// `description` 12, `type` 20, `additionalProperties` 30,
/// `unevaluatedProperties` 31, `properties` 40, `required` 41, `enum` 45,
/// `const` 46, `default` 47, `inputSchema` 50, `outputSchema` 51,
/// `annotations` 52, `definitions` and `$defs` 100; every other key has no
/// rank.
pub proof fn lemma_key_rank_table(key: Seq<char>)
    ensures
        spec_key_rank("$schema"@) == Some(0usize),
        spec_key_rank("$id"@) == Some(1usize),
        spec_key_rank("name"@) == Some(10usize),
        spec_key_rank("title"@) == Some(11usize),
        spec_key_rank("description"@) == Some(12usize),
        spec_key_rank("type"@) == Some(20usize),
        spec_key_rank("additionalProperties"@) == Some(30usize),
        spec_key_rank("unevaluatedProperties"@) == Some(31usize),
        spec_key_rank("properties"@) == Some(40usize),
        spec_key_rank("required"@) == Some(41usize),
        spec_key_rank("enum"@) == Some(45usize),
        spec_key_rank("const"@) == Some(46usize),
        spec_key_rank("default"@) == Some(47usize),
        spec_key_rank("inputSchema"@) == Some(50usize),
        spec_key_rank("outputSchema"@) == Some(51usize),
        spec_key_rank("annotations"@) == Some(52usize),
        spec_key_rank("definitions"@) == Some(100usize),
        spec_key_rank("$defs"@) == Some(100usize),
        (key != "$schema"@ && key != "$id"@ && key != "name"@ && key != "title"@ && key != "description"@ && key != "type"@ && key != "additionalProperties"@ && key != "unevaluatedProperties"@ && key != "properties"@ && key != "required"@ && key != "enum"@ && key != "const"@ && key != "default"@ && key != "inputSchema"@ && key != "outputSchema"@ && key != "annotations"@ && key != "definitions"@ && key != "$defs"@) ==> spec_key_rank(key) is None,
{
    broadcast use vstd::string::group_string_axioms;
    reveal_strlit("$schema");
    reveal_strlit("$id");
    reveal_strlit("name");
    reveal_strlit("title");
    reveal_strlit("description");
    reveal_strlit("type");
    reveal_strlit("additionalProperties");
    reveal_strlit("unevaluatedProperties");
    reveal_strlit("properties");
    reveal_strlit("required");
    reveal_strlit("enum");
    reveal_strlit("const");
    reveal_strlit("default");
    reveal_strlit("inputSchema");
    reveal_strlit("outputSchema");
    reveal_strlit("annotations");
    reveal_strlit("definitions");
    reveal_strlit("$defs");
    assert("$id"@.len() != "$schema"@.len());
    assert("name"@.len() != "$schema"@.len());
    assert("name"@.len() != "$id"@.len());
    assert("title"@.len() != "$schema"@.len());
    assert("title"@.len() != "$id"@.len());
    assert("title"@.len() != "name"@.len());
    assert("description"@.len() != "$schema"@.len());
    assert("description"@.len() != "$id"@.len());
    assert("description"@.len() != "name"@.len());
    assert("description"@.len() != "title"@.len());
    assert("type"@.len() != "$schema"@.len());
    assert("type"@.len() != "$id"@.len());
    assert("type"@[0] != "name"@[0]);
    assert("type"@.len() != "title"@.len());
    assert("type"@.len() != "description"@.len());
    assert("additionalProperties"@.len() != "$schema"@.len());
    assert("additionalProperties"@.len() != "$id"@.len());
    assert("additionalProperties"@.len() != "name"@.len());
    assert("additionalProperties"@.len() != "title"@.len());
    assert("additionalProperties"@.len() != "description"@.len());
    assert("additionalProperties"@.len() != "type"@.len());
    assert("unevaluatedProperties"@.len() != "$schema"@.len());
    assert("unevaluatedProperties"@.len() != "$id"@.len());
    assert("unevaluatedProperties"@.len() != "name"@.len());
    assert("unevaluatedProperties"@.len() != "title"@.len());
    assert("unevaluatedProperties"@.len() != "description"@.len());
    assert("unevaluatedProperties"@.len() != "type"@.len());
    assert("unevaluatedProperties"@.len() != "additionalProperties"@.len());
    assert("properties"@.len() != "$schema"@.len());
    assert("properties"@.len() != "$id"@.len());
    assert("properties"@.len() != "name"@.len());
    assert("properties"@.len() != "title"@.len());
    assert("properties"@.len() != "description"@.len());
    assert("properties"@.len() != "type"@.len());
    assert("properties"@.len() != "additionalProperties"@.len());
    assert("properties"@.len() != "unevaluatedProperties"@.len());
    assert("required"@.len() != "$schema"@.len());
    assert("required"@.len() != "$id"@.len());
    assert("required"@.len() != "name"@.len());
    assert("required"@.len() != "title"@.len());
    assert("required"@.len() != "description"@.len());
    assert("required"@.len() != "type"@.len());
    assert("required"@.len() != "additionalProperties"@.len());
    assert("required"@.len() != "unevaluatedProperties"@.len());
    assert("required"@.len() != "properties"@.len());
    assert("enum"@.len() != "$schema"@.len());
    assert("enum"@.len() != "$id"@.len());
    assert("enum"@[0] != "name"@[0]);
    assert("enum"@.len() != "title"@.len());
    assert("enum"@.len() != "description"@.len());
    assert("enum"@[0] != "type"@[0]);
    assert("enum"@.len() != "additionalProperties"@.len());
    assert("enum"@.len() != "unevaluatedProperties"@.len());
    assert("enum"@.len() != "properties"@.len());
    assert("enum"@.len() != "required"@.len());
    assert("const"@.len() != "$schema"@.len());
    assert("const"@.len() != "$id"@.len());
    assert("const"@.len() != "name"@.len());
    assert("const"@[0] != "title"@[0]);
    assert("const"@.len() != "description"@.len());
    assert("const"@.len() != "type"@.len());
    assert("const"@.len() != "additionalProperties"@.len());
    assert("const"@.len() != "unevaluatedProperties"@.len());
    assert("const"@.len() != "properties"@.len());
    assert("const"@.len() != "required"@.len());
    assert("const"@.len() != "enum"@.len());
    assert("default"@[0] != "$schema"@[0]);
    assert("default"@.len() != "$id"@.len());
    assert("default"@.len() != "name"@.len());
    assert("default"@.len() != "title"@.len());
    assert("default"@.len() != "description"@.len());
    assert("default"@.len() != "type"@.len());
    assert("default"@.len() != "additionalProperties"@.len());
    assert("default"@.len() != "unevaluatedProperties"@.len());
    assert("default"@.len() != "properties"@.len());
    assert("default"@.len() != "required"@.len());
    assert("default"@.len() != "enum"@.len());
    assert("default"@.len() != "const"@.len());
    assert("inputSchema"@.len() != "$schema"@.len());
    assert("inputSchema"@.len() != "$id"@.len());
    assert("inputSchema"@.len() != "name"@.len());
    assert("inputSchema"@.len() != "title"@.len());
    assert("inputSchema"@[0] != "description"@[0]);
    assert("inputSchema"@.len() != "type"@.len());
    assert("inputSchema"@.len() != "additionalProperties"@.len());
    assert("inputSchema"@.len() != "unevaluatedProperties"@.len());
    assert("inputSchema"@.len() != "properties"@.len());
    assert("inputSchema"@.len() != "required"@.len());
    assert("inputSchema"@.len() != "enum"@.len());
    assert("inputSchema"@.len() != "const"@.len());
    assert("inputSchema"@.len() != "default"@.len());
    assert("outputSchema"@.len() != "$schema"@.len());
    assert("outputSchema"@.len() != "$id"@.len());
    assert("outputSchema"@.len() != "name"@.len());
    assert("outputSchema"@.len() != "title"@.len());
    assert("outputSchema"@.len() != "description"@.len());
    assert("outputSchema"@.len() != "type"@.len());
    assert("outputSchema"@.len() != "additionalProperties"@.len());
    assert("outputSchema"@.len() != "unevaluatedProperties"@.len());
    assert("outputSchema"@.len() != "properties"@.len());
    assert("outputSchema"@.len() != "required"@.len());
    assert("outputSchema"@.len() != "enum"@.len());
    assert("outputSchema"@.len() != "const"@.len());
    assert("outputSchema"@.len() != "default"@.len());
    assert("outputSchema"@.len() != "inputSchema"@.len());
    assert("annotations"@.len() != "$schema"@.len());
    assert("annotations"@.len() != "$id"@.len());
    assert("annotations"@.len() != "name"@.len());
    assert("annotations"@.len() != "title"@.len());
    assert("annotations"@[0] != "description"@[0]);
    assert("annotations"@.len() != "type"@.len());
    assert("annotations"@.len() != "additionalProperties"@.len());
    assert("annotations"@.len() != "unevaluatedProperties"@.len());
    assert("annotations"@.len() != "properties"@.len());
    assert("annotations"@.len() != "required"@.len());
    assert("annotations"@.len() != "enum"@.len());
    assert("annotations"@.len() != "const"@.len());
    assert("annotations"@.len() != "default"@.len());
    assert("annotations"@[0] != "inputSchema"@[0]);
    assert("annotations"@.len() != "outputSchema"@.len());
    assert("definitions"@.len() != "$schema"@.len());
    assert("definitions"@.len() != "$id"@.len());
    assert("definitions"@.len() != "name"@.len());
    assert("definitions"@.len() != "title"@.len());
    assert("definitions"@[2] != "description"@[2]);
    assert("definitions"@.len() != "type"@.len());
    assert("definitions"@.len() != "additionalProperties"@.len());
    assert("definitions"@.len() != "unevaluatedProperties"@.len());
    assert("definitions"@.len() != "properties"@.len());
    assert("definitions"@.len() != "required"@.len());
    assert("definitions"@.len() != "enum"@.len());
    assert("definitions"@.len() != "const"@.len());
    assert("definitions"@.len() != "default"@.len());
    assert("definitions"@[0] != "inputSchema"@[0]);
    assert("definitions"@.len() != "outputSchema"@.len());
    assert("definitions"@[0] != "annotations"@[0]);
    assert("$defs"@.len() != "$schema"@.len());
    assert("$defs"@.len() != "$id"@.len());
    assert("$defs"@.len() != "name"@.len());
    assert("$defs"@[0] != "title"@[0]);
    assert("$defs"@.len() != "description"@.len());
    assert("$defs"@.len() != "type"@.len());
    assert("$defs"@.len() != "additionalProperties"@.len());
    assert("$defs"@.len() != "unevaluatedProperties"@.len());
    assert("$defs"@.len() != "properties"@.len());
    assert("$defs"@.len() != "required"@.len());
    assert("$defs"@.len() != "enum"@.len());
    assert("$defs"@[0] != "const"@[0]);
    assert("$defs"@.len() != "default"@.len());
    assert("$defs"@.len() != "inputSchema"@.len());
    assert("$defs"@.len() != "outputSchema"@.len());
    assert("$defs"@.len() != "annotations"@.len());
    assert("$defs"@.len() != "definitions"@.len());
}

/// In a sorted object, keys with a priority rank appear in order of rank.
pub proof fn lemma_sort_json_ranked_keys(j: Json, in_examples: bool)
    ensures
        j is Object ==> (sort_json(j, in_examples) matches Json::Object(r) && forall|a: int, c: int|
            0 <= a < c < r.len() && spec_key_rank(#[trigger] r[a].0) is Some && spec_key_rank(
                #[trigger] r[c].0,
            ) is Some ==> spec_key_rank(r[a].0)->0 <= spec_key_rank(r[c].0)->0),
{
    lemma_sort_json_shape(j, in_examples);
}


/// With distinct keys, sorting an object keeps its keys distinct and each
/// key finds its value, sorted.
pub proof fn lemma_sort_json_object_get(es: Seq<(Seq<char>, Json)>)
    requires
        keys_distinct(es),
    ensures
        ({
            let r = sort_by_key(sort_json_entries(es), entry_sort_key());
            &&& keys_distinct(r)
            &&& forall|k: Seq<char>| #[trigger] get_value(r, k) == match get_value(es, k) {
                Some(v) => Some(sort_json(v, k == "examples"@)),
                None => None,
            }
        }),
{
    let vs = sort_json_entries(es);
    let r = sort_by_key(vs, entry_sort_key());
    lemma_sort_json_entries(es);
    lemma_sorted_keys_distinct(vs, es);
    assert(keys_distinct(vs)) by {
        assert forall|a: int, b: int| 0 <= a < b < vs.len() implies #[trigger] vs[a].0 != #[trigger] vs[b].0 by {
            assert(es[a].0 != es[b].0);
        }
    }
    lemma_sort_by_key_props(vs, entry_sort_key());
    lemma_get_value_permutation(vs, r);
    assert forall|k: Seq<char>| #[trigger] get_value(vs, k) == match get_value(es, k) {
        Some(v) => Some(sort_json(v, k == "examples"@)),
        None => None,
    } by {
        lemma_get_value_cases(es, k);
        lemma_get_value_cases(vs, k);
        if let Some(v) = get_value(es, k) {
            let i = choose|i: int| 0 <= i < es.len() && es[i].0 == k && es[i].1 == v;
            lemma_get_value_at(vs, i);
        } else if let Some(w) = get_value(vs, k) {
            let i = choose|i: int| 0 <= i < vs.len() && vs[i].0 == k && vs[i].1 == w;
            assert(es[i].0 == k);
        }
    }
}

/// Sorting entries whose keys are those of `es`, in order, keeps keys distinct.
proof fn lemma_sorted_keys_distinct(vs: Seq<(Seq<char>, Json)>, es: Seq<(Seq<char>, Json)>)
    requires
        keys_distinct(es),
        vs.len() == es.len(),
        forall|i: int| 0 <= i < es.len() ==> (#[trigger] vs[i]).0 == es[i].0,
    ensures
        keys_distinct(sort_by_key(vs, entry_sort_key())),
{
    let kf = |e: (Seq<char>, Json)| e.0;
    let kk = |k: Seq<char>| (sort_rank(k), k);
    lemma_sort_by_key_map(vs, kf, entry_sort_key(), kk);
    let keys = vs.map_values(kf);
    assert(keys.no_duplicates()) by {
        assert forall|i: int, j: int| 0 <= i < keys.len() && 0 <= j < keys.len() && i != j implies keys[i] != keys[j] by {
            if i < j {
                assert(es[i].0 != es[j].0);
            } else {
                assert(es[j].0 != es[i].0);
            }
        }
    }
    keys.lemma_multiset_has_no_duplicates();
    lemma_sort_by_key_props(keys, kk);
    let sk = sort_by_key(keys, kk);
    sk.lemma_multiset_has_no_duplicates_conv();
    let sv = sort_by_key(vs, entry_sort_key());
    lemma_sort_by_key_props(vs, entry_sort_key());
    assert forall|i: int, j: int| 0 <= i < j < sv.len() implies #[trigger] sv[i].0 != #[trigger] sv[j].0 by {
        assert(sv.map_values(kf)[i] == sv[i].0);
        assert(sv.map_values(kf)[j] == sv[j].0);
    }
}

/// The priority rank for a JSON Schema key.
///
/// Keys with lower ranks appear first; keys not in the list return `None`
/// and sort alphabetically after the prioritized keys, but before the
/// definitions (`definitions`, `$defs`), which come last.
pub fn key_rank(key: &str) -> (r: Option<usize>)
    ensures
        r == spec_key_rank(key@),
{
    if str_eq(key, "$schema") {
        Some(0)
    } else if str_eq(key, "$id") {
        Some(1)
    } else if str_eq(key, "name") {
        Some(10)
    } else if str_eq(key, "title") {
        Some(11)
    } else if str_eq(key, "description") {
        Some(12)
    } else if str_eq(key, "type") {
        Some(20)
    } else if str_eq(key, "additionalProperties") {
        Some(30)
    } else if str_eq(key, "unevaluatedProperties") {
        Some(31)
    } else if str_eq(key, "properties") {
        Some(40)
    } else if str_eq(key, "required") {
        Some(41)
    } else if str_eq(key, "enum") {
        Some(45)
    } else if str_eq(key, "const") {
        Some(46)
    } else if str_eq(key, "default") {
        Some(47)
    } else if str_eq(key, "inputSchema") {
        Some(50)
    } else if str_eq(key, "outputSchema") {
        Some(51)
    } else if str_eq(key, "annotations") {
        Some(52)
    } else if str_eq(key, "definitions") {
        Some(100)
    } else if str_eq(key, "$defs") {
        Some(100)
    } else {
        None
    }
}

/// The sort rank of `key`.
fn rank_for_sort(key: &str) -> (r: usize)
    ensures
        r as nat == sort_rank(key@),
{
    match key_rank(key) {
        Some(r) => r,
        None => 99,
    }
}

/// Recursively sorts all object keys in house style.
///
/// Object keys are ordered by their priority rank (see [`key_rank`]), then
/// alphabetically; keys without a rank come after every ranked key but the
/// definitions (`definitions`, `$defs`), which come last. Array order is kept, except that an array under an
/// `examples` key is sorted by string value (other values counting as the
/// empty string), keeping equal elements in their input order.
pub fn sort_json_keys(value: JsonValue) -> (r: JsonValue)
    ensures
        r@ == spec_sort_json_keys(value@),
{
    sort_json_keys_inner(value, false)
}

/// Sorts `value`, which is the value of an `examples` key when `in_examples`.
fn sort_json_keys_inner(value: JsonValue, in_examples: bool) -> (r: JsonValue)
    ensures
        r@ == sort_json(value@, in_examples),
    decreases value,
{
    match value {
        JsonValue::Object(m) => {
            let ghost es = m@;
            let ghost mm = m;
            let mut entries = m.into_entries();
            let ghost orig = entries@;
            let n = entries.len();
            let mut items: Vec<(usize, Vec<char>, (String, JsonValue))> = Vec::new();
            let mut i: usize = 0;
            proof {
                lemma_entries_view(orig);
            }
            while entries.len() > 0
                invariant
                    n == orig.len(),
                    i + entries@.len() == n,
                    entries@ == orig.skip(i as int),
                    items@.len() == i,
                    es == entries_view(orig),
                    entries_view(orig).len() == orig.len(),
                    forall|j: int|
                        0 <= j < orig.len() ==> #[trigger] entries_view(orig)[j] == (
                            orig[j].0@,
                            orig[j].1@,
                        ),
                    forall|j: int| 0 <= j < orig.len() ==> decreases_to!(value => orig[j].1),
                    forall|j: int|
                        0 <= j < i ==> {
                            &&& (#[trigger] items@[j]).0 as nat == sort_rank(es[j].0)
                            &&& items@[j].1@ == es[j].0
                            &&& items@[j].2.0@ == es[j].0
                            &&& items@[j].2.1@ == sort_json(es[j].1, es[j].0 == "examples"@)
                        },
                decreases entries.len(),
            {
                let (k, v) = entries.remove(0);
                assert(orig.skip(i as int)[0] == orig[i as int]);
                assert(orig.skip(i as int).drop_first() =~= orig.skip(i + 1));
                let rank = rank_for_sort(k.as_str());
                let chars = chars_of(k.as_str());
                let flag = str_eq(k.as_str(), "examples");
                proof {
                    assert(decreases_to!(value => v));
                }
                let sv = sort_json_keys_inner(v, flag);
                items.push((rank, chars, (k, sv)));
                i = i + 1;
            }
            let ghost f = |e: (usize, Vec<char>, (String, JsonValue))| (e.2.0@, e.2.1@);
            let ghost vs = sort_json_entries(es);
            proof {
                lemma_sort_json_entries(es);
                assert(items@.map_values(f) =~= vs);
                assert forall|i: int| 0 <= i < items@.len() implies entry_sort_key()(
                    f(#[trigger] items@[i]),
                ) == item_key()(items@[i]) by {}
                lemma_sort_by_key_map(items@, f, item_key(), entry_sort_key());
            }
            let mut sorted = sort_items(items);
            let ghost sorted_model = sort_by_key(vs, entry_sort_key());
            proof {
                lemma_sort_by_key_props(items@, item_key());
                assert(sorted@.map_values(f) == sorted_model);
            }
            let ghost sorted0 = sorted@;
            let mut out: Vec<(String, JsonValue)> = Vec::new();
            let mut j: usize = 0;
            let total = sorted.len();
            while sorted.len() > 0
                invariant
                    total == sorted0.len(),
                    j + sorted@.len() == total,
                    sorted@ == sorted0.skip(j as int),
                    out@.len() == j,
                    forall|m: int|
                        0 <= m < j ==> (#[trigger] out@[m]).0@ == sorted0[m].2.0@ && out@[m].1@
                            == sorted0[m].2.1@,
                decreases sorted.len(),
            {
                let item = sorted.remove(0);
                assert(sorted0.skip(j as int)[0] == sorted0[j as int]);
                assert(sorted0.skip(j as int).drop_first() =~= sorted0.skip(j + 1));
                out.push(item.2);
                j = j + 1;
            }
            proof {
                lemma_entries_view_ext(out@, sorted_model);
                lemma_sorted_keys_distinct(vs, es);
            }
            JsonValue::Object(JsonMap::from_entries(out))
        },
        JsonValue::Array(a) => {
            let ghost orig = a@;
            let mut rest = a;
            let n = rest.len();
            let mut items: Vec<(usize, Vec<char>, JsonValue)> = Vec::new();
            let mut i: usize = 0;
            proof {
                lemma_values_view(orig);
            }
            while rest.len() > 0
                invariant
                    n == orig.len(),
                    i + rest@.len() == n,
                    rest@ == orig.skip(i as int),
                    items@.len() == i,
                    values_view(orig).len() == orig.len(),
                    forall|j: int| 0 <= j < orig.len() ==> #[trigger] values_view(orig)[j] == orig[j]@,
                    forall|j: int| 0 <= j < orig.len() ==> decreases_to!(value => orig[j]),
                    forall|j: int|
                        0 <= j < i ==> {
                            &&& (#[trigger] items@[j]).0 == 0
                            &&& items@[j].1@ == example_text(sort_json(orig[j]@, false))
                            &&& items@[j].2@ == sort_json(orig[j]@, false)
                        },
                decreases rest.len(),
            {
                let v = rest.remove(0);
                assert(orig.skip(i as int)[0] == orig[i as int]);
                assert(orig.skip(i as int).drop_first() =~= orig.skip(i + 1));
                proof {
                    assert(decreases_to!(value => v));
                }
                let sv = sort_json_keys_inner(v, false);
                let text: Vec<char> = match &sv {
                    JsonValue::Str(s) => chars_of(s.as_str()),
                    _ => Vec::new(),
                };
                items.push((0, text, sv));
                i = i + 1;
            }
            let ghost f = |e: (usize, Vec<char>, JsonValue)| e.2@;
            let ghost vs = sort_json_values(values_view(orig));
            proof {
                lemma_sort_json_values(values_view(orig));
                assert(items@.map_values(f) =~= vs);
            }
            let ghost model = if in_examples {
                sort_by_key(vs, example_sort_key())
            } else {
                vs
            };
            proof {
                assert forall|i: int| 0 <= i < items@.len() implies example_sort_key()(
                    f(#[trigger] items@[i]),
                ) == item_key()(items@[i]) by {}
                lemma_sort_by_key_map(items@, f, item_key(), example_sort_key());
            }
            let mut arranged = if in_examples {
                sort_items(items)
            } else {
                items
            };
            assert(arranged@.map_values(f) == model);
            let ghost arranged0 = arranged@;
            let mut out: Vec<JsonValue> = Vec::new();
            let mut j: usize = 0;
            let total = arranged.len();
            while arranged.len() > 0
                invariant
                    total == arranged0.len(),
                    j + arranged@.len() == total,
                    arranged@ == arranged0.skip(j as int),
                    out@.len() == j,
                    forall|m: int| 0 <= m < j ==> (#[trigger] out@[m])@ == arranged0[m].2@,
                decreases arranged.len(),
            {
                let item = arranged.remove(0);
                assert(arranged0.skip(j as int)[0] == arranged0[j as int]);
                assert(arranged0.skip(j as int).drop_first() =~= arranged0.skip(j + 1));
                out.push(item.2);
                j = j + 1;
            }
            proof {
                lemma_values_view_ext(out@, model);
            }
            JsonValue::Array(out)
        },
        other => other,
    }
}

} // verus!
