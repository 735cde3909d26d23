//! Stable sorting by a key made of a rank and a string.
//!
//! Keys are ordered by rank, then by the string in code point order.
//! `sort_by_key` is insertion sort: each element is placed after every
//! element already placed whose key is not greater, which keeps equal keys
//! in their original order.

use vstd::prelude::*;
use crate::text::{seq_lt, compare_chars, lemma_seq_lt_total, lemma_seq_lt_transitive, lemma_seq_lt_irreflexive};

verus! {

/// A sort key: a rank, then a string.
pub type SortKey = (nat, Seq<char>);

/// Strict order on sort keys.
pub open spec fn key_lt(a: SortKey, b: SortKey) -> bool {
    a.0 < b.0 || (a.0 == b.0 && seq_lt(a.1, b.1))
}

/// Non-strict order on sort keys.
pub open spec fn key_le(a: SortKey, b: SortKey) -> bool {
    key_lt(a, b) || a == b
}

/// `s` is in non-decreasing key order.
pub open spec fn sorted_by<T>(s: Seq<T>, key: spec_fn(T) -> SortKey) -> bool {
    forall|i: int, j: int| 0 <= i < j < s.len() ==> key_le(key(#[trigger] s[i]), key(#[trigger] s[j]))
}

/// Places `x` into `s` after every trailing element whose key is greater
/// than `x`'s.
pub open spec fn insert_sorted<T>(s: Seq<T>, x: T, key: spec_fn(T) -> SortKey) -> Seq<T>
    decreases s.len(),
{
    if s.len() == 0 {
        seq![x]
    } else if key_le(key(s.last()), key(x)) {
        s.push(x)
    } else {
        insert_sorted(s.drop_last(), x, key).push(s.last())
    }
}

/// Stable sort of `s` by `key`.
pub open spec fn sort_by_key<T>(s: Seq<T>, key: spec_fn(T) -> SortKey) -> Seq<T>
    decreases s.len(),
{
    if s.len() == 0 {
        s
    } else {
        insert_sorted(sort_by_key(s.drop_last(), key), s.last(), key)
    }
}

pub proof fn lemma_key_le_total(a: SortKey, b: SortKey)
    ensures
        key_le(a, b) || key_le(b, a),
        key_le(a, b) && key_le(b, a) ==> a == b,
        !key_le(a, b) ==> key_lt(b, a),
{
    lemma_seq_lt_total(a.1, b.1);
    if a.0 == b.0 && a.1 == b.1 {
        assert(a == b);
    }
}

pub proof fn lemma_key_le_transitive(a: SortKey, b: SortKey, c: SortKey)
    requires
        key_le(a, b),
        key_le(b, c),
    ensures
        key_le(a, c),
{
    if a.0 == b.0 && b.0 == c.0 && seq_lt(a.1, b.1) && seq_lt(b.1, c.1) {
        lemma_seq_lt_transitive(a.1, b.1, c.1);
    }
}

/// Inserting into a sorted sequence is inserting at the first position,
/// counted from the end, whose left neighbour is not greater.
pub proof fn lemma_insert_sorted_at<T>(s: Seq<T>, x: T, key: spec_fn(T) -> SortKey, j: int)
    requires
        0 <= j <= s.len(),
        forall|m: int| j <= m < s.len() ==> key_lt(key(x), key(#[trigger] s[m])),
        j > 0 ==> key_le(key(s[j - 1]), key(x)),
    ensures
        insert_sorted(s, x, key) == s.insert(j, x),
    decreases s.len(),
{
    if s.len() == 0 {
        assert(s.insert(0, x) =~= seq![x]);
    } else if j == s.len() {
        assert(s.insert(j, x) =~= s.push(x));
    } else {
        let l = s.last();
        assert(key_lt(key(x), key(l)));
        lemma_key_le_total(key(l), key(x));
        if key_le(key(l), key(x)) {
            lemma_key_le_total(key(x), key(l));
            assert(key(l) == key(x));
            lemma_seq_lt_irreflexive(key(x).1);
        }
        lemma_insert_sorted_at(s.drop_last(), x, key, j);
        assert(s.drop_last().insert(j, x).push(l) =~= s.insert(j, x));
    }
}

/// Facts about `insert_sorted` on a sorted sequence: the result is sorted,
/// is a permutation of `s` with `x`, and holds the elements of `s` in order
/// with `x` after those whose key is not greater.
pub proof fn lemma_insert_sorted_props<T>(s: Seq<T>, x: T, key: spec_fn(T) -> SortKey)
    requires
        sorted_by(s, key),
    ensures
        sorted_by(insert_sorted(s, x, key), key),
        insert_sorted(s, x, key).to_multiset() == s.to_multiset().insert(x),
        insert_sorted(s, x, key).len() == s.len() + 1,
        exists|j: int|
            0 <= j <= s.len() && insert_sorted(s, x, key) == s.insert(j, x) && (forall|m: int|
                j <= m < s.len() ==> key_lt(key(x), key(#[trigger] s[m]))) && (forall|m: int|
                0 <= m < j ==> key_le(key(#[trigger] s[m]), key(x))),
    decreases s.len(),
{
    broadcast use vstd::seq_lib::group_to_multiset_ensures;
    if s.len() == 0 {
        assert(s.insert(0, x) =~= seq![x]);
        assert(seq![x] =~= s.push(x));
    } else {
        let l = s.last();
        let d = s.drop_last();
        assert(sorted_by(d, key));
        assert(s =~= d.push(l));
        if key_le(key(l), key(x)) {
            assert(s.insert(s.len() as int, x) =~= s.push(x));
            assert forall|m: int| 0 <= m < s.len() implies key_le(key(#[trigger] s[m]), key(x)) by {
                if m < s.len() - 1 {
                    lemma_key_le_transitive(key(s[m]), key(l), key(x));
                }
            }
            let r = s.push(x);
            assert forall|a: int, b: int| 0 <= a < b < r.len() implies key_le(
                key(#[trigger] r[a]),
                key(#[trigger] r[b]),
            ) by {
                if b == s.len() {
                    assert(r[a] == s[a]);
                } else {
                    assert(r[a] == s[a] && r[b] == s[b]);
                }
            }
        } else {
            lemma_key_le_total(key(l), key(x));
            lemma_insert_sorted_props(d, x, key);
            let r0 = insert_sorted(d, x, key);
            let j = choose|j: int|
                0 <= j <= d.len() && r0 == d.insert(j, x) && (forall|m: int|
                    j <= m < d.len() ==> key_lt(key(x), key(#[trigger] d[m]))) && (forall|m: int|
                    0 <= m < j ==> key_le(key(#[trigger] d[m]), key(x)));
            let r = r0.push(l);
            assert(r =~= s.insert(j, x));
            assert forall|m: int| j <= m < s.len() implies key_lt(key(x), key(#[trigger] s[m])) by {
                if m < s.len() - 1 {
                    assert(s[m] == d[m]);
                }
            }
            assert forall|m: int| 0 <= m < j implies key_le(key(#[trigger] s[m]), key(x)) by {
                assert(s[m] == d[m]);
            }
            assert forall|a: int, b: int| 0 <= a < b < r.len() implies key_le(
                key(#[trigger] r[a]),
                key(#[trigger] r[b]),
            ) by {
                if b == r.len() - 1 {
                    if a == j {
                        assert(r[a] == x);
                        assert(key_lt(key(x), key(l)));
                    } else if a < j {
                        assert(r[a] == s[a]);
                        assert(s[a] == d[a]);
                    } else {
                        assert(r[a] == s[a - 1]);
                    }
                } else {
                    assert(r[a] == r0[a] && r[b] == r0[b]);
                }
            }
            assert(r0.to_multiset() == d.to_multiset().insert(x));
            assert(r.to_multiset() == r0.to_multiset().insert(l));
            assert(s.to_multiset() == d.to_multiset().insert(l));
            assert(r.to_multiset() =~= s.to_multiset().insert(x));
        }
    }
}

/// `sort_by_key` returns a sorted permutation of its input.
pub proof fn lemma_sort_by_key_props<T>(s: Seq<T>, key: spec_fn(T) -> SortKey)
    ensures
        sorted_by(sort_by_key(s, key), key),
        sort_by_key(s, key).to_multiset() == s.to_multiset(),
        sort_by_key(s, key).len() == s.len(),
    decreases s.len(),
{
    broadcast use vstd::seq_lib::group_to_multiset_ensures;
    if s.len() > 0 {
        lemma_sort_by_key_props(s.drop_last(), key);
        lemma_insert_sorted_props(sort_by_key(s.drop_last(), key), s.last(), key);
        assert(s =~= s.drop_last().push(s.last()));
    }
}


/// Elements with the sort key `k`.
pub open spec fn with_key<T>(key: spec_fn(T) -> SortKey, k: SortKey) -> spec_fn(T) -> bool {
    |x: T| key(x) == k
}

proof fn lemma_insert_sorted_stable<T>(s: Seq<T>, x: T, key: spec_fn(T) -> SortKey, k: SortKey)
    requires
        sorted_by(s, key),
    ensures
        insert_sorted(s, x, key).filter(with_key(key, k)) == if key(x) == k {
            s.filter(with_key(key, k)).push(x)
        } else {
            s.filter(with_key(key, k))
        },
{
    lemma_insert_sorted_props(s, x, key);
    let p = with_key(key, k);
    let j = choose|j: int|
        0 <= j <= s.len() && insert_sorted(s, x, key) == s.insert(j, x) && (forall|m: int|
            j <= m < s.len() ==> key_lt(key(x), key(#[trigger] s[m]))) && (forall|m: int|
            0 <= m < j ==> key_le(key(#[trigger] s[m]), key(x)));
    let a = s.take(j);
    let b = s.skip(j);
    assert(s =~= a + b);
    assert(s.insert(j, x) =~= a + (seq![x] + b));
    Seq::filter_distributes_over_add(a, b, p);
    Seq::filter_distributes_over_add(seq![x], b, p);
    Seq::filter_distributes_over_add(a, seq![x] + b, p);
    assert(seq![x].filter(p) == if p(x) { seq![x] } else { Seq::<T>::empty() }) by {
        reveal_with_fuel(Seq::filter, 2);
        assert(seq![x].drop_last() =~= Seq::<T>::empty());
        assert(seq![x].last() == x);
    }
    if key(x) == k {
        assert(b.filter(p) =~= Seq::<T>::empty()) by {
            b.lemma_filter_len(p);
            if b.filter(p).len() > 0 {
                let y = b.filter(p)[0];
                b.lemma_filter_pred(p, 0);
                assert(b.filter(p).contains(y));
                b.lemma_filter_contains_rev(p, y);
                let m = choose|m: int| 0 <= m < b.len() && b[m] == y;
                assert(b[m] == s[j + m]);
                assert(key_lt(key(x), key(s[j + m])));
                crate::text::lemma_seq_lt_irreflexive(key(x).1);
            }
        }
        assert(a.filter(p).push(x) =~= a.filter(p) + seq![x]);
    }
}

/// `sort_by_key` is stable: the elements of each key keep their relative order.
pub proof fn lemma_sort_by_key_stable<T>(s: Seq<T>, key: spec_fn(T) -> SortKey, k: SortKey)
    ensures
        sort_by_key(s, key).filter(with_key(key, k)) == s.filter(with_key(key, k)),
    decreases s.len(),
{
    if s.len() > 0 {
        lemma_sort_by_key_stable(s.drop_last(), key, k);
        lemma_sort_by_key_props(s.drop_last(), key);
        lemma_insert_sorted_stable(sort_by_key(s.drop_last(), key), s.last(), key, k);
        let p = with_key(key, k);
        reveal(Seq::filter);
        assert(p(s.last()) == (key(s.last()) == k));
        assert(s.filter(p) == if p(s.last()) {
            s.drop_last().filter(p).push(s.last())
        } else {
            s.drop_last().filter(p)
        });
    }
}

/// An element of the sorted sequence is an element of the input.
pub proof fn lemma_sort_by_key_contains<T>(s: Seq<T>, key: spec_fn(T) -> SortKey, i: int)
    requires
        0 <= i < s.len(),
    ensures
        s.contains(sort_by_key(s, key)[i]),
{
    broadcast use vstd::seq_lib::group_to_multiset_ensures;
    lemma_sort_by_key_props(s, key);
    let r = sort_by_key(s, key);
    assert(r.to_multiset().count(r[i]) > 0);
}

/// Sorting a sorted sequence leaves it unchanged.
pub proof fn lemma_sort_by_key_sorted<T>(s: Seq<T>, key: spec_fn(T) -> SortKey)
    requires
        sorted_by(s, key),
    ensures
        sort_by_key(s, key) == s,
    decreases s.len(),
{
    if s.len() > 0 {
        let d = s.drop_last();
        assert(sorted_by(d, key));
        lemma_sort_by_key_sorted(d, key);
        if d.len() > 0 {
            assert(key_le(key(s[d.len() - 1]), key(s[d.len() as int])));
        }
        assert(d.push(s.last()) =~= s);
    }
}

/// Sorting commutes with a map that keeps the keys of the elements.
pub proof fn lemma_sort_by_key_map<A, B>(
    s: Seq<A>,
    f: spec_fn(A) -> B,
    ka: spec_fn(A) -> SortKey,
    kb: spec_fn(B) -> SortKey,
)
    requires
        forall|i: int| 0 <= i < s.len() ==> kb(f(#[trigger] s[i])) == ka(s[i]),
    ensures
        sort_by_key(s, ka).map_values(f) == sort_by_key(s.map_values(f), kb),
    decreases s.len(),
{
    if s.len() > 0 {
        let d = s.drop_last();
        assert forall|i: int| 0 <= i < d.len() implies kb(f(#[trigger] d[i])) == ka(d[i]) by {
            assert(d[i] == s[i]);
        }
        lemma_sort_by_key_map(d, f, ka, kb);
        assert(s.map_values(f).drop_last() =~= d.map_values(f));
        lemma_sort_by_key_props(d, ka);
        let sd = sort_by_key(d, ka);
        assert forall|i: int| 0 <= i < sd.len() implies kb(f(#[trigger] sd[i])) == ka(sd[i]) by {
            lemma_sort_by_key_contains(d, ka, i);
        }
        assert(kb(f(s[s.len() - 1])) == ka(s[s.len() - 1]));
        lemma_insert_sorted_map(sd, s.last(), f, ka, kb);
    }
}

proof fn lemma_insert_sorted_map<A, B>(
    s: Seq<A>,
    x: A,
    f: spec_fn(A) -> B,
    ka: spec_fn(A) -> SortKey,
    kb: spec_fn(B) -> SortKey,
)
    requires
        forall|i: int| 0 <= i < s.len() ==> kb(f(#[trigger] s[i])) == ka(s[i]),
        kb(f(x)) == ka(x),
    ensures
        insert_sorted(s, x, ka).map_values(f) == insert_sorted(s.map_values(f), f(x), kb),
    decreases s.len(),
{
    if s.len() == 0 {
        assert(seq![x].map_values(f) =~= seq![f(x)]);
    } else {
        assert(s.map_values(f).last() == f(s.last()));
        assert(kb(f(s[s.len() - 1])) == ka(s[s.len() - 1]));
        if key_le(ka(s.last()), ka(x)) {
            assert(s.push(x).map_values(f) =~= s.map_values(f).push(f(x)));
        } else {
            let d = s.drop_last();
            assert forall|i: int| 0 <= i < d.len() implies kb(f(#[trigger] d[i])) == ka(d[i]) by {
                assert(d[i] == s[i]);
            }
            lemma_insert_sorted_map(d, x, f, ka, kb);
            assert(s.map_values(f).drop_last() =~= d.map_values(f));
            assert(insert_sorted(d, x, ka).push(s.last()).map_values(f) =~= insert_sorted(
                d,
                x,
                ka,
            ).map_values(f).push(f(s.last())));
        }
    }
}

/// The key of an item that carries its rank and its string.
pub open spec fn item_key<T>() -> spec_fn((usize, Vec<char>, T)) -> SortKey {
    |e: (usize, Vec<char>, T)| (e.0 as nat, e.1@)
}

/// Compares two item keys: whether `a` sorts strictly after `b`.
fn item_gt<T>(a: &(usize, Vec<char>, T), b: &(usize, Vec<char>, T)) -> (r: bool)
    ensures
        r == key_lt(item_key::<T>()(*b), item_key::<T>()(*a)),
{
    if a.0 != b.0 {
        a.0 > b.0
    } else {
        compare_chars(&a.1, &b.1) == 1
    }
}

/// Stable insertion sort of items by their rank, then their string.
pub fn sort_items<T>(items: Vec<(usize, Vec<char>, T)>) -> (r: Vec<(usize, Vec<char>, T)>)
    ensures
        r@ == sort_by_key(items@, item_key::<T>()),
{
    let ghost orig = items@;
    let ghost key = item_key::<T>();
    let mut rest = items;
    let mut out: Vec<(usize, Vec<char>, T)> = Vec::new();
    let mut i: usize = 0;
    let n = rest.len();
    while rest.len() > 0
        invariant
            n == orig.len(),
            i + rest@.len() == n,
            rest@ == orig.skip(i as int),
            out@ == sort_by_key(orig.take(i as int), key),
            key == item_key::<T>(),
        decreases rest.len(),
    {
        proof {
            lemma_sort_by_key_props(orig.take(i as int), key);
        }
        let x = rest.remove(0);
        let mut j: usize = out.len();
        while j > 0 && item_gt(&out[j - 1], &x)
            invariant
                j <= out@.len(),
                forall|m: int| j <= m < out@.len() ==> key_lt(key(x), key(#[trigger] out@[m])),
                key == item_key::<T>(),
            decreases j,
        {
            j = j - 1;
        }
        proof {
            if j > 0 {
                lemma_key_le_total(key(out@[j - 1]), key(x));
            }
            lemma_insert_sorted_at(out@, x, key, j as int);
            assert(orig.take(i + 1).drop_last() =~= orig.take(i as int));
            assert(orig.take(i + 1).last() == x);
            assert(orig.skip(i as int).drop_first() =~= orig.skip(i + 1));
        }
        out.insert(j, x);
        i = i + 1;
    }
    assert(orig.take(n as int) =~= orig);
    out
}

} // verus!
