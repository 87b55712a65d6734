//! Association lists viewed as maps.
//!
//! Several containers of this crate hold their entries in a `Vec` keyed by
//! some field (a property name, a block position) with no two entries sharing
//! a key. This module gives the common mathematical view of such a list as a
//! `Map`, and the lemmas that relate list edits to map edits.

use vstd::prelude::*;

verus! {

/// The map described by an association list: `key` picks each entry's key,
/// `val` its value. Later entries override earlier ones; on a list with
/// distinct keys every entry is visible.
pub open spec fn assoc_map<T, K, V>(s: Seq<T>, key: spec_fn(T) -> K, val: spec_fn(T) -> V) -> Map<
    K,
    V,
>
    decreases s.len(),
{
    if s.len() == 0 {
        Map::empty()
    } else {
        assoc_map(s.drop_last(), key, val).insert(key(s.last()), val(s.last()))
    }
}

/// No two entries of the list share a key.
pub open spec fn unique_keys<T, K>(s: Seq<T>, key: spec_fn(T) -> K) -> bool {
    forall|i: int, j: int| 0 <= i < j < s.len() ==> key(s[i]) != key(s[j])
}

pub proof fn lemma_unique_keys_drop_last<T, K>(s: Seq<T>, key: spec_fn(T) -> K)
    requires
        unique_keys(s, key),
        s.len() > 0,
    ensures
        unique_keys(s.drop_last(), key),
{
    assert forall|i: int, j: int|
        0 <= i < j < s.drop_last().len() implies key(s.drop_last()[i]) != key(
        s.drop_last()[j],
    ) by {
        assert(s.drop_last()[i] == s[i]);
        assert(s.drop_last()[j] == s[j]);
    }
}

/// A key is in the map exactly when some entry carries it.
pub proof fn lemma_assoc_map_has_key<T, K, V>(
    s: Seq<T>,
    key: spec_fn(T) -> K,
    val: spec_fn(T) -> V,
    k: K,
)
    ensures
        assoc_map(s, key, val).contains_key(k) <==> (exists|i: int|
            0 <= i < s.len() && key(s[i]) == k),
    decreases s.len(),
{
    if s.len() == 0 {
    } else {
        lemma_assoc_map_has_key(s.drop_last(), key, val, k);
        if key(s.last()) == k {
            assert(key(s[s.len() - 1]) == k);
        } else {
            if exists|i: int| 0 <= i < s.len() && key(s[i]) == k {
                let i = choose|i: int| 0 <= i < s.len() && key(s[i]) == k;
                assert(key(s.drop_last()[i]) == k);
            }
            if exists|i: int| 0 <= i < s.drop_last().len() && key(s.drop_last()[i]) == k {
                let i = choose|i: int| 0 <= i < s.drop_last().len() && key(s.drop_last()[i]) == k;
                assert(key(s[i]) == k);
            }
        }
    }
}

/// On a list with distinct keys, each entry is visible in the map.
pub proof fn lemma_assoc_map_get<T, K, V>(
    s: Seq<T>,
    key: spec_fn(T) -> K,
    val: spec_fn(T) -> V,
    i: int,
)
    requires
        unique_keys(s, key),
        0 <= i < s.len(),
    ensures
        assoc_map(s, key, val).contains_key(key(s[i])),
        assoc_map(s, key, val)[key(s[i])] == val(s[i]),
    decreases s.len(),
{
    if i == s.len() - 1 {
    } else {
        lemma_unique_keys_drop_last(s, key);
        lemma_assoc_map_get(s.drop_last(), key, val, i);
        assert(s.drop_last()[i] == s[i]);
        assert(key(s[i]) != key(s[s.len() - 1]));
    }
}

/// Replacing the entry at `i` with one that carries the same key is a map
/// insert under that key.
pub proof fn lemma_assoc_map_update<T, K, V>(
    s: Seq<T>,
    key: spec_fn(T) -> K,
    val: spec_fn(T) -> V,
    i: int,
    t: T,
)
    requires
        unique_keys(s, key),
        0 <= i < s.len(),
        key(t) == key(s[i]),
    ensures
        assoc_map(s.update(i, t), key, val) == assoc_map(s, key, val).insert(key(t), val(t)),
        unique_keys(s.update(i, t), key),
    decreases s.len(),
{
    let s2 = s.update(i, t);
    assert forall|a: int, b: int| 0 <= a < b < s2.len() implies key(s2[a]) != key(s2[b]) by {
        assert(key(s[a]) != key(s[b]));
    }
    if i == s.len() - 1 {
        assert(s2.drop_last() =~= s.drop_last());
        assert(assoc_map(s2, key, val) == assoc_map(s.drop_last(), key, val).insert(
            key(t),
            val(t),
        ));
        assert(assoc_map(s, key, val).insert(key(t), val(t)) =~= assoc_map(
            s.drop_last(),
            key,
            val,
        ).insert(key(t), val(t)));
    } else {
        lemma_unique_keys_drop_last(s, key);
        assert(s.drop_last()[i] == s[i]);
        lemma_assoc_map_update(s.drop_last(), key, val, i, t);
        assert(s2.drop_last() =~= s.drop_last().update(i, t));
        assert(s2.last() == s.last());
        assert(key(s[i]) != key(s[s.len() - 1]));
        assert(assoc_map(s.drop_last(), key, val).insert(key(t), val(t)).insert(
            key(s.last()),
            val(s.last()),
        ) =~= assoc_map(s.drop_last(), key, val).insert(key(s.last()), val(s.last())).insert(
            key(t),
            val(t),
        ));
    }
}

/// Appending an entry whose key is fresh is a map insert under that key.
pub proof fn lemma_assoc_map_push<T, K, V>(
    s: Seq<T>,
    key: spec_fn(T) -> K,
    val: spec_fn(T) -> V,
    t: T,
)
    requires
        unique_keys(s, key),
        forall|i: int| 0 <= i < s.len() ==> key(s[i]) != key(t),
    ensures
        assoc_map(s.push(t), key, val) == assoc_map(s, key, val).insert(key(t), val(t)),
        unique_keys(s.push(t), key),
{
    assert(s.push(t).drop_last() =~= s);
    assert(s.push(t).last() == t);
    assert forall|a: int, b: int|
        0 <= a < b < s.push(t).len() implies key(s.push(t)[a]) != key(s.push(t)[b]) by {
        if b < s.len() {
            assert(key(s[a]) != key(s[b]));
        } else {
            assert(s.push(t)[a] == s[a]);
        }
    }
}

/// Removing the entry at `i` is a map remove under that entry's key.
pub proof fn lemma_assoc_map_remove<T, K, V>(
    s: Seq<T>,
    key: spec_fn(T) -> K,
    val: spec_fn(T) -> V,
    i: int,
)
    requires
        unique_keys(s, key),
        0 <= i < s.len(),
    ensures
        assoc_map(s.remove(i), key, val) == assoc_map(s, key, val).remove(key(s[i])),
        unique_keys(s.remove(i), key),
    decreases s.len(),
{
    let s2 = s.remove(i);
    let m = assoc_map(s, key, val);
    assert forall|a: int, b: int| 0 <= a < b < s2.len() implies key(s2[a]) != key(s2[b]) by {
        let a0: int = if a < i {
            a
        } else {
            a + 1
        };
        let b0: int = if b < i {
            b
        } else {
            b + 1
        };
        assert(s2[a] == s[a0]);
        assert(s2[b] == s[b0]);
        assert(key(s[a0]) != key(s[b0]));
    }
    if i == s.len() - 1 {
        assert(s2 =~= s.drop_last());
        lemma_unique_keys_drop_last(s, key);
        lemma_assoc_map_has_key(s.drop_last(), key, val, key(s[i]));
        assert forall|j: int| 0 <= j < s.drop_last().len() implies key(s.drop_last()[j]) != key(
            s[i],
        ) by {
            assert(s.drop_last()[j] == s[j]);
        }
        assert(!assoc_map(s.drop_last(), key, val).contains_key(key(s[i])));
        assert(assoc_map(s.drop_last(), key, val).insert(key(s.last()), val(s.last())).remove(
            key(s[i]),
        ) =~= assoc_map(s.drop_last(), key, val));
    } else {
        lemma_unique_keys_drop_last(s, key);
        assert(s.drop_last()[i] == s[i]);
        lemma_assoc_map_remove(s.drop_last(), key, val, i);
        assert(s2.drop_last() =~= s.drop_last().remove(i));
        assert(s2.last() == s.last());
        assert(key(s[i]) != key(s[s.len() - 1]));
        assert(assoc_map(s.drop_last(), key, val).remove(key(s[i])).insert(
            key(s.last()),
            val(s.last()),
        ) =~= assoc_map(s.drop_last(), key, val).insert(key(s.last()), val(s.last())).remove(
            key(s[i]),
        ));
    }
}

} // verus!
