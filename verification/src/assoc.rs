//! Association lists with distinct keys, viewed as mathematical maps.
//!
//! The store and the mapping tables keep their entries in vectors of
//! key-value pairs whose keys are pairwise distinct; their contracts speak of
//! the [`map_of`] view.  The lemmas here relate the vector operations
//! (lookup, in-place replacement, push) to `Map` operations on that view.

use vstd::prelude::*;

verus! {

/// The map described by an association list; a later entry for the same key
/// overrides an earlier one.
pub open spec fn map_of<K, V>(s: Seq<(K, V)>) -> Map<K, V>
    decreases s.len(),
{
    if s.len() == 0 {
        Map::empty()
    } else {
        map_of(s.drop_last()).insert(s.last().0, s.last().1)
    }
}

/// No two entries share a key.
pub open spec fn distinct_keys<K, V>(s: Seq<(K, V)>) -> bool {
    forall|i: int, j: int| 0 <= i < j < s.len() ==> s[i].0 != s[j].0
}

/// A key that occurs in no entry is not in the map.
pub proof fn lemma_map_of_absent<K, V>(s: Seq<(K, V)>, k: K)
    requires
        forall|i: int| 0 <= i < s.len() ==> s[i].0 != k,
    ensures
        !map_of(s).contains_key(k),
    decreases s.len(),
{
    if s.len() > 0 {
        lemma_map_of_absent(s.drop_last(), k);
    }
}

/// The entry at any position of a distinct-keyed list gives the map's value
/// for that key.
pub proof fn lemma_map_of_present<K, V>(s: Seq<(K, V)>, j: int)
    requires
        distinct_keys(s),
        0 <= j < s.len(),
    ensures
        map_of(s).contains_key(s[j].0),
        map_of(s)[s[j].0] == s[j].1,
    decreases s.len(),
{
    if j < s.len() - 1 {
        lemma_map_of_present(s.drop_last(), j);
    }
}

/// Replacing the entry that holds a key updates the map at that key.
pub proof fn lemma_map_of_update<K, V>(s: Seq<(K, V)>, j: int, k: K, v: V)
    requires
        distinct_keys(s),
        0 <= j < s.len(),
        s[j].0 == k,
    ensures
        map_of(s.update(j, (k, v))) == map_of(s).insert(k, v),
        distinct_keys(s.update(j, (k, v))),
    decreases s.len(),
{
    let t = s.update(j, (k, v));
    assert(forall|i: int| 0 <= i < s.len() && i != j ==> t[i] == s[i]);
    if j == s.len() - 1 {
        assert(t.drop_last() =~= s.drop_last());
        assert(map_of(t) =~= map_of(s).insert(k, v));
    } else {
        lemma_map_of_update(s.drop_last(), j, k, v);
        assert(t.drop_last() =~= s.drop_last().update(j, (k, v)));
        assert(s.last().0 != k);
        assert(map_of(t) =~= map_of(s).insert(k, v));
    }
}

/// The position of the first entry holding a key, if any entry does.
pub open spec fn key_index<K, V>(s: Seq<(K, V)>, k: K) -> Option<int>
    decreases s.len(),
{
    if s.len() == 0 {
        None
    } else if s[0].0 == k {
        Some(0)
    } else {
        match key_index(s.drop_first(), k) {
            Some(i) => Some(i + 1),
            None => None,
        }
    }
}

/// An entry that no earlier entry's key precedes is the one `key_index`
/// names.
pub proof fn lemma_key_index_at<K, V>(s: Seq<(K, V)>, k: K, j: int)
    requires
        0 <= j < s.len(),
        s[j].0 == k,
        forall|i: int| 0 <= i < j ==> s[i].0 != k,
    ensures
        key_index(s, k) == Some(j),
    decreases s.len(),
{
    if j > 0 {
        lemma_key_index_at(s.drop_first(), k, j - 1);
    }
}

/// A key that occurs nowhere has no index.
pub proof fn lemma_key_index_absent<K, V>(s: Seq<(K, V)>, k: K)
    requires
        forall|i: int| 0 <= i < s.len() ==> s[i].0 != k,
    ensures
        key_index(s, k) is None,
    decreases s.len(),
{
    if s.len() > 0 {
        lemma_key_index_absent(s.drop_first(), k);
    }
}

/// Appending an entry for a fresh key extends the map and keeps the keys
/// distinct.
pub proof fn lemma_map_of_push<K, V>(s: Seq<(K, V)>, k: K, v: V)
    requires
        distinct_keys(s),
        forall|i: int| 0 <= i < s.len() ==> s[i].0 != k,
    ensures
        map_of(s.push((k, v))) == map_of(s).insert(k, v),
        distinct_keys(s.push((k, v))),
{
    assert(s.push((k, v)).drop_last() =~= s);
}

} // verus!
