//! Lists that serve as tables: a record is found at the first place that
//! holds its key.

use vstd::prelude::*;

verus! {

/// `i` is the first place of `keys` that holds `key`.
pub open spec fn is_first<K>(keys: Seq<K>, key: K, i: int) -> bool {
    &&& 0 <= i < keys.len()
    &&& keys[i] == key
    &&& forall|j: int| 0 <= j < i ==> keys[j] != key
}

/// The first place of `keys` that holds `key`, if any does.
pub open spec fn find<K>(keys: Seq<K>, key: K) -> Option<int> {
    if exists|i: int| is_first(keys, key, i) {
        Some(choose|i: int| is_first(keys, key, i))
    } else {
        None
    }
}

/// The first place that holds a key is the place that is found.
pub proof fn lemma_find<K>(keys: Seq<K>, key: K, i: int)
    requires
        is_first(keys, key, i),
    ensures
        find(keys, key) == Some(i),
{
    let c = choose|c: int| is_first(keys, key, c);
    if c < i {
        assert(keys[c] != key);
    } else if i < c {
        assert(keys[i] != key);
    }
}

/// A key that no place holds is not found.
pub proof fn lemma_find_none<K>(keys: Seq<K>, key: K)
    requires
        forall|j: int| 0 <= j < keys.len() ==> keys[j] != key,
    ensures
        find(keys, key).is_none(),
{
}

/// What is found is a first place.
pub proof fn lemma_found<K>(keys: Seq<K>, key: K)
    ensures
        match find(keys, key) {
            Some(i) => is_first(keys, key, i),
            None => forall|j: int| 0 <= j < keys.len() ==> keys[j] != key,
        },
{
    if !exists|i: int| is_first(keys, key, i) {
        assert forall|j: int| 0 <= j < keys.len() implies keys[j] != key by {
            if keys[j] == key {
                lemma_least(keys, key, j);
            }
        }
    }
}

/// Where a place holds a key, a first place does.
proof fn lemma_least<K>(keys: Seq<K>, key: K, j: int)
    requires
        0 <= j < keys.len(),
        keys[j] == key,
    ensures
        exists|i: int| is_first(keys, key, i),
    decreases j,
{
    if exists|k: int| 0 <= k < j && keys[k] == key {
        let k = choose|k: int| 0 <= k < j && keys[k] == key;
        lemma_least(keys, key, k);
    } else {
        assert(is_first(keys, key, j));
    }
}

} // verus!
