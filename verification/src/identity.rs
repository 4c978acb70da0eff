//! Finding an entity again by its stable key: a core by its name, a network
//! interface by its hardware address, a disk by its mount point. Where the
//! system lists its entities in another order than before, each one is still
//! matched with its own state.

use vstd::prelude::*;

verus! {

/// `i` is the first position of `key` among `keys`.
pub open spec fn is_first_position<K>(keys: Seq<K>, key: K, i: int) -> bool {
    &&& 0 <= i < keys.len()
    &&& keys[i] == key
    &&& forall|j: int| 0 <= j < i ==> keys[j] != key
}

/// The first position of `key` among `keys`, if it occurs.
pub open spec fn first_position<K>(keys: Seq<K>, key: K) -> Option<int> {
    if exists|i: int| is_first_position(keys, key, i) {
        Some(choose|i: int| is_first_position(keys, key, i))
    } else {
        None
    }
}

/// Every one of `wanted` occurs among `keys`.
pub open spec fn holds_all<K>(keys: Seq<K>, wanted: Seq<K>) -> bool {
    forall|i: int| 0 <= i < wanted.len() ==> keys.contains(#[trigger] wanted[i])
}

/// A key's first position is the only one that no equal key precedes.
pub proof fn lemma_first_position_found<K>(keys: Seq<K>, key: K, i: int)
    requires
        is_first_position(keys, key, i),
    ensures
        first_position(keys, key) == Some(i),
{
    let chosen = choose|j: int| is_first_position(keys, key, j);
    assert(is_first_position(keys, key, chosen));
    if chosen < i {
        assert(keys[chosen] != key);
    } else if i < chosen {
        assert(keys[i] != key);
    }
}

/// A key that occurs nowhere has no first position.
pub proof fn lemma_first_position_missing<K>(keys: Seq<K>, key: K)
    requires
        !keys.contains(key),
    ensures
        first_position(keys, key) is None,
{
    if exists|i: int| is_first_position(keys, key, i) {
        let i = choose|i: int| is_first_position(keys, key, i);
        assert(keys[i] == key);
    }
}

/// A key has a first position just when it occurs, and that position holds it.
pub proof fn lemma_first_position_holds<K>(keys: Seq<K>, key: K)
    ensures
        first_position(keys, key) is Some <==> keys.contains(key),
        first_position(keys, key) matches Some(i) ==> is_first_position(keys, key, i),
{
    if keys.contains(key) {
        lemma_occurrence_has_first(keys, key, keys.len() as int);
    } else {
        lemma_first_position_missing(keys, key);
    }
}

/// A key that occurs below `limit` has a first position.
proof fn lemma_occurrence_has_first<K>(keys: Seq<K>, key: K, limit: int)
    requires
        0 <= limit <= keys.len(),
        exists|i: int| 0 <= i < limit && keys[i] == key,
    ensures
        exists|i: int| is_first_position(keys, key, i),
    decreases limit,
{
    let at = choose|i: int| 0 <= i < limit && keys[i] == key;
    if exists|j: int| 0 <= j < at && keys[j] == key {
        lemma_occurrence_has_first(keys, key, at);
    } else {
        assert(is_first_position(keys, key, at));
    }
}

} // verus!
