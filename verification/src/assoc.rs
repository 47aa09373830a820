//! Keyed records kept in a sequence, and the map they stand for.

use vstd::prelude::*;

verus! {

/// No key occurs twice among the entries.
pub open spec fn distinct_keys<K, V>(entries: Seq<(K, V)>) -> bool {
    forall|i: int, j: int| 0 <= i < j < entries.len() ==> entries[i].0 != entries[j].0
}

/// The map that holds each entry's value under its key. Where a key occurs
/// twice the later entry wins.
pub open spec fn to_map<K, V>(entries: Seq<(K, V)>) -> Map<K, V>
    decreases entries.len(),
{
    if entries.len() == 0 {
        Map::empty()
    } else {
        to_map(entries.drop_last()).insert(entries.last().0, entries.last().1)
    }
}

/// `key` is the key of the entry at some position.
pub open spec fn has_key<K, V>(entries: Seq<(K, V)>, key: K) -> bool {
    exists|i: int| 0 <= i < entries.len() && #[trigger] entries[i].0 == key
}

/// The map's keys are exactly the keys of the entries.
pub proof fn lemma_to_map_keys<K, V>(entries: Seq<(K, V)>, key: K)
    ensures
        to_map(entries).contains_key(key) <==> has_key(entries, key),
    decreases entries.len(),
{
    if entries.len() > 0 {
        let init = entries.drop_last();
        lemma_to_map_keys(init, key);
        if has_key(init, key) {
            let i = choose|i: int| 0 <= i < init.len() && #[trigger] init[i].0 == key;
            assert(entries[i].0 == key);
        }
        if entries.last().0 == key {
            assert(entries[entries.len() - 1].0 == key);
        }
        if has_key(entries, key) {
            let i = choose|i: int| 0 <= i < entries.len() && #[trigger] entries[i].0 == key;
            if i < init.len() {
                assert(init[i].0 == key);
            }
        }
    }
}

/// A key that no entry carries is not in the map.
pub proof fn lemma_to_map_absent<K, V>(entries: Seq<(K, V)>, key: K)
    requires
        forall|i: int| 0 <= i < entries.len() ==> (#[trigger] entries[i]).0 != key,
    ensures
        !to_map(entries).contains_key(key),
{
    lemma_to_map_keys(entries, key);
}

/// A key that is not in the map is carried by no entry.
pub proof fn lemma_to_map_keys_absent<K, V>(entries: Seq<(K, V)>, key: K)
    requires
        !to_map(entries).contains_key(key),
    ensures
        forall|i: int| 0 <= i < entries.len() ==> (#[trigger] entries[i]).0 != key,
{
    lemma_to_map_keys(entries, key);
}

/// With distinct keys, the map holds the value of each entry under its key.
pub proof fn lemma_to_map_lookup<K, V>(entries: Seq<(K, V)>, i: int)
    requires
        distinct_keys(entries),
        0 <= i < entries.len(),
    ensures
        to_map(entries).contains_key(entries[i].0),
        to_map(entries)[entries[i].0] == entries[i].1,
    decreases entries.len(),
{
    let init = entries.drop_last();
    if i < entries.len() - 1 {
        assert(distinct_keys(init)) by {
            assert forall|a: int, b: int| 0 <= a < b < init.len() implies init[a].0 != init[b].0 by {
                assert(entries[a].0 != entries[b].0);
            }
        }
        lemma_to_map_lookup(init, i);
        assert(init[i] == entries[i]);
        assert(entries[i].0 != entries[entries.len() - 1].0);
    }
}

/// Adding an entry at the end inserts it into the map.
pub proof fn lemma_to_map_push<K, V>(entries: Seq<(K, V)>, key: K, value: V)
    ensures
        to_map(entries.push((key, value))) == to_map(entries).insert(key, value),
{
    let longer = entries.push((key, value));
    assert(longer.drop_last() =~= entries);
}

/// Adding an entry with a fresh key keeps the keys distinct.
pub proof fn lemma_distinct_push<K, V>(entries: Seq<(K, V)>, key: K, value: V)
    requires
        distinct_keys(entries),
        forall|i: int| 0 <= i < entries.len() ==> (#[trigger] entries[i]).0 != key,
    ensures
        distinct_keys(entries.push((key, value))),
{
    let longer = entries.push((key, value));
    assert forall|a: int, b: int| 0 <= a < b < longer.len() implies longer[a].0 != longer[b].0 by {
        if b < entries.len() {
            assert(entries[a].0 != entries[b].0);
        } else {
            assert(entries[a].0 != key);
        }
    }
}

/// With distinct keys, giving the entry at `i` a new value under its old key
/// replaces that key's value in the map and keeps the keys distinct.
pub proof fn lemma_to_map_update<K, V>(entries: Seq<(K, V)>, i: int, value: V)
    requires
        distinct_keys(entries),
        0 <= i < entries.len(),
    ensures
        to_map(entries.update(i, (entries[i].0, value))) == to_map(entries).insert(
            entries[i].0,
            value,
        ),
        distinct_keys(entries.update(i, (entries[i].0, value))),
    decreases entries.len(),
{
    let key = entries[i].0;
    let changed = entries.update(i, (key, value));
    assert(distinct_keys(changed)) by {
        assert forall|a: int, b: int| 0 <= a < b < changed.len() implies changed[a].0
            != changed[b].0 by {
            assert(entries[a].0 != entries[b].0);
        }
    }
    let init = entries.drop_last();
    if i == entries.len() - 1 {
        assert(changed.drop_last() =~= init);
        assert(to_map(changed) =~= to_map(entries).insert(key, value));
    } else {
        assert(distinct_keys(init)) by {
            assert forall|a: int, b: int| 0 <= a < b < init.len() implies init[a].0 != init[b].0 by {
                assert(entries[a].0 != entries[b].0);
            }
        }
        lemma_to_map_update(init, i, value);
        assert(init[i] == entries[i]);
        assert(changed.drop_last() =~= init.update(i, (key, value)));
        assert(changed.last() == entries.last());
        assert(entries[i].0 != entries[entries.len() - 1].0);
        assert(to_map(changed) =~= to_map(entries).insert(key, value));
    }
}

} // verus!
