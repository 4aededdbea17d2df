//! Association lists: the model behind the key/value stores of the world
//! state. A later entry for a key hides the earlier ones.

use vstd::prelude::*;

verus! {

/// Position of the last entry for `k`, or -1 where there is none.
pub open spec fn last_index_of<K, V>(entries: Seq<(K, V)>, k: K) -> int
    decreases entries.len(),
{
    if entries.len() == 0 {
        -1
    } else if entries.last().0 == k {
        entries.len() - 1
    } else {
        last_index_of(entries.drop_last(), k)
    }
}

/// The map that a list of entries stands for.
pub open spec fn assoc_map<K, V>(entries: Seq<(K, V)>) -> Map<K, V> {
    Map::new(
        |k: K| last_index_of(entries, k) >= 0,
        |k: K| entries[last_index_of(entries, k)].1,
    )
}

/// Whether no key occurs twice.
pub open spec fn distinct_keys<K, V>(entries: Seq<(K, V)>) -> bool {
    forall|i: int, j: int|
        0 <= i < j < entries.len() ==> (#[trigger] entries[i]).0 != (#[trigger] entries[j]).0
}

/// The last entry for a key is an entry for that key, and none follows it.
pub proof fn lemma_last_index_of<K, V>(entries: Seq<(K, V)>, k: K)
    ensures
        -1 <= last_index_of(entries, k) < entries.len(),
        last_index_of(entries, k) >= 0 ==> entries[last_index_of(entries, k)].0 == k,
        forall|j: int|
            last_index_of(entries, k) < j < entries.len() ==> (#[trigger] entries[j]).0 != k,
    decreases entries.len(),
{
    if entries.len() > 0 && entries.last().0 != k {
        lemma_last_index_of(entries.drop_last(), k);
        let idx = last_index_of(entries, k);
        assert forall|j: int| idx < j < entries.len() implies (#[trigger] entries[j]).0 != k by {
            if j < entries.len() - 1 {
                assert(entries.drop_last()[j] == entries[j]);
            }
        }
    }
}

/// An entry for `k` that no entry for `k` follows is the last one.
pub proof fn lemma_last_index_is<K, V>(entries: Seq<(K, V)>, k: K, i: int)
    requires
        -1 <= i < entries.len(),
        i >= 0 ==> entries[i].0 == k,
        forall|j: int| i < j < entries.len() ==> (#[trigger] entries[j]).0 != k,
    ensures
        last_index_of(entries, k) == i,
{
    lemma_last_index_of(entries, k);
}

/// Replacing the value of the last entry for `k` sets the map at `k`.
pub proof fn lemma_update_last<K, V>(entries: Seq<(K, V)>, k: K, v: V)
    requires
        last_index_of(entries, k) >= 0,
    ensures
        assoc_map(entries.update(last_index_of(entries, k), (k, v))) == assoc_map(entries).insert(
            k,
            v,
        ),
        distinct_keys(entries) ==> distinct_keys(
            entries.update(last_index_of(entries, k), (k, v)),
        ),
{
    let i = last_index_of(entries, k);
    let updated = entries.update(i, (k, v));
    lemma_last_index_of(entries, k);
    assert forall|k2: K| last_index_of(updated, k2) == last_index_of(entries, k2) by {
        lemma_last_index_of(entries, k2);
        let j = last_index_of(entries, k2);
        assert forall|m: int| j < m < updated.len() implies (#[trigger] updated[m]).0 != k2 by {
            assert(entries[m].0 != k2);
        }
        lemma_last_index_is(updated, k2, j);
    }
    let target = assoc_map(entries).insert(k, v);
    assert forall|k2: K| assoc_map(updated).contains_key(k2) == target.contains_key(k2) && (
    target.contains_key(k2) ==> assoc_map(updated)[k2] == target[k2]) by {
        lemma_last_index_of(entries, k2);
        let j = last_index_of(entries, k2);
        assert(last_index_of(updated, k2) == j);
        if j >= 0 {
            if k2 == k {
                assert(j == i);
                assert(updated[j].1 == v);
            } else {
                assert(j != i);
                assert(updated[j] == entries[j]);
            }
        }
    }
    assert(assoc_map(updated) =~= target);
    if distinct_keys(entries) {
        assert forall|a: int, b: int| 0 <= a < b < updated.len() implies (#[trigger] updated[a]).0
            != (#[trigger] updated[b]).0 by {
            assert(entries[a].0 != entries[b].0);
        }
    }
}

/// Adding an entry at the end sets the map at its key.
pub proof fn lemma_push_entry<K, V>(entries: Seq<(K, V)>, k: K, v: V)
    ensures
        assoc_map(entries.push((k, v))) == assoc_map(entries).insert(k, v),
        distinct_keys(entries) && last_index_of(entries, k) < 0 ==> distinct_keys(
            entries.push((k, v)),
        ),
{
    let pushed = entries.push((k, v));
    assert(pushed.drop_last() =~= entries);
    assert forall|k2: K| k2 != k implies last_index_of(pushed, k2) == last_index_of(
        entries,
        k2,
    ) by {}
    assert(last_index_of(pushed, k) == entries.len());
    assert(assoc_map(pushed) =~= assoc_map(entries).insert(k, v)) by {
        assert forall|k2: K| #[trigger]
            assoc_map(entries).insert(k, v).contains_key(k2) implies assoc_map(pushed)[k2]
            == assoc_map(entries).insert(k, v)[k2] by {
            lemma_last_index_of(entries, k2);
        }
    }
    if distinct_keys(entries) && last_index_of(entries, k) < 0 {
        lemma_last_index_of(entries, k);
        assert forall|a: int, b: int| 0 <= a < b < pushed.len() implies (#[trigger] pushed[a]).0
            != (#[trigger] pushed[b]).0 by {
            if b < entries.len() {
                assert(entries[a].0 != entries[b].0);
            } else {
                assert(entries[a].0 != k);
            }
        }
    }
}

} // verus!
