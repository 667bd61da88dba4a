//! Sequences of keyed entries, read as finite maps.

use vstd::prelude::*;

verus! {

/// No two entries have the same key.
pub open spec fn distinct_keys<K, V>(entries: Seq<(K, V)>) -> bool {
    forall|i: int, j: int|
        0 <= i < j < entries.len() ==> (#[trigger] entries[i]).0 != (#[trigger] entries[j]).0
}

/// Some entry has the key `k`.
pub open spec fn has_key<K, V>(entries: Seq<(K, V)>, k: K) -> bool {
    exists|i: int| 0 <= i < entries.len() && (#[trigger] entries[i]).0 == k
}

/// Where an entry with the key `k` stands.
pub open spec fn position<K, V>(entries: Seq<(K, V)>, k: K) -> int {
    choose|i: int| 0 <= i < entries.len() && (#[trigger] entries[i]).0 == k
}

/// The map that the entries stand for.
pub open spec fn as_map<K, V>(entries: Seq<(K, V)>) -> Map<K, V> {
    Map::new(|k: K| has_key(entries, k), |k: K| entries[position(entries, k)].1)
}

pub proof fn lemma_entry<K, V>(entries: Seq<(K, V)>, i: int)
    requires
        distinct_keys(entries),
        0 <= i < entries.len(),
    ensures
        as_map(entries).contains_key(entries[i].0),
        as_map(entries)[entries[i].0] == entries[i].1,
        position(entries, entries[i].0) == i,
{
    assert(has_key(entries, entries[i].0));
    assert(position(entries, entries[i].0) == i);
}

/// A new entry may go in anywhere.
pub proof fn lemma_insert<K, V>(entries: Seq<(K, V)>, i: int, k: K, v: V)
    requires
        distinct_keys(entries),
        !has_key(entries, k),
        0 <= i <= entries.len(),
    ensures
        distinct_keys(entries.insert(i, (k, v))),
        as_map(entries.insert(i, (k, v))) == as_map(entries).insert(k, v),
{
    let grown = entries.insert(i, (k, v));
    assert(distinct_keys(grown)) by {
        assert forall|a: int, b: int| 0 <= a < b < grown.len() implies (#[trigger] grown[a]).0 != (
        #[trigger] grown[b]).0 by {
            let x = if a < i { a } else { a - 1 };
            let y = if b < i { b } else { b - 1 };
            if a != i {
                assert(grown[a] == entries[x]);
            }
            if b != i {
                assert(grown[b] == entries[y]);
            }
        }
    }
    assert(grown[i] == (k, v));
    lemma_entry(grown, i);
    assert forall|key: K| #[trigger]
        as_map(grown).contains_key(key) == as_map(entries).insert(k, v).contains_key(key) by {
        if has_key(grown, key) && key != k {
            let at = position(grown, key);
            assert(grown[at] == entries[if at < i { at } else { at - 1 }]);
        }
        if has_key(entries, key) {
            let at = position(entries, key);
            assert(grown[if at < i { at } else { at + 1 }] == entries[at]);
        }
    }
    assert forall|key: K| #[trigger] as_map(entries).contains_key(key) implies as_map(grown)[key]
        == as_map(entries)[key] by {
        let at = position(entries, key);
        let new_at = if at < i { at } else { at + 1 };
        assert(grown[new_at] == entries[at]);
        lemma_entry(grown, new_at);
    }
    assert(as_map(grown) =~= as_map(entries).insert(k, v));
}

/// The value of an entry may be replaced in place.
pub proof fn lemma_update<K, V>(entries: Seq<(K, V)>, i: int, v: V)
    requires
        distinct_keys(entries),
        0 <= i < entries.len(),
    ensures
        distinct_keys(entries.update(i, (entries[i].0, v))),
        as_map(entries.update(i, (entries[i].0, v))) == as_map(entries).insert(entries[i].0, v),
{
    let k = entries[i].0;
    let updated = entries.update(i, (k, v));
    assert(forall|a: int| 0 <= a < entries.len() ==> (#[trigger] updated[a]).0 == entries[a].0);
    lemma_entry(updated, i);
    assert forall|key: K| #[trigger]
        as_map(updated).contains_key(key) == as_map(entries).insert(k, v).contains_key(key) by {
        if has_key(updated, key) {
            let at = position(updated, key);
            assert(entries[at].0 == key);
        }
        if has_key(entries, key) {
            let at = position(entries, key);
            assert(updated[at].0 == key);
        }
    }
    assert forall|key: K| #[trigger] as_map(entries).contains_key(key) && key != k implies as_map(
        updated,
    )[key] == as_map(entries)[key] by {
        let at = position(entries, key);
        assert(updated[at] == entries[at]);
        lemma_entry(updated, at);
    }
    assert(as_map(updated) =~= as_map(entries).insert(k, v));
}

/// Any entry may go.
pub proof fn lemma_remove<K, V>(entries: Seq<(K, V)>, i: int)
    requires
        distinct_keys(entries),
        0 <= i < entries.len(),
    ensures
        distinct_keys(entries.remove(i)),
        as_map(entries.remove(i)) == as_map(entries).remove(entries[i].0),
{
    let k = entries[i].0;
    let rest = entries.remove(i);
    assert(forall|a: int|
        0 <= a < rest.len() ==> #[trigger] rest[a] == entries[if a < i { a } else { a + 1 }]);
    assert(distinct_keys(rest));
    assert forall|key: K| #[trigger]
        as_map(rest).contains_key(key) == as_map(entries).remove(k).contains_key(key) by {
        if has_key(rest, key) {
            let at = position(rest, key);
            assert(rest[at] == entries[if at < i { at } else { at + 1 }]);
        }
        if has_key(entries, key) && key != k {
            let at = position(entries, key);
            assert(rest[if at < i { at } else { at - 1 }] == entries[at]);
        }
    }
    assert forall|key: K| #[trigger] as_map(rest).contains_key(key) implies as_map(rest)[key]
        == as_map(entries)[key] by {
        let at = position(rest, key);
        let old_at = if at < i { at } else { at + 1 };
        assert(rest[at] == entries[old_at]);
        lemma_entry(entries, old_at);
    }
    assert(as_map(rest) =~= as_map(entries).remove(k));
}

/// The map has one key for each entry.
pub proof fn lemma_size<K, V>(entries: Seq<(K, V)>)
    requires
        distinct_keys(entries),
    ensures
        as_map(entries).dom().finite(),
        as_map(entries).len() == entries.len(),
{
    let keys = entries.map_values(|e: (K, V)| e.0);
    assert(keys.no_duplicates());
    keys.unique_seq_to_set();
    assert forall|key: K| as_map(entries).contains_key(key) == #[trigger] keys.to_set().contains(
        key,
    ) by {
        if has_key(entries, key) {
            assert(keys[position(entries, key)] == key);
        }
        if keys.contains(key) {
            let at = choose|at: int| 0 <= at < keys.len() && keys[at] == key;
            assert(entries[at].0 == key);
        }
    }
    assert(as_map(entries).dom() =~= keys.to_set());
}

} // verus!
