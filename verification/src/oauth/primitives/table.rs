//! Lists of records that are found by a key, seen as maps from the key to the record.

use vstd::prelude::*;

verus! {

/// The map that takes each key of `keys` to the value at the same place in `values`.
pub open spec fn table<K, V>(keys: Seq<K>, values: Seq<V>) -> Map<K, V> {
    Map::new(|key: K| keys.contains(key), |key: K| values[keys.index_of(key)])
}

/// The lists have the same length and no key occurs twice.
pub open spec fn is_table<K, V>(keys: Seq<K>, values: Seq<V>) -> bool {
    keys.len() == values.len() && keys.no_duplicates()
}

/// The key at place `at` leads to the value at place `at`.
pub proof fn lemma_table_at<K, V>(keys: Seq<K>, values: Seq<V>, at: int)
    requires
        is_table(keys, values),
        0 <= at < keys.len(),
    ensures
        table(keys, values).contains_key(keys[at]),
        table(keys, values)[keys[at]] == values[at],
        keys.index_of(keys[at]) == at,
{
    assert(keys.contains(keys[at]));
    let found = keys.index_of(keys[at]);
    assert(0 <= found < keys.len() && keys[found] == keys[at]);
}

/// A key that the map has stands at some place of the list.
pub proof fn lemma_table_place<K, V>(keys: Seq<K>, values: Seq<V>, key: K) -> (at: int)
    requires
        is_table(keys, values),
        table(keys, values).contains_key(key),
    ensures
        0 <= at < keys.len(),
        keys[at] == key,
        table(keys, values)[key] == values[at],
{
    let at = keys.index_of(key);
    assert(keys.contains(key));
    at
}

/// Appending a new key with its value adds one entry to the map.
pub proof fn lemma_table_push<K, V>(keys: Seq<K>, values: Seq<V>, key: K, value: V)
    requires
        is_table(keys, values),
        !keys.contains(key),
    ensures
        is_table(keys.push(key), values.push(value)),
        table(keys.push(key), values.push(value)) == table(keys, values).insert(key, value),
{
    let longer = keys.push(key);
    let filled = values.push(value);
    assert(longer.no_duplicates()) by {
        assert forall|i: int, j: int| 0 <= i < longer.len() && 0 <= j < longer.len() && i != j implies longer[i]
            != longer[j] by {
            if i < keys.len() {
                assert(keys.contains(keys[i]));
            }
            if j < keys.len() {
                assert(keys.contains(keys[j]));
            }
        }
    }
    assert forall|k: K| table(longer, filled).contains_key(k) <==> table(keys, values).insert(
        key,
        value,
    ).contains_key(k) by {
        if keys.contains(k) {
            let i = keys.index_of(k);
            assert(longer[i] == k);
        }
        if longer.contains(k) && k != key {
            let i = longer.index_of(k);
            assert(keys[i] == k);
        }
        if k == key {
            assert(longer[keys.len() as int] == key);
        }
    }
    assert forall|k: K| table(longer, filled).contains_key(k) implies table(longer, filled)[k] == table(
        keys,
        values,
    ).insert(key, value)[k] by {
        let i = lemma_table_place(longer, filled, k);
        if i < keys.len() {
            lemma_table_at(keys, values, i);
            assert(keys.contains(k));
        }
    }
    assert(table(longer, filled) =~= table(keys, values).insert(key, value));
}

/// Replacing the value at place `at` changes the entry of the key at that place.
pub proof fn lemma_table_update<K, V>(keys: Seq<K>, values: Seq<V>, at: int, value: V)
    requires
        is_table(keys, values),
        0 <= at < keys.len(),
    ensures
        is_table(keys, values.update(at, value)),
        table(keys, values.update(at, value)) == table(keys, values).insert(keys[at], value),
{
    let changed = values.update(at, value);
    assert forall|k: K| table(keys, changed).contains_key(k) implies table(keys, changed)[k] == table(
        keys,
        values,
    ).insert(keys[at], value)[k] by {
        let i = lemma_table_place(keys, changed, k);
        lemma_table_at(keys, values, i);
    }
    assert(keys.contains(keys[at]));
    assert(table(keys, changed) =~= table(keys, values).insert(keys[at], value));
}

/// The map has as many entries as the list has keys.
pub proof fn lemma_table_len<K, V>(keys: Seq<K>, values: Seq<V>)
    requires
        is_table(keys, values),
    ensures
        table(keys, values).dom().finite(),
        table(keys, values).dom().len() == keys.len(),
{
    keys.unique_seq_to_set();
    assert(table(keys, values).dom() =~= keys.to_set());
}

} // verus!
