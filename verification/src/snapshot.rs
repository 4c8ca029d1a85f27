//! Snapshots of a keyed collection: its entries listed once each, in no
//! particular order, and what counting over such a list says of the
//! collection.

use dashmap::DashMap;
use vstd::prelude::*;

verus! {

/// `dashmap::DashMap`, held as an opaque collection. What a map holds is
/// named where the map is used, and every access goes through a function
/// that says what `DashMap` does to it.
#[verifier::external_type_specification]
#[verifier::external_body]
#[verifier::reject_recursive_types(K)]
#[verifier::reject_recursive_types(V)]
#[verifier::reject_recursive_types(S)]
pub struct ExDashMap<K, V, S>(DashMap<K, V, S>);

pub open spec fn entry_keys<V>(entries: Seq<(String, V)>) -> Seq<Seq<char>> {
    Seq::new(entries.len(), |i: int| entries[i].0@)
}

pub open spec fn entry_values<V>(entries: Seq<(String, V)>) -> Seq<V> {
    Seq::new(entries.len(), |i: int| entries[i].1)
}

/// `keys` and `values` list the entries of `map`, each once.
pub open spec fn enumerates<V>(keys: Seq<Seq<char>>, values: Seq<V>, map: Map<Seq<char>, V>) -> bool {
    &&& keys.len() == values.len()
    &&& forall|i: int, j: int| 0 <= i < j < keys.len() ==> keys[i] != keys[j]
    &&& forall|i: int|
        0 <= i < keys.len() ==> map.contains_key(#[trigger] keys[i]) && map[keys[i]] == values[i]
    &&& forall|k: Seq<char>| #[trigger] map.contains_key(k) ==> exists|i: int| 0 <= i < keys.len() && keys[i] == k
}

/// `entries` lists the entries of `map`, each once.
pub open spec fn lists<V>(entries: Seq<(String, V)>, map: Map<Seq<char>, V>) -> bool {
    enumerates(entry_keys(entries), entry_values(entries), map)
}

/// How many of the first `upto` entries satisfy `wanted`.
pub open spec fn count_among<V>(
    keys: Seq<Seq<char>>,
    values: Seq<V>,
    wanted: spec_fn(Seq<char>, V) -> bool,
    upto: int,
) -> nat
    decreases upto,
{
    if upto <= 0 {
        0
    } else {
        count_among(keys, values, wanted, upto - 1) + if wanted(keys[upto - 1], values[upto - 1]) {
            1nat
        } else {
            0nat
        }
    }
}

/// The keys of `map` whose entries satisfy `wanted`.
pub open spec fn keys_where<V>(map: Map<Seq<char>, V>, wanted: spec_fn(Seq<char>, V) -> bool) -> Set<
    Seq<char>,
> {
    Set::new(|k: Seq<char>| map.contains_key(k) && wanted(k, map[k]))
}

spec fn prefix_keys_where<V>(
    keys: Seq<Seq<char>>,
    values: Seq<V>,
    wanted: spec_fn(Seq<char>, V) -> bool,
    upto: int,
) -> Set<Seq<char>> {
    Set::new(
        |k: Seq<char>| exists|i: int| 0 <= i < upto && keys[i] == k && wanted(keys[i], values[i]),
    )
}

proof fn lemma_prefix_count<V>(
    keys: Seq<Seq<char>>,
    values: Seq<V>,
    wanted: spec_fn(Seq<char>, V) -> bool,
    upto: int,
)
    requires
        keys.len() == values.len(),
        forall|i: int, j: int| 0 <= i < j < keys.len() ==> keys[i] != keys[j],
        0 <= upto <= keys.len(),
    ensures
        prefix_keys_where(keys, values, wanted, upto).finite(),
        prefix_keys_where(keys, values, wanted, upto).len() == count_among(
            keys,
            values,
            wanted,
            upto,
        ),
    decreases upto,
{
    let here = prefix_keys_where(keys, values, wanted, upto);
    if upto == 0 {
        assert(here =~= Set::empty());
    } else {
        lemma_prefix_count(keys, values, wanted, upto - 1);
        let before = prefix_keys_where(keys, values, wanted, upto - 1);
        let k = keys[upto - 1];
        if wanted(k, values[upto - 1]) {
            assert(!before.contains(k));
            assert(here =~= before.insert(k)) by {
                assert forall|x: Seq<char>| here.contains(x) implies before.insert(k).contains(
                    x,
                ) by {
                    let i = choose|i: int|
                        0 <= i < upto && keys[i] == x && wanted(keys[i], values[i]);
                    if i < upto - 1 {
                        assert(before.contains(x));
                    }
                }
                assert forall|x: Seq<char>| before.insert(k).contains(x) implies here.contains(
                    x,
                ) by {
                    if x == k {
                        assert(0 <= upto - 1 < upto && keys[upto - 1] == x);
                    } else {
                        let i = choose|i: int|
                            0 <= i < upto - 1 && keys[i] == x && wanted(keys[i], values[i]);
                        assert(0 <= i < upto && keys[i] == x);
                    }
                }
            }
        } else {
            assert(here =~= before) by {
                assert forall|x: Seq<char>| here.contains(x) implies before.contains(x) by {
                    let i = choose|i: int|
                        0 <= i < upto && keys[i] == x && wanted(keys[i], values[i]);
                    assert(i < upto - 1);
                }
                assert forall|x: Seq<char>| before.contains(x) implies here.contains(x) by {
                    let i = choose|i: int|
                        0 <= i < upto - 1 && keys[i] == x && wanted(keys[i], values[i]);
                    assert(0 <= i < upto && keys[i] == x);
                }
            }
        }
    }
}

/// Counting over a snapshot counts the collection: the entries that satisfy
/// `wanted` are as many in the list as keys in the map.
pub proof fn lemma_count_of_snapshot<V>(
    keys: Seq<Seq<char>>,
    values: Seq<V>,
    map: Map<Seq<char>, V>,
    wanted: spec_fn(Seq<char>, V) -> bool,
)
    requires
        enumerates(keys, values, map),
    ensures
        keys_where(map, wanted).finite(),
        keys_where(map, wanted).len() == count_among(keys, values, wanted, keys.len() as int),
{
    lemma_prefix_count(keys, values, wanted, keys.len() as int);
    let listed = prefix_keys_where(keys, values, wanted, keys.len() as int);
    assert(listed =~= keys_where(map, wanted)) by {
        assert forall|x: Seq<char>| listed.contains(x) implies keys_where(map, wanted).contains(
            x,
        ) by {
            let i = choose|i: int|
                0 <= i < keys.len() && keys[i] == x && wanted(keys[i], values[i]);
            assert(map.contains_key(keys[i]));
        }
        assert forall|x: Seq<char>| keys_where(map, wanted).contains(x) implies listed.contains(
            x,
        ) by {
            let i = choose|i: int| 0 <= i < keys.len() && keys[i] == x;
            assert(map.contains_key(keys[i]) && map[keys[i]] == values[i]);
        }
    }
}

/// A collection that a snapshot lists is finite and has as many entries as
/// the snapshot.
pub proof fn lemma_size_of_snapshot<V>(keys: Seq<Seq<char>>, values: Seq<V>, map: Map<Seq<char>, V>)
    requires
        enumerates(keys, values, map),
    ensures
        map.dom().finite(),
        map.dom().len() == keys.len(),
{
    let all = |k: Seq<char>, v: V| true;
    lemma_count_of_snapshot(keys, values, map, all);
    assert(keys_where(map, all) =~= map.dom());
    lemma_count_all(keys, values, keys.len() as int);
}

proof fn lemma_count_all<V>(keys: Seq<Seq<char>>, values: Seq<V>, upto: int)
    requires
        0 <= upto,
    ensures
        count_among(keys, values, |k: Seq<char>, v: V| true, upto) == upto,
    decreases upto,
{
    if upto > 0 {
        lemma_count_all(keys, values, upto - 1);
    }
}

} // verus!
