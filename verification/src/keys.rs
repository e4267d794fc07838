//! The keys of hash maps, as lists.

use crate::uuid::Uuid;
use std::collections::HashMap;
use vstd::prelude::*;

verus! {

/// Whether a list names each element of a set once, and nothing else.
pub open spec fn enumerates(ids: Seq<Uuid>, set: Set<Uuid>) -> bool {
    &&& ids.no_duplicates()
    &&& ids.to_set() == set
}

/// Lists the keys of a hash map, in the order in which the map is walked.
pub fn keys_of<V>(map: &HashMap<Uuid, V>) -> (ids: Vec<Uuid>)
    ensures
        enumerates(ids@, map@.dom()),
        ids@.len() == map@.len(),
{
    let mut ids: Vec<Uuid> = Vec::new();
    for id in it: map.keys()
        invariant
            ids@ =~= it.seq().unref().take(it.index() as int),
            it.seq() == vstd::std_specs::iter::IteratorSpec::remaining(
                &vstd::std_specs::hash::spec_keys_iter(map),
            ),
    {
        ids.push(*id);
    }
    proof {
        let walked = vstd::std_specs::iter::IteratorSpec::remaining(
            &vstd::std_specs::hash::spec_keys_iter(map),
        );
        assert(ids@ =~= walked.unref());
    }
    ids
}

/// A walk along a list visits one more element of it with each step.
pub proof fn lemma_step(ids: Seq<Uuid>, i: int)
    requires
        0 <= i < ids.len(),
    ensures
        ids.to_set().contains(ids[i]),
        ids.take(i + 1).to_set() == ids.take(i).to_set().insert(ids[i]),
{
    assert(ids.take(i + 1) =~= ids.take(i).push(ids[i]));
    ids.take(i).lemma_push_to_set_commute(ids[i]);
}

/// Whether a key stands at `i` in a list for the last time.
pub open spec fn is_last<K>(keys: Seq<K>, key: K, i: int) -> bool {
    &&& 0 <= i < keys.len()
    &&& keys[i] == key
    &&& forall|j: int| i < j < keys.len() ==> keys[j] != key
}

/// A list with one more key holds the keys that it held, and that one.
pub proof fn lemma_contains_pushed<K>(keys: Seq<K>, last: K, key: K)
    ensures
        keys.push(last).contains(key) <==> keys.contains(key) || key == last,
{
    let pushed = keys.push(last);
    if keys.contains(key) {
        let i = choose|i: int| 0 <= i < keys.len() && keys[i] == key;
        assert(pushed[i] == key);
    }
    assert(pushed[keys.len() as int] == last);
}

/// A key that stands in a list for the last time, but not at its end, does so without the end, too.
pub proof fn lemma_last_of_pushed<K>(keys: Seq<K>, last: K, key: K, i: int)
    requires
        is_last(keys.push(last), key, i),
        i < keys.len(),
    ensures
        is_last(keys, key, i),
        key != last,
{
    let pushed = keys.push(last);
    assert(pushed[keys.len() as int] == last);
    assert forall|j: int| i < j < keys.len() implies keys[j] != key by {
        assert(pushed[j] == keys[j]);
    }
}

/// A list that holds a key holds it somewhere for the last time.
pub proof fn lemma_has_last<K>(keys: Seq<K>, key: K)
    requires
        keys.contains(key),
    ensures
        exists|i: int| is_last(keys, key, i),
    decreases keys.len(),
{
    let rest = keys.drop_last();
    if keys.last() == key {
        assert(is_last(keys, key, keys.len() - 1));
    } else {
        let i = choose|i: int| 0 <= i < keys.len() && keys[i] == key;
        assert(rest[i] == key);
        lemma_has_last(rest, key);
        let last = choose|i: int| is_last(rest, key, i);
        assert forall|j: int| last < j < keys.len() implies keys[j] != key by {
            if j < rest.len() {
                assert(rest[j] == keys[j]);
            }
        }
        assert(is_last(keys, key, last));
    }
}

} // verus!
