//! Walking hash maps.
use std::collections::HashMap;
use std::hash::Hash;
use vstd::prelude::*;
use vstd::std_specs::hash::*;
use vstd::std_specs::iter::IteratorSpec;

verus! {

broadcast use vstd::std_specs::hash::group_hash_axioms;

/// `order` names every key of `m` once.
pub open spec fn walks<K, V>(m: Map<K, V>, order: Seq<K>) -> bool {
    &&& order.no_duplicates()
    &&& forall|k: K| #[trigger] m.contains_key(k) <==> order.contains(k)
}

/// The keys of `m`, in the order in which it happens to hold them.
pub(crate) fn keys_of<K: Copy + Eq + Hash, V>(m: &HashMap<K, V>) -> (keys: Vec<K>)
    requires
        obeys_key_model::<K>(),
    ensures
        walks(m@, keys@),
{
    let mut keys: Vec<K> = Vec::new();
    for k in it: m.keys()
        invariant
            obeys_key_model::<K>(),
            it.seq() == spec_keys_iter(m).remaining(),
            keys@.len() == it.index(),
            forall|i: int| 0 <= i < it.index() ==> keys@[i] == *#[trigger] it.seq()[i],
    {
        keys.push(*k);
    }
    proof {
        let seen = spec_keys_iter(m).remaining();
        assert(keys@ == seen.unref());
        assert(keys@.to_set() == m@.dom());
        assert forall|k: K| #[trigger] m@.contains_key(k) <==> keys@.contains(k) by {
            assert(keys@.to_set().contains(k) <==> keys@.contains(k));
        }
        assert forall|i: int, j: int| 0 <= i < j < keys@.len() implies keys@[i] != keys@[j] by {
            assert(seen[i] != seen[j]);
        }
    }
    keys
}

/// `values` are the values of `m`, each as often as it has keys, in some order of the keys.
pub open spec fn lists_values(m: Map<u64, u64>, values: Seq<u64>) -> bool {
    exists|order: Seq<u64>| #[trigger]
        walks(m, order) && values == order.map_values(|k: u64| m[k])
}

/// The values of `m`.
pub(crate) fn values_of(m: &HashMap<u64, u64>) -> (values: Vec<u64>)
    ensures
        lists_values(m@, values@),
{
    let keys: Vec<u64> = keys_of(m);
    let mut values: Vec<u64> = Vec::new();
    for i in 0..keys.len()
        invariant
            walks(m@, keys@),
            values@ == keys@.take(i as int).map_values(|k: u64| m@[k]),
    {
        proof {
            assert(keys@.contains(keys@[i as int]));
            assert(m@.contains_key(keys@[i as int]));
            assert(keys@.take(i as int + 1).map_values(|k: u64| m@[k]) == keys@.take(
                i as int,
            ).map_values(|k: u64| m@[k]).push(m@[keys@[i as int]]));
        }
        if let Some(value) = m.get(&keys[i]) {
            values.push(*value);
        }
    }
    proof {
        assert(keys@.take(keys@.len() as int) == keys@);
        assert(walks(m@, keys@));
    }
    values
}

/// Removes keys from `m`.
pub(crate) fn remove_keys<V>(m: &mut HashMap<u64, V>, keys: &Vec<u64>)
    ensures
        final(m)@ == old(m)@.remove_keys(keys@.to_set()),
{
    let ghost before = m@;
    for i in 0..keys.len()
        invariant
            m@ == before.remove_keys(keys@.take(i as int).to_set()),
    {
        m.remove(&keys[i]);
        proof {
            let so_far = keys@.take(i as int);
            let next = keys@.take(i as int + 1);
            assert(next == so_far.push(keys@[i as int]));
            assert forall|k: u64| next.contains(k) <==> so_far.contains(k) || k == keys@[i as int] by {
                if k == keys@[i as int] {
                    assert(next[i as int] == k);
                }
                if so_far.contains(k) {
                    assert(next[so_far.index_of(k)] == k);
                }
            }
            assert(m@ =~= before.remove_keys(next.to_set()));
        }
    }
    proof {
        assert(keys@.take(keys@.len() as int) == keys@);
    }
}

}
