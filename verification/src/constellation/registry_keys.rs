//! Walking the identifiers of a registry map.

use vstd::prelude::*;
use vstd::std_specs::iter::IteratorSpec;
use std::collections::HashMap;

verus! {

/// The identifiers under which `map` holds an entry, each once, in the order
/// in which the map hands them out.
pub fn keys_of<V>(map: &HashMap<u128, V>) -> (keys: Vec<u128>)
    ensures
        keys@.no_duplicates(),
        keys@.to_set() == map@.dom(),
        keys@.len() == map@.dom().len(),
{
    broadcast use vstd::std_specs::hash::group_hash_axioms;

    let mut keys: Vec<u128> = Vec::new();
    let ghost all = map.keys().remaining().unref();
    for k in it: map.keys()
        invariant
            keys@.len() == it.index(),
            forall|j: int| 0 <= j < keys@.len() ==> keys@[j] == *it.seq()[j],
            it.seq().unref() == all,
            all.to_set() == map@.dom(),
            all.no_duplicates(),
            all.len() == map@.dom().len(),
    {
        keys.push(*k);
    }
    proof {
        assert(keys@ =~= all);
    }
    keys
}


/// How far `id` lies after `start`, counting up, and from the largest
/// identifier on to zero.
pub open spec fn steps_from(start: u128, id: u128) -> int {
    if id >= start {
        id - start
    } else {
        id + 0x1_0000_0000_0000_0000_0000_0000_0000_0000 - start
    }
}

/// The identifiers that lie fewer than `count` steps after `start`.
pub open spec fn run_of(start: u128, count: int) -> Set<u128> {
    Set::new(|id: u128| steps_from(start, id) < count)
}

/// Whether `id` is the first identifier, counting up from `drawn`, under
/// which `used` holds nothing.
pub open spec fn is_first_free(used: Set<u128>, drawn: u128, id: u128) -> bool {
    &&& !used.contains(id)
    &&& forall|other: u128| steps_from(drawn, other) < steps_from(drawn, id) ==> used.contains(other)
}

proof fn lemma_run_len(start: u128, count: nat)
    requires
        count <= 0x1_0000_0000_0000_0000_0000_0000_0000_0000,
    ensures
        run_of(start, count as int).finite(),
        run_of(start, count as int).len() == count,
    decreases count,
{
    broadcast use vstd::set::group_set_axioms;

    if count == 0 {
        assert(run_of(start, 0) =~= Set::<u128>::empty());
    } else {
        let k = (count - 1) as nat;
        lemma_run_len(start, k);
        let point: u128 = if start + k < 0x1_0000_0000_0000_0000_0000_0000_0000_0000 {
            (start + k) as u128
        } else {
            (start + k - 0x1_0000_0000_0000_0000_0000_0000_0000_0000) as u128
        };
        assert(steps_from(start, point) == k);
        assert(run_of(start, count as int) =~= run_of(start, k as int).insert(point));
        assert(!run_of(start, k as int).contains(point));
    }
}

/// An identifier that is not in use: `drawn` itself where `map` holds
/// nothing under it, and otherwise the first one after it, counting up, that
/// is free. There always is one, for a map holds fewer entries than there
/// are identifiers.
pub fn free_id<V>(map: &HashMap<u128, V>, drawn: u128) -> (id: u128)
    ensures
        !map@.contains_key(id),
        is_first_free(map@.dom(), drawn, id),
        !map@.contains_key(drawn) ==> id == drawn,
{
    broadcast use vstd::std_specs::hash::group_hash_axioms;

    let n = map.len();
    let mut id = drawn;
    let mut tried: usize = 0;
    loop
        invariant
            tried <= n,
            n == map@.dom().len(),
            map@.dom().finite(),
            steps_from(drawn, id) == tried,
            forall|other: u128| steps_from(drawn, other) < tried ==> map@.contains_key(other),
        decreases n - tried,
    {
        if !map.contains_key(&id) {
            return id;
        }
        proof {
            lemma_run_len(drawn, (tried + 1) as nat);
            assert(run_of(drawn, tried + 1).subset_of(map@.dom())) by {
                assert forall|other: u128| run_of(drawn, tried + 1).contains(other) implies map@.dom().contains(
                    other,
                ) by {
                    if steps_from(drawn, other) == tried {
                        assert(other == id);
                    }
                }
            }
            vstd::set_lib::lemma_len_subset(run_of(drawn, tried + 1), map@.dom());
        }
        tried += 1;
        id = if id == u128::MAX {
            0
        } else {
            id + 1
        };
    }
}

} // verus!
