//! Sums over the entries of a registry map.

use vstd::prelude::*;

verus! {

/// The function that adds `f` of an identifier to a running sum.
pub open spec fn adder(f: spec_fn(u128) -> nat) -> spec_fn(nat, u128) -> nat {
    |sum: nat, id: u128| sum + f(id)
}

/// The sum of `f` over the identifiers in `ids`.
pub open spec fn total_of(ids: Set<u128>, f: spec_fn(u128) -> nat) -> nat {
    ids.fold(0nat, adder(f))
}

/// The identifiers that stand before position `i` in `keys`.
pub open spec fn seen(keys: Seq<u128>, i: int) -> Set<u128> {
    keys.subrange(0, i).to_set()
}

/// Over no identifiers the sum is zero.
pub proof fn lemma_total_empty(f: spec_fn(u128) -> nat)
    ensures
        total_of(Set::empty(), f) == 0,
        total_of(seen(Seq::empty(), 0), f) == 0,
{
    vstd::set::fold::lemma_fold_empty(0nat, adder(f));
    assert(Seq::<u128>::empty().subrange(0, 0).to_set() =~= Set::<u128>::empty());
}

/// One more identifier adds its share to the sum.
pub proof fn lemma_total_insert(ids: Set<u128>, f: spec_fn(u128) -> nat, id: u128)
    requires
        ids.finite(),
        !ids.contains(id),
    ensures
        total_of(ids.insert(id), f) == total_of(ids, f) + f(id),
{
    assert(vstd::set::fold::is_fun_commutative(adder(f))) by {
        assert forall|a1: u128, a2: u128, b: nat| #[trigger]
            adder(f)(adder(f)(b, a2), a1) == adder(f)(adder(f)(b, a1), a2) by {}
    }
    vstd::set::fold::lemma_fold_insert(ids, 0nat, adder(f), id);
}

/// Walking `keys`, which names no identifier twice, takes the sum from one
/// position to the next by the share of the identifier that stands there.
pub proof fn lemma_total_step(keys: Seq<u128>, f: spec_fn(u128) -> nat, i: int)
    requires
        keys.no_duplicates(),
        0 <= i < keys.len(),
    ensures
        total_of(seen(keys, i + 1), f) == total_of(seen(keys, i), f) + f(keys[i]),
{
    broadcast use vstd::seq_lib::group_seq_properties;

    let before = keys.subrange(0, i);
    assert(keys.subrange(0, i + 1) =~= before.push(keys[i]));
    assert(before.push(keys[i]).to_set() =~= before.to_set().insert(keys[i]));
    assert(!before.to_set().contains(keys[i])) by {
        if before.contains(keys[i]) {
            let j = choose|j: int| 0 <= j < before.len() && before[j] == keys[i];
            assert(keys[j] == keys[i]);
        }
    }
    vstd::seq_lib::seq_to_set_is_finite(before);
    lemma_total_insert(before.to_set(), f, keys[i]);
}

/// At the end of the walk every identifier has been seen.
pub proof fn lemma_seen_all(keys: Seq<u128>)
    ensures
        seen(keys, keys.len() as int) == keys.to_set(),
        seen(keys, 0) == Set::<u128>::empty(),
{
    assert(keys.subrange(0, keys.len() as int) =~= keys);
    assert(keys.subrange(0, 0).to_set() =~= Set::<u128>::empty());
}

} // verus!
