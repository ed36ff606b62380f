//! Orders of addresses, and taking one address out of an order.

use crate::address::Address;
use vstd::prelude::*;

verus! {

/// The test that every address but `address` passes.
pub open spec fn other_than(address: Address) -> spec_fn(Address) -> bool {
    |a: Address| a != address
}

/// `order` without every occurrence of `address`, the rest in the same
/// order.
pub open spec fn without(order: Seq<Address>, address: Address) -> Seq<Address> {
    order.filter(other_than(address))
}

/// What `without` keeps: the addresses of `order` other than `address`.
pub proof fn lemma_without_contains(order: Seq<Address>, address: Address, a: Address)
    ensures
        without(order, address).contains(a) <==> order.contains(a) && a != address,
{
    let keep = other_than(address);
    let kept = order.filter(keep);
    if kept.contains(a) {
        let k = choose|k: int| 0 <= k < kept.len() && kept[k] == a;
        order.lemma_filter_pred(keep, k);
        order.lemma_filter_contains_rev(keep, a);
    }
    if order.contains(a) && a != address {
        let i = choose|i: int| 0 <= i < order.len() && order[i] == a;
        order.lemma_filter_contains(keep, i);
    }
}

/// `without` after one more address at the end.
pub proof fn lemma_without_push(order: Seq<Address>, last: Address, address: Address)
    ensures
        without(order.push(last), address) == if last != address {
            without(order, address).push(last)
        } else {
            without(order, address)
        },
{
    order.lemma_filter_push(last, other_than(address));
}

/// Taking out an address that does not occur changes nothing.
pub proof fn lemma_without_absent(order: Seq<Address>, address: Address)
    requires
        !order.contains(address),
    ensures
        without(order, address) == order,
    decreases order.len(),
{
    if order.len() == 0 {
        reveal(Seq::filter);
    } else {
        let front = order.drop_last();
        assert(order == front.push(order.last()));
        assert forall|k: int| 0 <= k < front.len() implies front[k] != address by {
        }
        lemma_without_absent(front, address);
        lemma_without_push(front, order.last(), address);
    }
}

/// Where no address occurs twice, taking out the address at a position
/// removes that position and nothing else.
pub proof fn lemma_without_at(order: Seq<Address>, i: int)
    requires
        order.no_duplicates(),
        0 <= i < order.len(),
    ensures
        without(order, order[i]) == order.remove(i),
    decreases order.len(),
{
    let address = order[i];
    let front = order.drop_last();
    let n = order.len() - 1;
    assert(order == front.push(order.last()));
    lemma_without_push(front, order.last(), address);
    if i == n {
        assert forall|k: int| 0 <= k < front.len() implies front[k] != address by {
        }
        lemma_without_absent(front, address);
    } else {
        lemma_without_at(front, i);
    }
}

/// Taking an address out of an order in which none occurs twice leaves
/// such an order.
pub proof fn lemma_without_keeps_distinct(order: Seq<Address>, address: Address)
    requires
        order.no_duplicates(),
    ensures
        without(order, address).no_duplicates(),
{
    if order.contains(address) {
        let i = choose|i: int| 0 <= i < order.len() && order[i] == address;
        lemma_without_at(order, i);
    } else {
        lemma_without_absent(order, address);
    }
}

} // verus!
