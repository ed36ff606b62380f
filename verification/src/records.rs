//! Client records, and sequences of them read as a mapping.

use crate::address::Address;
use crate::order::{lemma_without_at, without};
use vstd::prelude::*;

verus! {

/// What the relay keeps about one connected client.
#[derive(Debug, PartialEq, Eq)]
pub struct ClientRecord<H> {
    /// The client's endpoint; the key under which the record is kept.
    pub address: Address,
    /// The handle through which bytes are written to the client.
    pub endpoint: H,
    /// When the client last had a message accepted, in milliseconds
    /// relative to the Unix epoch. Wider than a clock reading, so that a
    /// time some windows before any reading can be held.
    pub last_message_time: i128,
}

/// Whether some record of `records` is kept under `address`.
pub open spec fn has_address<H>(records: Seq<ClientRecord<H>>, address: Address) -> bool {
    exists|i: int| 0 <= i < records.len() && (#[trigger] records[i]).address == address
}

/// The position of a record of `records` kept under `address`.
pub open spec fn position_of<H>(records: Seq<ClientRecord<H>>, address: Address) -> int {
    choose|i: int| 0 <= i < records.len() && (#[trigger] records[i]).address == address
}

/// Whether no two records of `records` are kept under the same address.
pub open spec fn distinct_addresses<H>(records: Seq<ClientRecord<H>>) -> bool {
    forall|i: int, j: int|
        0 <= i < j < records.len() ==> (#[trigger] records[i]).address != (
        #[trigger] records[j]).address
}

/// The mapping from address to record that `records` spells.
pub open spec fn as_map<H>(records: Seq<ClientRecord<H>>) -> Map<Address, ClientRecord<H>> {
    Map::new(
        |a: Address| has_address(records, a),
        |a: Address| records[position_of(records, a)],
    )
}

/// The addresses of `records`, in the same order.
pub open spec fn addresses_of<H>(records: Seq<ClientRecord<H>>) -> Seq<Address> {
    Seq::new(records.len(), |i: int| records[i].address)
}

/// Whether `order` and `registry` speak of the same clients: `order` lists
/// the keys of `registry`, each once, and every record is kept under its own
/// address.
pub open spec fn consistent<H>(
    order: Seq<Address>,
    registry: Map<Address, ClientRecord<H>>,
) -> bool {
    &&& order.no_duplicates()
    &&& forall|a: Address| #[trigger] order.contains(a) <==> registry.dom().contains(a)
    &&& forall|a: Address| registry.dom().contains(a) ==> (#[trigger] registry[a]).address == a
}

/// The record of `records` that stands where `k` stood before the record at
/// `i` was taken out.
pub open spec fn before_removal(i: int, k: int) -> int {
    if k < i {
        k
    } else {
        k + 1
    }
}

/// In a sequence with distinct addresses, the record found under an address
/// is the one at the position where that address stands.
pub proof fn lemma_position<H>(records: Seq<ClientRecord<H>>, i: int)
    requires
        distinct_addresses(records),
        0 <= i < records.len(),
    ensures
        has_address(records, records[i].address),
        position_of(records, records[i].address) == i,
        as_map(records)[records[i].address] == records[i],
{
}

/// The addresses of a sequence with distinct addresses list the keys of its
/// mapping, each once.
pub proof fn lemma_addresses_enumerate<H>(records: Seq<ClientRecord<H>>)
    requires
        distinct_addresses(records),
    ensures
        consistent(addresses_of(records), as_map(records)),
        as_map(records).dom().finite(),
        as_map(records).dom().len() == records.len(),
{
    let order = addresses_of(records);
    let registry = as_map(records);
    assert forall|a: Address| registry.dom().contains(a) implies (#[trigger] registry[a]).address
        == a by {
        lemma_position(records, position_of(records, a));
    }
    assert forall|a: Address| #[trigger] order.contains(a) <==> registry.dom().contains(a) by {
        if has_address(records, a) {
            assert(order[position_of(records, a)] == a);
        }
    }
    order.unique_seq_to_set();
    assert(order.to_set() =~= registry.dom());
}

/// A record under a new address, put at the end, is one more entry of the
/// mapping.
pub proof fn lemma_push<H>(records: Seq<ClientRecord<H>>, record: ClientRecord<H>)
    requires
        distinct_addresses(records),
        !has_address(records, record.address),
    ensures
        distinct_addresses(records.push(record)),
        as_map(records.push(record)) == as_map(records).insert(record.address, record),
        addresses_of(records.push(record)) == addresses_of(records).push(record.address),
{
    let after = records.push(record);
    let expected = as_map(records).insert(record.address, record);
    let n = records.len() as int;
    assert(after[n] == record);
    assert forall|a: Address|
        has_address(after, a) <==> has_address(records, a) || a == record.address by {
        if has_address(records, a) {
            assert(after[position_of(records, a)].address == a);
        }
    }
    assert forall|a: Address| has_address(after, a) implies #[trigger] as_map(after)[a]
        == expected[a] by {
        let i = position_of(after, a);
        lemma_position(after, i);
        if i < n {
            lemma_position(records, i);
        }
    }
}

/// A record put in the place of the one kept under the same address
/// replaces that entry of the mapping and moves nothing.
pub proof fn lemma_replace<H>(records: Seq<ClientRecord<H>>, i: int, record: ClientRecord<H>)
    requires
        distinct_addresses(records),
        0 <= i < records.len(),
        records[i].address == record.address,
    ensures
        distinct_addresses(records.update(i, record)),
        as_map(records.update(i, record)) == as_map(records).insert(record.address, record),
        addresses_of(records.update(i, record)) == addresses_of(records),
{
    let after = records.update(i, record);
    let expected = as_map(records).insert(record.address, record);
    assert forall|k: int| 0 <= k < records.len() implies (#[trigger] after[k]).address
        == records[k].address by {}
    assert forall|a: Address| has_address(after, a) <==> has_address(records, a) by {
        if has_address(records, a) {
            assert(after[position_of(records, a)].address == a);
        }
    }
    lemma_position(records, i);
    assert forall|a: Address| has_address(after, a) implies #[trigger] as_map(after)[a]
        == expected[a] by {
        let k = position_of(after, a);
        lemma_position(after, k);
        if k != i {
            lemma_position(records, k);
        }
    }
}

/// Taking out the record at a position takes its address out of the
/// mapping and out of the order, and nothing else.
pub proof fn lemma_take_out<H>(records: Seq<ClientRecord<H>>, i: int)
    requires
        distinct_addresses(records),
        0 <= i < records.len(),
    ensures
        distinct_addresses(records.remove(i)),
        as_map(records.remove(i)) == as_map(records).remove(records[i].address),
        addresses_of(records.remove(i)) == without(addresses_of(records), records[i].address),
{
    let after = records.remove(i);
    let gone = records[i].address;
    let expected = as_map(records).remove(gone);
    assert forall|k: int| 0 <= k < after.len() implies #[trigger] after[k]
        == records[before_removal(i, k)] by {}
    assert forall|a: Address| has_address(after, a) <==> has_address(records, a) && a != gone by {
        if has_address(records, a) && a != gone {
            let k = position_of(records, a);
            assert(after[if k < i { k } else { k - 1 }].address == a);
        }
    }
    assert forall|a: Address| has_address(after, a) implies #[trigger] as_map(after)[a]
        == expected[a] by {
        let k = position_of(after, a);
        lemma_position(after, k);
        lemma_position(records, before_removal(i, k));
    }
    lemma_addresses_enumerate(records);
    lemma_without_at(addresses_of(records), i);
}

} // verus!
