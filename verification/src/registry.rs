//! The registry of connected clients.

use crate::address::Address;
use crate::order::{
    lemma_without_absent, lemma_without_contains, lemma_without_keeps_distinct,
    lemma_without_push, without,
};
use crate::records::{
    addresses_of, as_map, consistent, distinct_addresses, has_address, lemma_addresses_enumerate,
    lemma_position, lemma_push, lemma_replace, lemma_take_out, position_of, ClientRecord,
};
use vstd::prelude::*;

verus! {

/// The live mapping from the addresses of connected clients to their
/// records. No two records are kept under one address. The records are
/// held in the order in which their addresses were first entered.
pub struct Registry<H> {
    records: Vec<ClientRecord<H>>,
}

impl<H> Registry<H> {
    #[verifier::type_invariant]
    spec fn well_formed(&self) -> bool {
        distinct_addresses(self.records@)
    }

    /// The records, in the order in which the registry hands them out.
    pub closed spec fn records(&self) -> Seq<ClientRecord<H>> {
        self.records@
    }

    /// The registry as a mapping from address to record.
    pub open spec fn view(&self) -> Map<Address, ClientRecord<H>> {
        as_map(self.records())
    }

    /// The addresses of the registry, in the order in which it hands them
    /// out.
    pub open spec fn order(&self) -> Seq<Address> {
        addresses_of(self.records())
    }

    /// A registry without clients.
    pub fn new() -> (r: Registry<H>)
        ensures
            r.records() == Seq::<ClientRecord<H>>::empty(),
            r@ == Map::<Address, ClientRecord<H>>::empty(),
            r.order() == Seq::<Address>::empty(),
            consistent(r.order(), r@),
    {
        Registry { records: Vec::new() }
    }

    /// The number of connected clients.
    pub fn len(&self) -> (n: usize)
        ensures
            n == self@.dom().len(),
            n == self.order().len(),
            self@.dom().finite(),
            consistent(self.order(), self@),
    {
        proof {
            use_type_invariant(self);
            lemma_addresses_enumerate(self.records@);
        }
        self.records.len()
    }

    /// The position of the record kept under `address`, if there is one.
    fn find(&self, address: &Address) -> (r: Option<usize>)
        ensures
            distinct_addresses(self.records()),
            match r {
                Some(i) => i < self.records().len() && self.records()[i as int].address
                    == *address && position_of(self.records(), *address) == i,
                None => !has_address(self.records(), *address),
            },
            r is Some <==> has_address(self.records(), *address),
    {
        proof {
            use_type_invariant(self);
        }
        let mut i: usize = 0;
        while i < self.records.len()
            invariant
                i <= self.records@.len(),
                distinct_addresses(self.records@),
                forall|k: int| 0 <= k < i ==> (#[trigger] self.records@[k]).address != *address,
            decreases self.records@.len() - i,
        {
            if self.records[i].address == *address {
                proof {
                    lemma_position(self.records@, i as int);
                }
                return Some(i);
            }
            i = i + 1;
        }
        None
    }

    /// Whether a client is connected under `address`.
    pub fn contains(&self, address: &Address) -> (r: bool)
        ensures
            r == self@.dom().contains(*address),
            r == self.order().contains(*address),
            consistent(self.order(), self@),
    {
        proof {
            use_type_invariant(self);
            lemma_addresses_enumerate(self.records@);
        }
        self.find(address).is_some()
    }

    /// The record of the client connected under `address`.
    pub fn get(&self, address: &Address) -> (r: Option<&ClientRecord<H>>)
        ensures
            match r {
                Some(record) => self@.dom().contains(*address) && *record == self@[*address]
                    && record.address == *address,
                None => !self@.dom().contains(*address),
            },
    {
        match self.find(address) {
            Some(i) => {
                proof {
                    lemma_position(self.records@, i as int);
                }
                Some(&self.records[i])
            },
            None => None,
        }
    }

    /// Enters `record` under its address. A record already kept under that
    /// address is overwritten in its place and handed back; a new address
    /// goes to the end of the order.
    pub fn insert(&mut self, record: ClientRecord<H>) -> (previous: Option<ClientRecord<H>>)
        ensures
            final(self)@ == old(self)@.insert(record.address, record),
            final(self).order() == if old(self)@.dom().contains(record.address) {
                old(self).order()
            } else {
                old(self).order().push(record.address)
            },
            previous == if old(self)@.dom().contains(record.address) {
                Some(old(self)@[record.address])
            } else {
                None
            },
            consistent(old(self).order(), old(self)@),
            consistent(final(self).order(), final(self)@),
    {
        proof {
            use_type_invariant(&*self);
            lemma_addresses_enumerate(self.records@);
        }
        let found = self.find(&record.address);
        // The records are worked on outside the registry and put back, so
        // that it is never seen between two steps of a change.
        let mut records: Vec<ClientRecord<H>> = Vec::new();
        core::mem::swap(&mut self.records, &mut records);
        let previous = match found {
            Some(i) => {
                proof {
                    lemma_position(records@, i as int);
                    lemma_replace(records@, i as int, record);
                }
                let mut slot = record;
                records.set_and_swap(i, &mut slot);
                Some(slot)
            },
            None => {
                proof {
                    lemma_push(records@, record);
                }
                records.push(record);
                None
            },
        };
        core::mem::swap(&mut self.records, &mut records);
        proof {
            lemma_addresses_enumerate(self.records@);
        }
        previous
    }

    /// Takes out the record kept under `address` and hands it back. Where
    /// there is none, the registry stays as it is.
    pub fn remove(&mut self, address: &Address) -> (removed: Option<ClientRecord<H>>)
        ensures
            final(self)@ == old(self)@.remove(*address),
            final(self).order() == without(old(self).order(), *address),
            removed == if old(self)@.dom().contains(*address) {
                Some(old(self)@[*address])
            } else {
                None
            },
            !old(self)@.dom().contains(*address) ==> final(self).records() == old(self).records(),
            consistent(old(self).order(), old(self)@),
            consistent(final(self).order(), final(self)@),
    {
        proof {
            use_type_invariant(&*self);
            lemma_addresses_enumerate(self.records@);
        }
        match self.find(address) {
            Some(i) => {
                let mut records: Vec<ClientRecord<H>> = Vec::new();
                core::mem::swap(&mut self.records, &mut records);
                proof {
                    lemma_position(records@, i as int);
                    lemma_take_out(records@, i as int);
                }
                let removed = records.remove(i);
                core::mem::swap(&mut self.records, &mut records);
                proof {
                    lemma_addresses_enumerate(self.records@);
                }
                Some(removed)
            },
            None => {
                proof {
                    lemma_without_absent(self.order(), *address);
                }
                None
            },
        }
    }

    /// The addresses of all connected clients, in the registry's order.
    pub fn addresses(&self) -> (r: Vec<Address>)
        ensures
            r@ == self.order(),
            consistent(r@, self@),
    {
        proof {
            use_type_invariant(self);
            lemma_addresses_enumerate(self.records@);
        }
        let mut out: Vec<Address> = Vec::new();
        let mut i: usize = 0;
        while i < self.records.len()
            invariant
                i <= self.records@.len(),
                out@ == addresses_of(self.records@).take(i as int),
            decreases self.records@.len() - i,
        {
            out.push(self.records[i].address);
            i = i + 1;
        }
        assert(out@ =~= addresses_of(self.records@));
        out
    }

    /// The addresses of all connected clients but `address`, in the
    /// registry's order.
    pub fn addresses_except(&self, address: &Address) -> (r: Vec<Address>)
        ensures
            r@ == without(self.order(), *address),
            r@.no_duplicates(),
            !r@.contains(*address),
            forall|a: Address|
                #[trigger] r@.contains(a) <==> self@.dom().contains(a) && a != *address,
    {
        proof {
            use_type_invariant(self);
        }
        let ghost order = addresses_of(self.records@);
        let mut out: Vec<Address> = Vec::new();
        let mut i: usize = 0;
        proof {
            reveal(Seq::filter);
        }
        while i < self.records.len()
            invariant
                i <= self.records@.len(),
                order == addresses_of(self.records@),
                out@ == without(order.take(i as int), *address),
            decreases self.records@.len() - i,
        {
            let a = self.records[i].address;
            proof {
                lemma_without_push(order.take(i as int), a, *address);
                assert(order.take(i as int).push(a) =~= order.take(i + 1));
            }
            if a != *address {
                out.push(a);
            }
            i = i + 1;
        }
        proof {
            assert(order.take(i as int) =~= order);
            lemma_without_keeps_distinct(order, *address);
            lemma_addresses_enumerate(self.records@);
            assert forall|a: Address| #[trigger]
                out@.contains(a) <==> self@.dom().contains(a) && a != *address by {
                lemma_without_contains(order, *address, a);
            }
            lemma_without_contains(order, *address, *address);
        }
        out
    }
}

} // verus!
