//! The fanout coordinator: the one owner of the registry.

use crate::address::Address;
use crate::event::{DropReason, Event, Outcome};
use crate::order::without;
use crate::records::{consistent, ClientRecord};
use crate::registry::Registry;
use crate::text::is_text;
use vstd::prelude::*;
use vstd::utf8::valid_utf8;

verus! {

/// The rate-limit window: the least time meant to lie between two accepted
/// messages of one client, in milliseconds.
pub const RATE_LIMIT_WINDOW_MS: i64 = 1000;

/// The time held for a client that connects at `now`: two rate-limit
/// windows earlier, so that its first message is outside any window.
pub open spec fn initial_message_time(now: i64) -> int {
    now - 2 * RATE_LIMIT_WINDOW_MS
}

/// The record entered for a client that connects at `now`.
pub open spec fn fresh_record<H>(address: Address, endpoint: H, now: i64) -> ClientRecord<H> {
    ClientRecord { address, endpoint, last_message_time: initial_message_time(now) as i128 }
}

/// The registry after `event`, processed at `now`.
pub open spec fn registry_after<H>(
    registry: Map<Address, ClientRecord<H>>,
    event: Event<H>,
    now: i64,
) -> Map<Address, ClientRecord<H>> {
    match event {
        Event::Connected { address, endpoint } => registry.insert(
            address,
            fresh_record(address, endpoint, now),
        ),
        Event::Disconnected { address } => registry.remove(address),
        Event::MessageReceived { .. } => registry,
    }
}

/// The order of the registry after `event`.
pub open spec fn order_after<H>(order: Seq<Address>, event: Event<H>) -> Seq<Address> {
    match event {
        Event::Connected { address, .. } => if order.contains(address) {
            order
        } else {
            order.push(address)
        },
        Event::Disconnected { address } => without(order, address),
        Event::MessageReceived { .. } => order,
    }
}

/// Whom a message of `sender` goes to: every client in `order` but the
/// sender, in that order.
pub open spec fn recipients_of(order: Seq<Address>, sender: Address) -> Seq<Address> {
    without(order, sender)
}

/// Whether `outcome` is what the coordinator decides on `event`, with
/// `registry` and `order` as they stood before.
pub open spec fn decided<H>(
    registry: Map<Address, ClientRecord<H>>,
    order: Seq<Address>,
    event: Event<H>,
    outcome: Outcome,
) -> bool {
    match event {
        Event::Connected { address, .. } => outcome == (Outcome::Registered {
            address,
            replaced: registry.dom().contains(address),
        }),
        Event::Disconnected { address } => outcome == (Outcome::Unregistered {
            address,
            was_present: registry.dom().contains(address),
        }),
        Event::MessageReceived { address, payload } => if !registry.dom().contains(address) {
            outcome == (Outcome::Dropped { sender: address, reason: DropReason::UnknownSender })
        } else if !valid_utf8(payload@) {
            outcome == (Outcome::Dropped { sender: address, reason: DropReason::MalformedText })
        } else {
            &&& outcome matches Outcome::Relay { sender, payload: relayed, recipients }
            &&& sender == address
            &&& relayed@ == payload@
            &&& recipients@ == recipients_of(order, address)
        },
    }
}

/// The single authority on who is connected. It takes the events of all
/// connections one at a time and says, for each, what is to be done.
pub struct Coordinator<H> {
    registry: Registry<H>,
}

impl<H> Coordinator<H> {
    /// The registry as a mapping from address to record.
    pub closed spec fn view(&self) -> Map<Address, ClientRecord<H>> {
        self.registry@
    }

    /// The addresses of the connected clients, in the order in which a
    /// message is relayed to them.
    pub closed spec fn order(&self) -> Seq<Address> {
        self.registry.order()
    }

    /// A coordinator with no client connected.
    pub fn new() -> (r: Coordinator<H>)
        ensures
            r@ == Map::<Address, ClientRecord<H>>::empty(),
            r.order() == Seq::<Address>::empty(),
            consistent(r.order(), r@),
    {
        Coordinator { registry: Registry::new() }
    }

    /// The registry, to read.
    pub fn registry(&self) -> (r: &Registry<H>)
        ensures
            r@ == self@,
            r.order() == self.order(),
    {
        &self.registry
    }

    /// Enters a client that connected at `now`, a clock reading in
    /// milliseconds relative to the Unix epoch. An entry already kept under
    /// `address` is overwritten; the result tells whether one was.
    pub fn connect(&mut self, address: Address, endpoint: H, now: i64) -> (replaced: bool)
        ensures
            final(self)@ == old(self)@.insert(address, fresh_record(address, endpoint, now)),
            final(self).order() == if old(self)@.dom().contains(address) {
                old(self).order()
            } else {
                old(self).order().push(address)
            },
            replaced == old(self)@.dom().contains(address),
            consistent(old(self).order(), old(self)@),
            consistent(final(self).order(), final(self)@),
    {
        let replaced = self.registry.contains(&address);
        let last_message_time: i128 = now as i128 - 2 * (RATE_LIMIT_WINDOW_MS as i128);
        self.registry.insert(ClientRecord { address, endpoint, last_message_time });
        replaced
    }

    /// Takes out the entry kept under `address`; the result tells whether
    /// there was one. Where there was none, nothing changes.
    pub fn disconnect(&mut self, address: &Address) -> (was_present: bool)
        ensures
            final(self)@ == old(self)@.remove(*address),
            final(self).order() == without(old(self).order(), *address),
            was_present == old(self)@.dom().contains(*address),
            !was_present ==> final(self)@ == old(self)@ && final(self).order() == old(
                self,
            ).order(),
            consistent(old(self).order(), old(self)@),
            consistent(final(self).order(), final(self)@),
    {
        self.registry.remove(address).is_some()
    }

    /// Whom a message of `sender` is relayed to: every connected client but
    /// the sender, each once, in the registry's order.
    pub fn recipients(&self, sender: &Address) -> (r: Vec<Address>)
        ensures
            r@ == recipients_of(self.order(), *sender),
            r@.no_duplicates(),
            !r@.contains(*sender),
            forall|a: Address|
                #[trigger] r@.contains(a) <==> self@.dom().contains(a) && a != *sender,
    {
        self.registry.addresses_except(sender)
    }

    /// Processes one event at `now`, a clock reading in milliseconds
    /// relative to the Unix epoch, and says what is to be done.
    ///
    /// A connect enters the client, a disconnect takes it out. A message is
    /// relayed to every other client if its sender is connected and its
    /// payload is well-formed UTF-8 text, and dropped otherwise; either way
    /// the registry stays as it is.
    pub fn handle_event(&mut self, event: Event<H>, now: i64) -> (outcome: Outcome)
        ensures
            final(self)@ == registry_after(old(self)@, event, now),
            final(self).order() == order_after(old(self).order(), event),
            decided(old(self)@, old(self).order(), event, outcome),
            outcome matches Outcome::Relay { sender, recipients, .. } ==> {
                &&& !recipients@.contains(sender)
                &&& recipients@.no_duplicates()
                &&& forall|a: Address| #[trigger]
                    recipients@.contains(a) <==> old(self)@.dom().contains(a) && a != sender
            },
            consistent(old(self).order(), old(self)@),
            consistent(final(self).order(), final(self)@),
    {
        match event {
            Event::Connected { address, endpoint } => {
                let replaced = self.connect(address, endpoint, now);
                Outcome::Registered { address, replaced }
            },
            Event::Disconnected { address } => {
                let was_present = self.disconnect(&address);
                Outcome::Unregistered { address, was_present }
            },
            Event::MessageReceived { address, payload } => {
                if !self.registry.contains(&address) {
                    Outcome::Dropped { sender: address, reason: DropReason::UnknownSender }
                } else if !is_text(payload.as_slice()) {
                    Outcome::Dropped { sender: address, reason: DropReason::MalformedText }
                } else {
                    let recipients = self.recipients(&address);
                    Outcome::Relay { sender: address, payload, recipients }
                }
            },
        }
    }
}

} // verus!
