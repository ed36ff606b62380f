//! What holds of the coordinator whatever the events are.

use crate::address::Address;
use crate::coordinator::{decided, order_after, recipients_of, registry_after};
use crate::event::{Event, Outcome};
use crate::order::{lemma_without_absent, lemma_without_contains, lemma_without_keeps_distinct};
use crate::records::{consistent, ClientRecord};
use vstd::prelude::*;
use vstd::utf8::valid_utf8;

verus! {

/// Whether `event` is the connect of the client at `address`.
pub open spec fn connects<H>(event: Event<H>, address: Address) -> bool {
    event matches Event::Connected { address: a, .. } && a == address
}

/// Whether `event` is the disconnect of the client at `address`.
pub open spec fn disconnects<H>(event: Event<H>, address: Address) -> bool {
    event matches Event::Disconnected { address: a } && a == address
}

/// The set of connected addresses after `event`.
pub open spec fn connected_after<H>(connected: Set<Address>, event: Event<H>) -> Set<Address> {
    match event {
        Event::Connected { address, .. } => connected.insert(address),
        Event::Disconnected { address } => connected.remove(address),
        Event::MessageReceived { .. } => connected,
    }
}

/// The set of connected addresses after all of `events`, first to last.
pub open spec fn connected_after_all<H>(connected: Set<Address>, events: Seq<Event<H>>) -> Set<
    Address,
>
    decreases events.len(),
{
    if events.len() == 0 {
        connected
    } else {
        connected_after(connected_after_all(connected, events.drop_last()), events.last())
    }
}

/// Whether the event at `i` is a connect of `address` that no disconnect of
/// `address` follows.
pub open spec fn outstanding_at<H>(events: Seq<Event<H>>, address: Address, i: int) -> bool {
    &&& 0 <= i < events.len()
    &&& connects(events[i], address)
    &&& forall|j: int| i < j < events.len() ==> !disconnects(#[trigger] events[j], address)
}

/// Whether `events` hold a connect of `address` that no disconnect of
/// `address` follows.
pub open spec fn connect_outstanding<H>(events: Seq<Event<H>>, address: Address) -> bool {
    exists|i: int| outstanding_at(events, address, i)
}

/// The keys of the registry follow the events: a connect adds its address,
/// a disconnect takes its address out, a message changes nothing.
pub proof fn lemma_registry_keys_follow_event<H>(
    registry: Map<Address, ClientRecord<H>>,
    event: Event<H>,
    now: i64,
)
    ensures
        registry_after(registry, event, now).dom() == connected_after(registry.dom(), event),
{
}

/// Starting from nobody connected, the addresses connected after `events`
/// are exactly those with a connect that no disconnect of the same address
/// has followed.
pub proof fn lemma_connected_after_all<H>(events: Seq<Event<H>>, address: Address)
    ensures
        connected_after_all(Set::empty(), events).contains(address) <==> connect_outstanding(
            events,
            address,
        ),
    decreases events.len(),
{
    if events.len() > 0 {
        let front = events.drop_last();
        let last = events.len() - 1;
        lemma_connected_after_all(front, address);
        if connect_outstanding(events, address) {
            let i = choose|i: int| outstanding_at(events, address, i);
            if i < last {
                assert(outstanding_at(front, address, i));
            }
        }
        if connect_outstanding(front, address) && !disconnects(events[last], address) {
            let i = choose|i: int| outstanding_at(front, address, i);
            assert forall|j: int| i < j < events.len() implies !disconnects(
                #[trigger] events[j],
                address,
            ) by {
                if j < last {
                    assert(front[j] == events[j]);
                }
            }
            assert(outstanding_at(events, address, i));
        }
        if connects(events[last], address) {
            assert(outstanding_at(events, address, last));
        }
    }
}

/// The registry after all of `steps`, first to last; a step is an event and
/// the time at which it is processed.
pub open spec fn registry_after_all<H>(
    registry: Map<Address, ClientRecord<H>>,
    steps: Seq<(Event<H>, i64)>,
) -> Map<Address, ClientRecord<H>>
    decreases steps.len(),
{
    if steps.len() == 0 {
        registry
    } else {
        registry_after(
            registry_after_all(registry, steps.drop_last()),
            steps.last().0,
            steps.last().1,
        )
    }
}

/// The events of `steps`, in the same order.
pub open spec fn events_of<H>(steps: Seq<(Event<H>, i64)>) -> Seq<Event<H>> {
    Seq::new(steps.len(), |i: int| steps[i].0)
}

/// The keys of the registry after all of `steps` are the addresses
/// connected after their events.
pub proof fn lemma_registry_keys_follow_events<H>(
    registry: Map<Address, ClientRecord<H>>,
    steps: Seq<(Event<H>, i64)>,
)
    ensures
        registry_after_all(registry, steps).dom() == connected_after_all(
            registry.dom(),
            events_of(steps),
        ),
    decreases steps.len(),
{
    if steps.len() > 0 {
        let front = steps.drop_last();
        lemma_registry_keys_follow_events(registry, front);
        lemma_registry_keys_follow_event(
            registry_after_all(registry, front),
            steps.last().0,
            steps.last().1,
        );
        assert(events_of(steps).drop_last() =~= events_of(front));
    }
}

/// Registry consistency: after any sequence of events, processed one at a
/// time from an empty registry, the registry holds exactly the addresses
/// with a connect that no disconnect of the same address has followed.
pub proof fn lemma_registry_consistency<H>(steps: Seq<(Event<H>, i64)>, address: Address)
    ensures
        registry_after_all(Map::empty(), steps).dom().contains(address) <==> connect_outstanding(
            events_of(steps),
            address,
        ),
{
    lemma_registry_keys_follow_events(Map::<Address, ClientRecord<H>>::empty(), steps);
    lemma_connected_after_all(events_of(steps), address);
}

/// No self-delivery: a message is relayed to every connected client other
/// than its sender, to each once, and never to the sender.
pub proof fn lemma_no_self_delivery<H>(
    registry: Map<Address, ClientRecord<H>>,
    order: Seq<Address>,
    sender: Address,
)
    requires
        consistent(order, registry),
    ensures
        !recipients_of(order, sender).contains(sender),
        recipients_of(order, sender).no_duplicates(),
        forall|a: Address|
            #[trigger] recipients_of(order, sender).contains(a) <==> registry.dom().contains(a)
                && a != sender,
{
    lemma_without_contains(order, sender, sender);
    lemma_without_keeps_distinct(order, sender);
    assert forall|a: Address| #[trigger]
        recipients_of(order, sender).contains(a) <==> registry.dom().contains(a) && a
            != sender by {
        lemma_without_contains(order, sender, a);
    }
}

/// A payload that is not well-formed UTF-8 text is relayed to nobody: the
/// message is dropped, and the registry stays as it is.
pub proof fn lemma_malformed_text_is_dropped<H>(
    registry: Map<Address, ClientRecord<H>>,
    order: Seq<Address>,
    address: Address,
    payload: Vec<u8>,
    now: i64,
    outcome: Outcome,
)
    requires
        !valid_utf8(payload@),
        decided(registry, order, (Event::<H>::MessageReceived { address, payload }), outcome),
    ensures
        outcome is Dropped,
        registry_after(registry, (Event::<H>::MessageReceived { address, payload }), now)
            == registry,
        order_after(order, (Event::<H>::MessageReceived { address, payload })) == order,
{
}

/// Disconnect idempotence: the disconnect of an address that is not in the
/// registry leaves the registry as it is.
pub proof fn lemma_disconnect_of_absent_changes_nothing<H>(
    registry: Map<Address, ClientRecord<H>>,
    order: Seq<Address>,
    address: Address,
    now: i64,
)
    requires
        consistent(order, registry),
        !registry.dom().contains(address),
    ensures
        registry_after(registry, (Event::<H>::Disconnected { address }), now) == registry,
        order_after(order, (Event::<H>::Disconnected { address })) == order,
        decided(
            registry,
            order,
            (Event::<H>::Disconnected { address }),
            (Outcome::Unregistered { address, was_present: false }),
        ),
{
    lemma_without_absent(order, address);
}

/// A second disconnect of the same address changes nothing.
pub proof fn lemma_disconnect_twice<H>(
    registry: Map<Address, ClientRecord<H>>,
    order: Seq<Address>,
    address: Address,
    now: i64,
    later: i64,
)
    ensures
        registry_after(
            registry_after(registry, (Event::<H>::Disconnected { address }), now),
            (Event::<H>::Disconnected { address }),
            later,
        ) == registry_after(registry, (Event::<H>::Disconnected { address }), now),
        order_after(
            order_after(order, (Event::<H>::Disconnected { address })),
            (Event::<H>::Disconnected { address }),
        ) == order_after(order, (Event::<H>::Disconnected { address })),
{
    let once = order_after(order, (Event::<H>::Disconnected { address }));
    lemma_without_contains(order, address, address);
    lemma_without_absent(once, address);
}

} // verus!
