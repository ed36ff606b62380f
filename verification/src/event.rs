//! What happens on the connections, and what the coordinator decides on it.

use crate::address::Address;
use vstd::prelude::*;

verus! {

/// Something that happened on one connection. Events reach the coordinator
/// one at a time, in the order in which they were raised.
#[derive(Debug, PartialEq, Eq)]
pub enum Event<H> {
    /// A client was accepted; `endpoint` writes to it.
    Connected { address: Address, endpoint: H },
    /// The client's connection was closed or failed.
    Disconnected { address: Address },
    /// The client sent `payload`.
    MessageReceived { address: Address, payload: Vec<u8> },
}

/// Why a message was not relayed.
#[derive(Clone, Copy, Debug, PartialEq, Eq, Structural)]
pub enum DropReason {
    /// No client is connected under the sender's address.
    UnknownSender,
    /// The payload is not well-formed UTF-8 text.
    MalformedText,
}

/// What the coordinator decided on one event: what became of the registry,
/// and what is to be written to whom.
#[derive(Debug, PartialEq, Eq)]
pub enum Outcome {
    /// The client was entered in the registry. `replaced` tells whether an
    /// entry under the same address was overwritten.
    Registered { address: Address, replaced: bool },
    /// The client's entry, if there was one, was taken out of the registry.
    Unregistered { address: Address, was_present: bool },
    /// `payload` is to be written, as it is, to the endpoint of each of
    /// `recipients`, in that order; a write that fails does not stop the
    /// others.
    Relay { sender: Address, payload: Vec<u8>, recipients: Vec<Address> },
    /// The message was dropped; nothing is to be written.
    Dropped { sender: Address, reason: DropReason },
}

} // verus!
