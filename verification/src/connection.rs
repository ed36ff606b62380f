//! One client's connection, as the source of its events.

use crate::address::Address;
use crate::event::Event;
use vstd::prelude::*;

verus! {

/// What one read on a connection gave.
#[derive(Debug, PartialEq, Eq)]
pub enum ReadResult {
    /// The read succeeded and gave these bytes; none at all means that the
    /// peer has closed the connection.
    Bytes(Vec<u8>),
    /// The read failed.
    Failed,
}

/// Whether `read` brought a message: it succeeded, and with at least one
/// byte.
pub open spec fn brings_message(read: ReadResult) -> bool {
    read matches ReadResult::Bytes(bytes) && bytes@.len() > 0
}

/// The event that a connection of `address` raises on `read`: none once it
/// is closed; else the message that the read brought, or the disconnect.
pub open spec fn event_on_read<H>(address: Address, closed: bool, read: ReadResult) -> Option<
    Event<H>,
> {
    if closed {
        None
    } else {
        match read {
            ReadResult::Bytes(bytes) => if bytes@.len() > 0 {
                Some(Event::MessageReceived { address, payload: bytes })
            } else {
                Some(Event::Disconnected { address })
            },
            ReadResult::Failed => Some(Event::Disconnected { address }),
        }
    }
}

/// The reading side of one client's connection. It turns what the reads on
/// the socket give into events, and raises the disconnect once.
pub struct Connection {
    address: Address,
    closed: bool,
}

impl Connection {
    /// The client's address.
    pub closed spec fn address(&self) -> Address {
        self.address
    }

    /// Whether the disconnect has been raised.
    pub closed spec fn closed(&self) -> bool {
        self.closed
    }

    /// The connection of a client that was just accepted, and the event
    /// that announces it, to be raised before any read.
    pub fn open<H>(address: Address, endpoint: H) -> (r: (Connection, Event<H>))
        ensures
            r.0.address() == address,
            !r.0.closed(),
            r.1 == (Event::Connected { address, endpoint }),
    {
        (Connection { address, closed: false }, Event::Connected { address, endpoint })
    }

    /// Whether the disconnect has been raised; no read is to follow then.
    pub fn is_closed(&self) -> (r: bool)
        ensures
            r == self.closed(),
    {
        self.closed
    }

    /// The address of the client.
    pub fn peer(&self) -> (r: Address)
        ensures
            r == self.address(),
    {
        self.address
    }

    /// Takes what one read gave and hands back the event to raise. A read
    /// that brought bytes raises a message with exactly those bytes. A
    /// failed read, or one that brought nothing, raises the disconnect and
    /// closes the connection; after that nothing is raised any more.
    pub fn on_read<H>(&mut self, read: ReadResult) -> (event: Option<Event<H>>)
        ensures
            event == event_on_read::<H>(old(self).address(), old(self).closed(), read),
            final(self).address() == old(self).address(),
            final(self).closed() == (old(self).closed() || !brings_message(read)),
    {
        if self.closed {
            return None;
        }
        match read {
            ReadResult::Bytes(bytes) => {
                if bytes.len() > 0 {
                    Some(Event::MessageReceived { address: self.address, payload: bytes })
                } else {
                    self.closed = true;
                    Some(Event::Disconnected { address: self.address })
                }
            },
            ReadResult::Failed => {
                self.closed = true;
                Some(Event::Disconnected { address: self.address })
            },
        }
    }
}

} // verus!
