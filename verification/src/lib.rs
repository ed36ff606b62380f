//! The decision core of a broadcast relay.
//!
//! Clients connect over a stream transport; every chunk of text one of them
//! sends is forwarded to all the others. This crate holds the part of such a
//! relay that decides: which clients are connected, and who receives what.
//! It performs no input or output. The process around it accepts sockets,
//! reads from them, turns what happens into [`Event`]s, hands them one at a
//! time to a [`Coordinator`], and carries out the [`Outcome`] it gets back.

pub mod address;
pub mod connection;
pub mod coordinator;
pub mod event;
pub mod laws;
pub mod order;
pub mod records;
pub mod registry;
pub mod text;

pub use address::{Address, IpAddress};
pub use connection::{Connection, ReadResult};
pub use coordinator::{Coordinator, RATE_LIMIT_WINDOW_MS};
pub use event::{DropReason, Event, Outcome};
pub use records::ClientRecord;
pub use registry::Registry;
