//! Core of a client for the Qubes OS GUI protocol.
//!
//! The protocol is spoken between a GUI agent and a GUI daemon over a
//! bidirectional byte channel.  This crate holds the wire format, the
//! validation of message headers, the framing state machine that turns an
//! untrusted byte stream into validated messages, and the buffer that queues
//! outgoing bytes while the channel is full.
//!
//! * [`limits`] and [`kinds`]: the constants of the protocol and the numbers
//!   of its message kinds.
//! * [`wire`] and [`payload`]: the byte images of the messages.
//! * [`header`]: message headers and the rule that validates them.
//! * [`framing`]: the rules of the handshake and of framing, as a function
//!   of the bytes that arrive.
//! * [`transport`]: what a connection needs of its channel; [`memory`], a
//!   channel in memory; [`metered`], any other channel.
//! * [`stream`] and [`connection`]: the connection itself.

pub mod limits;
pub mod kinds;
pub mod wire;
pub mod payload;
pub mod header;
pub mod transport;
pub mod memory;
pub mod metered;
pub mod framing;
pub mod stream;
pub mod connection;

pub use connection::{Connection, Poll};
pub use framing::{Error, Kind, ProtocolError, ReadState};
pub use header::{BadLengthError, Header, UntrustedHeader, WindowID};
pub use metered::{Channel, Metered, MeteredError};
pub use stream::{Buffer, RawMessageStream};
pub use transport::{Status, Transport};
