//! Verified core of an AMQP 0-9-1 client: the frame codec, the connection
//! state machine, and the buffer-level transport pump.
//!
//! The codec translates between wire bytes and typed `Frame` values and is
//! proved to be a bijection on well-formed frames.  The connection state
//! machine owns all protocol state (handshake, channels, queues, consumers,
//! publisher confirms, content assembly) and performs no I/O: a caller feeds
//! it received frames and drains its outbound frame queue.

pub mod wire;
pub mod frame;
pub mod codec;
pub mod codec_laws;
pub mod encode;
pub mod decode;
pub mod message;
pub mod queue;
pub mod options;
pub mod connection;
pub mod transport;
pub mod laws;

use vstd::prelude::*;

verus! {

/// Error kinds surfaced by the core.  I/O failures and lock poisoning are the
/// embedding's concern: the core itself never performs I/O.
#[derive(Clone, Debug, PartialEq, Eq)]
pub enum Error {
    /// Malformed bytes on the wire; fatal to the connection.
    ParseError,
    /// A frame was rejected by the serializer (an over-long string or table).
    SerializeError,
    /// An operation was issued against a connection or channel that is not in
    /// the state the operation needs.
    InvalidState,
    /// The broker rejected a method on a channel.
    ProtocolError { code: u16, reason: Vec<u8>, class_id: u16, method_id: u16 },
    /// The connection was closed by either peer.
    ConnectionClosed { code: u16, reason: Vec<u8> },
    /// The channel was closed by the broker; later operations on it report this.
    ChannelClosed { code: u16, reason: Vec<u8> },
    /// A basic.get found the queue empty.
    BasicGetEmpty,
}

} // verus!
