//! What the loops exchange with the transport session: the events that a
//! poll of the session yields, and the packets that are handed to it for
//! sending. The session itself, a reliable-UDP connection with several
//! channels, lives outside this crate.

use vstd::prelude::*;

verus! {

/// The port that the server listens on and the client connects to, unless
/// told otherwise.
pub const DEFAULT_PORT: u16 = 1234;

/// How long one poll of the session waits for an event, in milliseconds.
pub const POLL_TIMEOUT_MS: u32 = 1000;

/// The channel on which the client sends.
pub const CLIENT_CHANNEL: u8 = 1;

/// How a packet is to be delivered.
#[derive(Copy, Clone, Debug, PartialEq, Eq, Structural)]
pub enum DeliveryMode {
    /// May be lost; packets that arrive do so in the order sent.
    UnreliableSequenced,
    /// May be lost and may arrive in any order.
    UnreliableUnsequenced,
    /// Arrives, and in the order sent.
    ReliableSequenced,
}

/// What a poll of the session may yield.
#[derive(Clone, Debug, PartialEq, Eq)]
pub enum Event {
    /// A peer has connected.
    PeerConnected,
    /// A peer has disconnected, with the reason it gave.
    PeerDisconnected(u32),
    /// A packet has arrived on a channel.
    DataReceived { bytes: Vec<u8>, channel: u8 },
}

/// A packet handed to the session for sending.
#[derive(Clone, Debug, PartialEq, Eq)]
pub struct Outgoing {
    pub bytes: Vec<u8>,
    pub channel: u8,
    pub mode: DeliveryMode,
}

} // verus!
