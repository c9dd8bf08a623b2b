//! The decisions of the client's networking thread, as a state machine.
//!
//! The thread owns the transport session. In turn it polls the session and
//! hands the event to [`on_event`], and drains the messages of the game
//! thread and hands each to [`on_outbound`]. It sends what a step asks to
//! send, passes on what a step has for the game thread, and stops once the
//! state is [`ClientState::Closing`].

use vstd::prelude::*;
use vstd::string::StringSliceAdditionalSpecFns;
use crate::packets::{
    assemble_player_connect_info,
    assemble_player_info_data,
    assemble_player_info_request,
    packet_kind,
    packet_type,
    parse_player_info_data,
    player_info_error,
    player_info_of,
    player_info_packet,
    username_packet,
    PacketType,
    ProtocolError,
};
use crate::player_data::{Player, PlayerView};
use crate::transport::{DeliveryMode, Event, Outgoing, CLIENT_CHANNEL};

verus! {

/// What the networking thread and the game thread tell each other.
#[derive(Clone, Debug, PartialEq, Eq)]
pub enum NetworkingMessage {
    /// To the game thread: the server is reached.
    ConnectionEstablished,
    /// To the game thread: the server has sent this record of the player.
    PlayerInfoReceived(Player),
    /// To the networking thread: send this record of the player.
    SendPlayerInfo(Player),
}

/// A [`NetworkingMessage`] with the player seen as a [`PlayerView`].
pub enum MessageView {
    ConnectionEstablished,
    PlayerInfoReceived(PlayerView),
    SendPlayerInfo(PlayerView),
}

impl View for NetworkingMessage {
    type V = MessageView;

    open spec fn view(&self) -> MessageView {
        match *self {
            NetworkingMessage::ConnectionEstablished => MessageView::ConnectionEstablished,
            NetworkingMessage::PlayerInfoReceived(p) => MessageView::PlayerInfoReceived(p@),
            NetworkingMessage::SendPlayerInfo(p) => MessageView::SendPlayerInfo(p@),
        }
    }
}

/// Where the networking thread stands.
#[derive(Copy, Clone, Debug, PartialEq, Eq, Structural)]
pub enum ClientState {
    /// Waiting for the server to accept the connection.
    Connecting,
    /// Connected; the player is announced and their record asked for.
    HandshakeSent,
    /// The server has sent the player's record.
    Synchronized,
    /// Done: the thread returns.
    Closing,
}

/// What a step did, for the log and for the thread to act on.
#[derive(Copy, Clone, Debug, PartialEq, Eq, Structural)]
pub enum ClientNote {
    /// The server is reached and the handshake is on its way.
    Connected,
    /// The server refused before the connection stood, with this reason.
    /// There is no second try: the thread ends the process.
    ConnectionRefused(u32),
    /// The server did not answer within the time allowed for connecting.
    /// There is no second try: the thread ends the process.
    ConnectionTimedOut,
    /// A packet arrived before the connection stood. The thread cannot go
    /// on.
    DataBeforeConnection,
    /// A peer connected to the client. Logged.
    UnexpectedPeer,
    /// The server is gone.
    Disconnected,
    /// The player's record arrived and goes to the game thread.
    PlayerInfo,
    /// A packet of a kind that the client has no use for. Logged.
    Unhandled(PacketType),
    /// A malformed packet. Logged and skipped.
    Rejected(ProtocolError),
    /// The player's record is on its way to the server.
    Sent,
    /// A message from the game thread that asks for nothing. Logged.
    UnhandledMessage,
    /// The game thread is gone.
    MainGone,
    /// Nothing was done: the thread is closing, or not connected yet.
    Ignored,
}

/// What the session yielded, with the packet as a sequence of bytes.
pub enum EventView {
    PeerConnected,
    PeerDisconnected(u32),
    DataReceived(Seq<u8>),
}

/// The view of an event.
pub open spec fn event_view(event: Event) -> EventView {
    match event {
        Event::PeerConnected => EventView::PeerConnected,
        Event::PeerDisconnected(reason) => EventView::PeerDisconnected(reason),
        Event::DataReceived { bytes, channel } => EventView::DataReceived(bytes@),
    }
}

/// What the thread makes of a packet, once connected.
pub open spec fn packet_note(data: Seq<u8>) -> ClientNote {
    match packet_kind(data) {
        Err(e) => ClientNote::Rejected(e),
        Ok(PacketType::PlayerInfoData) => match player_info_error(data) {
            Some(e) => ClientNote::Rejected(e),
            None => ClientNote::PlayerInfo,
        },
        Ok(kind) => ClientNote::Unhandled(kind),
    }
}

/// What the thread makes of an event in a state.
pub open spec fn event_note(state: ClientState, event: EventView) -> ClientNote {
    match state {
        ClientState::Connecting => match event {
            EventView::PeerConnected => ClientNote::Connected,
            EventView::PeerDisconnected(reason) => ClientNote::ConnectionRefused(reason),
            EventView::DataReceived(_) => ClientNote::DataBeforeConnection,
        },
        ClientState::Closing => ClientNote::Ignored,
        _ => match event {
            EventView::PeerConnected => ClientNote::UnexpectedPeer,
            EventView::PeerDisconnected(_) => ClientNote::Disconnected,
            EventView::DataReceived(data) => packet_note(data),
        },
    }
}

/// What the thread makes of word from the game thread in a state: a
/// message, or `None` for the news that the game thread is gone.
pub open spec fn outbound_note(state: ClientState, outbound: Option<MessageView>) -> ClientNote {
    match state {
        ClientState::Connecting => ClientNote::Ignored,
        ClientState::Closing => ClientNote::Ignored,
        _ => match outbound {
            None => ClientNote::MainGone,
            Some(MessageView::SendPlayerInfo(_)) => ClientNote::Sent,
            Some(_) => ClientNote::UnhandledMessage,
        },
    }
}

/// What the thread makes of a poll that yielded no event, after it has
/// waited `waited_ms` milliseconds for the connection and may wait
/// `timeout_ms` in all.
pub open spec fn idle_note(state: ClientState, waited_ms: u64, timeout_ms: u64) -> ClientNote {
    if state == ClientState::Connecting && waited_ms >= timeout_ms {
        ClientNote::ConnectionTimedOut
    } else {
        ClientNote::Ignored
    }
}

/// The state after a step that is noted as `note`.
pub open spec fn state_after(state: ClientState, note: ClientNote) -> ClientState {
    match note {
        ClientNote::Connected => ClientState::HandshakeSent,
        ClientNote::ConnectionRefused(_) => ClientState::Closing,
        ClientNote::ConnectionTimedOut => ClientState::Closing,
        ClientNote::DataBeforeConnection => ClientState::Closing,
        ClientNote::Disconnected => ClientState::Closing,
        ClientNote::MainGone => ClientState::Closing,
        ClientNote::PlayerInfo => ClientState::Synchronized,
        _ => state,
    }
}

/// The packets that a step hands to the session, in order: the handshake
/// when the connection stands, the player's record when the game thread
/// asks to send it, and nothing else.
pub open spec fn packets_sent(
    note: ClientNote,
    username: Seq<u8>,
    outbound: Option<MessageView>,
) -> Seq<Seq<u8>> {
    match note {
        ClientNote::Connected => seq![
            username_packet(PacketType::PlayerConnect, username),
            username_packet(PacketType::PlayerInfoRequest, username),
        ],
        ClientNote::Sent => seq![player_info_packet(outbound->Some_0->SendPlayerInfo_0)],
        _ => Seq::empty(),
    }
}

/// What a step has for the game thread.
pub open spec fn message_for_main(note: ClientNote, data: Seq<u8>) -> Option<MessageView> {
    match note {
        ClientNote::Connected => Some(MessageView::ConnectionEstablished),
        ClientNote::PlayerInfo => Some(MessageView::PlayerInfoReceived(player_info_of(data))),
        _ => None,
    }
}

/// One step of the networking thread.
#[derive(Clone, Debug, PartialEq, Eq)]
pub struct ClientStep {
    /// The state after the step.
    pub state: ClientState,
    /// The packets to send, in order.
    pub send: Vec<Outgoing>,
    /// The message to pass to the game thread, if any.
    pub to_main: Option<NetworkingMessage>,
    /// What was done.
    pub note: ClientNote,
}

impl ClientStep {
    /// The bytes of the packets to send, in order.
    pub open spec fn sent(&self) -> Seq<Seq<u8>> {
        Seq::new(self.send@.len(), |i: int| self.send@[i].bytes@)
    }

    /// Every packet goes out on the client's channel, reliably and in
    /// order.
    pub open spec fn sends_reliably(&self) -> bool {
        forall|i: int|
            0 <= i < self.send@.len() ==> (#[trigger] self.send@[i]).channel == CLIENT_CHANNEL
                && self.send@[i].mode == DeliveryMode::ReliableSequenced
    }

    /// The message for the game thread.
    pub open spec fn forwarded(&self) -> Option<MessageView> {
        match self.to_main {
            Some(m) => Some(m@),
            None => None,
        }
    }
}

/// A packet for the server, on the client's channel.
fn reliable(bytes: Vec<u8>) -> (out: Outgoing)
    ensures
        out.bytes == bytes,
        out.channel == CLIENT_CHANNEL,
        out.mode == DeliveryMode::ReliableSequenced,
{
    Outgoing { bytes, channel: CLIENT_CHANNEL, mode: DeliveryMode::ReliableSequenced }
}

/// A step that sends nothing and has nothing for the game thread.
fn quiet(state: ClientState, note: ClientNote) -> (step: ClientStep)
    ensures
        step.state == state,
        step.note == note,
        step.sent() == Seq::<Seq<u8>>::empty(),
        step.sends_reliably(),
        step.forwarded() is None,
{
    let step = ClientStep { state, send: Vec::new(), to_main: None, note };
    assert(step.sent() =~= Seq::<Seq<u8>>::empty());
    step
}

/// The bytes of the packet that an event carries, or none.
pub open spec fn event_data(event: EventView) -> Seq<u8> {
    match event {
        EventView::DataReceived(data) => data,
        _ => Seq::empty(),
    }
}

/// The step that answers an event of the session, for the player
/// `username`.
///
/// While connecting, the thread waits for the server: once it is reached,
/// the player is announced, their record is asked for, and the game thread
/// is told; a refusal or a packet ends the thread. Once connected, the
/// player's record from the server goes to the game thread, other packets
/// are noted and skipped, and the loss of the server ends the thread.
pub fn on_event(state: ClientState, event: &Event, username: &str) -> (step: ClientStep)
    ensures
        step.note == event_note(state, event_view(*event)),
        step.state == state_after(state, step.note),
        step.sent() == packets_sent(step.note, username.spec_bytes(), None),
        step.sends_reliably(),
        step.forwarded() == message_for_main(step.note, event_data(event_view(*event))),
{
    match state {
        ClientState::Closing => quiet(ClientState::Closing, ClientNote::Ignored),
        ClientState::Connecting => match event {
            Event::PeerConnected => {
                let mut send: Vec<Outgoing> = Vec::new();
                send.push(reliable(assemble_player_connect_info(username)));
                send.push(reliable(assemble_player_info_request(username)));
                let step = ClientStep {
                    state: ClientState::HandshakeSent,
                    send,
                    to_main: Some(NetworkingMessage::ConnectionEstablished),
                    note: ClientNote::Connected,
                };
                assert(step.sent() =~= packets_sent(step.note, username.spec_bytes(), None));
                step
            },
            Event::PeerDisconnected(reason) => quiet(
                ClientState::Closing,
                ClientNote::ConnectionRefused(*reason),
            ),
            Event::DataReceived { .. } => quiet(
                ClientState::Closing,
                ClientNote::DataBeforeConnection,
            ),
        },
        _ => match event {
            Event::PeerConnected => quiet(state, ClientNote::UnexpectedPeer),
            Event::PeerDisconnected(_) => quiet(ClientState::Closing, ClientNote::Disconnected),
            Event::DataReceived { bytes, .. } => on_packet(state, bytes.as_slice()),
        },
    }
}

/// The step that answers a packet from the server, once connected.
fn on_packet(state: ClientState, data: &[u8]) -> (step: ClientStep)
    ensures
        step.note == packet_note(data@),
        step.state == state_after(state, step.note),
        step.sent() == Seq::<Seq<u8>>::empty(),
        step.sends_reliably(),
        step.forwarded() == message_for_main(step.note, data@),
{
    let kind = match packet_type(data) {
        Ok(kind) => kind,
        Err(e) => {
            return quiet(state, ClientNote::Rejected(e));
        },
    };
    match kind {
        PacketType::PlayerInfoData => match parse_player_info_data(data) {
            Ok(player) => {
                let step = ClientStep {
                    state: ClientState::Synchronized,
                    send: Vec::new(),
                    to_main: Some(NetworkingMessage::PlayerInfoReceived(player)),
                    note: ClientNote::PlayerInfo,
                };
                assert(step.sent() =~= Seq::<Seq<u8>>::empty());
                step
            },
            Err(e) => quiet(state, ClientNote::Rejected(e)),
        },
        _ => quiet(state, ClientNote::Unhandled(kind)),
    }
}

/// The step that answers a poll of the session that yielded no event.
///
/// While connecting, the thread gives up once it has waited `waited_ms`
/// milliseconds and that is no less than `timeout_ms`. In every other state
/// a poll without an event asks for nothing.
pub fn on_idle(state: ClientState, waited_ms: u64, timeout_ms: u64) -> (step: ClientStep)
    ensures
        step.note == idle_note(state, waited_ms, timeout_ms),
        step.state == state_after(state, step.note),
        step.sent() == Seq::<Seq<u8>>::empty(),
        step.sends_reliably(),
        step.forwarded() is None,
{
    match state {
        ClientState::Connecting => if waited_ms >= timeout_ms {
            quiet(ClientState::Closing, ClientNote::ConnectionTimedOut)
        } else {
            quiet(state, ClientNote::Ignored)
        },
        _ => quiet(state, ClientNote::Ignored),
    }
}

/// Word from the game thread: a message, or the news that it is gone.
#[derive(Clone, Debug, PartialEq, Eq)]
pub enum Outbound {
    Message(NetworkingMessage),
    Closed,
}

/// The message that word from the game thread holds, if it holds one.
pub open spec fn outbound_view(outbound: Outbound) -> Option<MessageView> {
    match outbound {
        Outbound::Message(m) => Some(m@),
        Outbound::Closed => None,
    }
}

/// The step that answers word from the game thread.
///
/// Once connected, a player's record that the game thread asks to send is
/// sent to the server, other messages are noted and skipped, and the loss
/// of the game thread ends the networking thread. Before that, and while
/// closing, nothing is done.
pub fn on_outbound(state: ClientState, outbound: Outbound) -> (step: ClientStep)
    ensures
        step.note == outbound_note(state, outbound_view(outbound)),
        step.state == state_after(state, step.note),
        step.sent() == packets_sent(step.note, Seq::empty(), outbound_view(outbound)),
        step.sends_reliably(),
        step.forwarded() is None,
{
    match state {
        ClientState::Connecting => quiet(state, ClientNote::Ignored),
        ClientState::Closing => quiet(state, ClientNote::Ignored),
        _ => match outbound {
            Outbound::Closed => quiet(ClientState::Closing, ClientNote::MainGone),
            Outbound::Message(NetworkingMessage::SendPlayerInfo(player)) => {
                let mut send: Vec<Outgoing> = Vec::new();
                send.push(reliable(assemble_player_info_data(&player)));
                let step = ClientStep { state, send, to_main: None, note: ClientNote::Sent };
                assert(step.sent() =~= seq![player_info_packet(player@)]);
                step
            },
            Outbound::Message(_) => quiet(state, ClientNote::UnhandledMessage),
        },
    }
}

/// Closing is final: no event and no word from the game thread leads out of
/// it, sends anything or reaches the game thread.
pub proof fn lemma_closing_is_final(event: EventView, outbound: Option<MessageView>)
    ensures
        state_after(ClientState::Closing, event_note(ClientState::Closing, event))
            == ClientState::Closing,
        state_after(ClientState::Closing, outbound_note(ClientState::Closing, outbound))
            == ClientState::Closing,
        packets_sent(event_note(ClientState::Closing, event), Seq::empty(), None).len() == 0,
        packets_sent(outbound_note(ClientState::Closing, outbound), Seq::empty(), outbound).len()
            == 0,
{
}

} // verus!
