use voxel_core::chunk::ColumnPosition;
use voxel_core::connection::{
    on_event, on_idle, on_outbound, ClientNote, ClientState, NetworkingMessage, Outbound,
};
use voxel_core::items::ItemManager;
use voxel_core::contents::parse_chunk_contents;
use voxel_core::packets::{
    assemble_chunk_request, assemble_player_connect_info, assemble_player_info_data,
    assemble_player_info_request, PacketType, ProtocolError,
};
use voxel_core::player_data::{Player, Real2, Real3};
use voxel_core::server::Server;
use voxel_core::transport::{
    DeliveryMode, Event, Outgoing, CLIENT_CHANNEL, DEFAULT_PORT, POLL_TIMEOUT_MS,
};
use voxel_core::world::World;

fn ethan() -> Player {
    Player {
        username: "ethan".to_string(),
        position: Real3 { x: 1.0f32.to_bits(), y: 2.0f32.to_bits(), z: 3.0f32.to_bits() },
        rotation: Real2 { x: 0.5f32.to_bits(), y: (-0.5f32).to_bits() },
    }
}

fn data(bytes: Vec<u8>) -> Event {
    Event::DataReceived { bytes, channel: CLIENT_CHANNEL }
}

fn reliable(bytes: Vec<u8>) -> Outgoing {
    Outgoing { bytes, channel: CLIENT_CHANNEL, mode: DeliveryMode::ReliableSequenced }
}

const CONNECTED: [ClientState; 2] = [ClientState::HandshakeSent, ClientState::Synchronized];

#[test]
fn defaults_of_the_session() {
    assert_eq!(DEFAULT_PORT, 1234);
    assert_eq!(POLL_TIMEOUT_MS, 1000);
    assert_eq!(CLIENT_CHANNEL, 1);
}

#[test]
fn connection_starts_the_handshake() {
    let step = on_event(ClientState::Connecting, &Event::PeerConnected, "ethan");
    assert_eq!(step.state, ClientState::HandshakeSent);
    assert_eq!(step.note, ClientNote::Connected);
    assert_eq!(
        step.send,
        vec![
            reliable(assemble_player_connect_info("ethan")),
            reliable(assemble_player_info_request("ethan")),
        ]
    );
    assert_eq!(step.to_main, Some(NetworkingMessage::ConnectionEstablished));
}

#[test]
fn refusal_before_the_connection_ends_the_thread() {
    let step = on_event(ClientState::Connecting, &Event::PeerDisconnected(4), "ethan");
    assert_eq!(step.state, ClientState::Closing);
    assert_eq!(step.note, ClientNote::ConnectionRefused(4));
    assert!(step.send.is_empty());
    assert_eq!(step.to_main, None);
}

#[test]
fn data_before_the_connection_ends_the_thread() {
    let step = on_event(ClientState::Connecting, &data(vec![3]), "ethan");
    assert_eq!(step.state, ClientState::Closing);
    assert_eq!(step.note, ClientNote::DataBeforeConnection);
    assert!(step.send.is_empty());
    assert_eq!(step.to_main, None);
}

#[test]
fn connecting_gives_up_when_the_time_is_over() {
    let step = on_idle(ClientState::Connecting, 4000, 5000);
    assert_eq!(step.state, ClientState::Connecting);
    assert_eq!(step.note, ClientNote::Ignored);
    assert!(step.send.is_empty());
    for waited in [5000, 5001, u64::MAX] {
        let step = on_idle(ClientState::Connecting, waited, 5000);
        assert_eq!(step.state, ClientState::Closing);
        assert_eq!(step.note, ClientNote::ConnectionTimedOut);
        assert!(step.send.is_empty());
        assert_eq!(step.to_main, None);
    }
    let step = on_idle(ClientState::Connecting, 0, 0);
    assert_eq!(step.note, ClientNote::ConnectionTimedOut);
}

#[test]
fn idle_polls_ask_for_nothing_once_connected() {
    for state in [ClientState::HandshakeSent, ClientState::Synchronized, ClientState::Closing] {
        let step = on_idle(state, u64::MAX, 0);
        assert_eq!(step.state, state);
        assert_eq!(step.note, ClientNote::Ignored);
        assert!(step.send.is_empty());
        assert_eq!(step.to_main, None);
    }
}

#[test]
fn player_info_synchronises_and_reaches_the_game_thread() {
    for state in CONNECTED {
        let step = on_event(state, &data(assemble_player_info_data(&ethan())), "ethan");
        assert_eq!(step.state, ClientState::Synchronized);
        assert_eq!(step.note, ClientNote::PlayerInfo);
        assert!(step.send.is_empty());
        assert_eq!(step.to_main, Some(NetworkingMessage::PlayerInfoReceived(ethan())));
    }
}

#[test]
fn other_packets_are_noted_as_unhandled() {
    for state in CONNECTED {
        let step = on_event(state, &data(assemble_player_connect_info("x")), "ethan");
        assert_eq!(step.state, state);
        assert_eq!(step.note, ClientNote::Unhandled(PacketType::PlayerConnect));
        assert!(step.send.is_empty());
        assert_eq!(step.to_main, None);
        let step = on_event(state, &data(vec![6]), "ethan");
        assert_eq!(step.note, ClientNote::Unhandled(PacketType::ChunkContents));
        assert_eq!(step.state, state);
    }
}

#[test]
fn malformed_packets_are_skipped() {
    for state in CONNECTED {
        let step = on_event(state, &data(vec![99, 1, 2]), "ethan");
        assert_eq!(step.state, state);
        assert_eq!(step.note, ClientNote::Rejected(ProtocolError::UnknownType(99)));
        let step = on_event(state, &data(vec![]), "ethan");
        assert_eq!(step.note, ClientNote::Rejected(ProtocolError::Truncated));
        let step = on_event(state, &data(vec![3, 0, 0]), "ethan");
        assert_eq!(step.state, state);
        assert_eq!(step.note, ClientNote::Rejected(ProtocolError::Truncated));
        assert!(step.send.is_empty());
        assert_eq!(step.to_main, None);
    }
}

#[test]
fn a_peer_that_connects_to_the_client_is_noted() {
    for state in CONNECTED {
        let step = on_event(state, &Event::PeerConnected, "ethan");
        assert_eq!(step.state, state);
        assert_eq!(step.note, ClientNote::UnexpectedPeer);
        assert!(step.send.is_empty());
        assert_eq!(step.to_main, None);
    }
}

#[test]
fn loss_of_the_server_closes() {
    for state in CONNECTED {
        let step = on_event(state, &Event::PeerDisconnected(0), "ethan");
        assert_eq!(step.state, ClientState::Closing);
        assert_eq!(step.note, ClientNote::Disconnected);
        assert!(step.send.is_empty());
        assert_eq!(step.to_main, None);
    }
}

#[test]
fn player_info_from_the_game_thread_is_sent() {
    for state in CONNECTED {
        let step = on_outbound(state, Outbound::Message(NetworkingMessage::SendPlayerInfo(ethan())));
        assert_eq!(step.state, state);
        assert_eq!(step.note, ClientNote::Sent);
        assert_eq!(step.send, vec![reliable(assemble_player_info_data(&ethan()))]);
        assert_eq!(step.to_main, None);
    }
}

#[test]
fn other_messages_from_the_game_thread_are_noted() {
    for state in CONNECTED {
        for message in [
            NetworkingMessage::ConnectionEstablished,
            NetworkingMessage::PlayerInfoReceived(ethan()),
        ] {
            let step = on_outbound(state, Outbound::Message(message));
            assert_eq!(step.state, state);
            assert_eq!(step.note, ClientNote::UnhandledMessage);
            assert!(step.send.is_empty());
            assert_eq!(step.to_main, None);
        }
    }
}

#[test]
fn loss_of_the_game_thread_closes() {
    for state in CONNECTED {
        let step = on_outbound(state, Outbound::Closed);
        assert_eq!(step.state, ClientState::Closing);
        assert_eq!(step.note, ClientNote::MainGone);
        assert!(step.send.is_empty());
    }
}

#[test]
fn nothing_is_sent_before_the_connection_stands() {
    let message = Outbound::Message(NetworkingMessage::SendPlayerInfo(ethan()));
    let step = on_outbound(ClientState::Connecting, message);
    assert_eq!(step.state, ClientState::Connecting);
    assert_eq!(step.note, ClientNote::Ignored);
    assert!(step.send.is_empty());
    let step = on_outbound(ClientState::Connecting, Outbound::Closed);
    assert_eq!(step.state, ClientState::Connecting);
    assert_eq!(step.note, ClientNote::Ignored);
}

#[test]
fn closing_is_final() {
    for event in [
        Event::PeerConnected,
        Event::PeerDisconnected(1),
        data(assemble_player_info_data(&ethan())),
    ] {
        let step = on_event(ClientState::Closing, &event, "ethan");
        assert_eq!(step.state, ClientState::Closing);
        assert_eq!(step.note, ClientNote::Ignored);
        assert!(step.send.is_empty());
        assert_eq!(step.to_main, None);
    }
    for outbound in [
        Outbound::Closed,
        Outbound::Message(NetworkingMessage::SendPlayerInfo(ethan())),
    ] {
        let step = on_outbound(ClientState::Closing, outbound);
        assert_eq!(step.state, ClientState::Closing);
        assert_eq!(step.note, ClientNote::Ignored);
        assert!(step.send.is_empty());
    }
}

/// Hands every packet that the client sends to the server, and every reply
/// of the server to the client.
fn exchange(
    server: &mut Server,
    state: ClientState,
    send: Vec<Outgoing>,
) -> (ClientState, Vec<NetworkingMessage>) {
    let mut state = state;
    let mut to_main = Vec::new();
    for out in send {
        let event = Event::DataReceived { bytes: out.bytes, channel: out.channel };
        if let Some(reply) = server.on_event(&event).send {
            assert_eq!(reply.channel, CLIENT_CHANNEL);
            let step = on_event(state, &data(reply.bytes), "ethan");
            state = step.state;
            to_main.extend(step.to_main);
        }
    }
    (state, to_main)
}

#[test]
fn client_and_server_synchronise_the_player() {
    let mut world = World::new(ItemManager::new(), 4);
    let stored = ethan();
    world.set_user_data("ethan", stored.position, stored.rotation);
    let mut server = Server::new(world);
    server.on_event(&Event::PeerConnected);

    let step = on_event(ClientState::Connecting, &Event::PeerConnected, "ethan");
    assert_eq!(step.to_main, Some(NetworkingMessage::ConnectionEstablished));
    let (state, to_main) = exchange(&mut server, step.state, step.send);
    assert_eq!(state, ClientState::Synchronized);
    assert_eq!(to_main, vec![NetworkingMessage::PlayerInfoReceived(stored)]);

    let mut moved = ethan();
    moved.position.x = 9.0f32.to_bits();
    let step = on_outbound(state, Outbound::Message(NetworkingMessage::SendPlayerInfo(moved.clone())));
    let (state, to_main) = exchange(&mut server, step.state, step.send);
    assert_eq!(state, ClientState::Synchronized);
    assert!(to_main.is_empty());
    assert_eq!(server.world.get_user_data("ethan"), moved);
}

#[test]
fn client_asks_for_a_column_and_reads_the_contents() {
    let mut world = World::new(ItemManager::new(), 3);
    assert!(world.set_block(voxel_core::chunk::GridPosition { x: 1, y: 20, z: 2 }, 5));
    let mut server = Server::new(world);
    let request = assemble_chunk_request(ColumnPosition { x: 0, z: 0 });
    let step = server.on_event(&Event::DataReceived { bytes: request, channel: 1 });
    let reply = step.send.unwrap();
    let chunks = parse_chunk_contents(&reply.bytes).unwrap();
    assert_eq!(chunks.len(), 3);
    assert_eq!(chunks[1].get_block(1, 4, 2), 5);
    assert_eq!(chunks[0].compress().len(), 1);
    // The client has no use for the contents yet and notes them as such.
    let step = on_event(ClientState::Synchronized, &data(reply.bytes), "ethan");
    assert_eq!(step.note, ClientNote::Unhandled(PacketType::ChunkContents));
}
