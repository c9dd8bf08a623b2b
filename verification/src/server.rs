//! The decisions of the server's event loop: what a packet from a client
//! does to the world, and what is sent back.
//!
//! The loop itself polls the transport session, hands each event to
//! [`Server::on_event`], sends what comes back on the channel the packet
//! arrived on, and writes the note to its log.

use vstd::prelude::*;
use vstd::utf8::decode_utf8;
use crate::chunk::{ColumnPosition, GridPosition};
use crate::contents::{assemble_chunk_contents_packet, chunk_contents_packet};
use crate::packets::{
    assemble_player_info_data,
    chunk_request_error,
    chunk_request_of,
    chunk_update_error,
    chunk_update_of,
    packet_kind,
    packet_type,
    parse_chunk_request,
    parse_chunk_update,
    parse_player_info_data,
    parse_username,
    player_info_error,
    player_info_of,
    player_info_packet,
    username_error,
    username_region,
    ChunkUpdate,
    PacketType,
    ProtocolError,
    UpdateRequest,
};
use crate::transport::{DeliveryMode, Event, Outgoing};
use crate::world::{
    column_of,
    lemma_block_in_loaded_column,
    lemma_loading_keeps_blocks,
    lemma_loading_keeps_column,
    with_block,
    with_column,
    with_player,
    with_player_state,
    world_block,
    world_column,
    world_player,
    World,
    WorldView,
};

verus! {

/// What became of a chunk update.
#[derive(Copy, Clone, Debug, PartialEq, Eq, Structural)]
pub enum UpdateOutcome {
    /// The block was placed.
    Placed,
    /// Nothing was placed: the cell already holds the block of this id.
    Occupied(i32),
    /// The block was destroyed.
    Destroyed,
    /// Nothing was destroyed: the cell is empty.
    AlreadyEmpty(i32),
    /// Nothing was done: the position lies below or above the world.
    OutOfWorld,
    /// Nothing was placed: the id is larger than any block id.
    InvalidBlockId(u32),
    /// Nothing was done: the action byte names no action.
    UnknownAction(u8),
}

/// What becomes of a request to change a cell that holds `existing`:
/// placing needs an empty cell, destroying a block that is there.
pub open spec fn update_outcome(existing: Option<i32>, request: UpdateRequest) -> UpdateOutcome {
    match request {
        UpdateRequest::Unknown(action) => UpdateOutcome::UnknownAction(action),
        UpdateRequest::Place(id) => match existing {
            None => UpdateOutcome::OutOfWorld,
            Some(e) => if e > 0 {
                UpdateOutcome::Occupied(e)
            } else if id > i32::MAX {
                UpdateOutcome::InvalidBlockId(id)
            } else {
                UpdateOutcome::Placed
            },
        },
        UpdateRequest::Destroy => match existing {
            None => UpdateOutcome::OutOfWorld,
            Some(e) => if e < 1 {
                UpdateOutcome::AlreadyEmpty(e)
            } else {
                UpdateOutcome::Destroyed
            },
        },
    }
}

/// The world after a chunk update: the column of the block is loaded, and
/// the block is changed if the update is accepted.
pub open spec fn world_after_update(w: WorldView, update: ChunkUpdate) -> WorldView {
    match update_outcome(world_block(w, update.position), update.request) {
        UpdateOutcome::Placed => with_block(
            w,
            update.position,
            update.request->Place_0 as i32,
        ),
        UpdateOutcome::Destroyed => with_block(w, update.position, 0),
        _ => with_column(w, column_of(update.position)),
    }
}

/// Checks a chunk update against the block that is there, and carries it
/// out if it is accepted.
pub fn apply_chunk_update(world: &mut World, update: &ChunkUpdate) -> (outcome: UpdateOutcome)
    ensures
        outcome == update_outcome(world_block(old(world)@, update.position), update.request),
        final(world)@ == world_after_update(old(world)@, *update),
        final(world).spec_item_manager() == old(world).spec_item_manager(),
        crate::world::world_is_valid(final(world)@),
{
    let column = World::world_to_column_position(update.position.x, update.position.z);
    let at = world.get_column(column);
    let existing = world.column_at(at).get_block(update.position);
    proof {
        lemma_loading_keeps_column(old(world)@, column);
    }
    match update.request {
        UpdateRequest::Unknown(action) => UpdateOutcome::UnknownAction(action),
        UpdateRequest::Place(id) => match existing {
            None => UpdateOutcome::OutOfWorld,
            Some(e) => if e > 0 {
                UpdateOutcome::Occupied(e)
            } else if id > 0x7fff_ffff {
                UpdateOutcome::InvalidBlockId(id)
            } else {
                world.set_block(update.position, id as i32);
                proof {
                    lemma_block_in_loaded_column(old(world)@, update.position, id as i32);
                }
                UpdateOutcome::Placed
            },
        },
        UpdateRequest::Destroy => match existing {
            None => UpdateOutcome::OutOfWorld,
            Some(e) => if e < 1 {
                UpdateOutcome::AlreadyEmpty(e)
            } else {
                world.set_block(update.position, 0);
                proof {
                    lemma_block_in_loaded_column(old(world)@, update.position, 0);
                }
                UpdateOutcome::Destroyed
            },
        },
    }
}

/// What the server did with an event, for its log.
#[derive(Copy, Clone, Debug, PartialEq, Eq, Structural)]
pub enum ServerNote {
    /// A peer has connected to the session.
    PeerConnected,
    /// A peer has connected while another was connected already. The server
    /// expects one peer at a time; it goes on all the same.
    ExtraPeerConnected,
    /// A peer has left the session.
    PeerDisconnected,
    /// The named player has announced themselves.
    PlayerConnected,
    /// The named player has announced that they leave.
    PlayerLeft,
    /// The record of the named player was sent.
    PlayerInfoSent,
    /// The record of the named player was brought up to date.
    PlayerInfoStored,
    /// The contents of a column were sent on request.
    ColumnSent(ColumnPosition),
    /// A chunk update was dealt with, and the contents of its column sent.
    ChunkUpdated(UpdateOutcome),
    /// A client sent chunk contents, which only the server may. Ignored.
    ContentsFromClient,
    /// The packet was malformed. Skipped.
    Rejected(ProtocolError),
}

/// What the server answers to a packet.
#[derive(Clone, Debug, PartialEq, Eq)]
pub struct Response {
    /// The packet to send back, if any.
    pub reply: Option<Vec<u8>>,
    /// What was done.
    pub note: ServerNote,
    /// The player that the packet named, if it named one.
    pub username: Option<String>,
}

/// The bytes of an optional packet.
pub open spec fn packet_view(packet: Option<Vec<u8>>) -> Option<Seq<u8>> {
    match packet {
        Some(bytes) => Some(bytes@),
        None => None,
    }
}

/// The characters of an optional name.
pub open spec fn name_view(name: Option<String>) -> Option<Seq<char>> {
    match name {
        Some(name) => Some(name@),
        None => None,
    }
}

/// What the server does with a packet, for its log.
pub open spec fn note_for(w: WorldView, data: Seq<u8>) -> ServerNote {
    match packet_kind(data) {
        Err(e) => ServerNote::Rejected(e),
        Ok(PacketType::PlayerConnect) => match username_error(data, PacketType::PlayerConnect) {
            Some(e) => ServerNote::Rejected(e),
            None => ServerNote::PlayerConnected,
        },
        Ok(PacketType::PlayerDisconnect) => match username_error(
            data,
            PacketType::PlayerDisconnect,
        ) {
            Some(e) => ServerNote::Rejected(e),
            None => ServerNote::PlayerLeft,
        },
        Ok(PacketType::PlayerInfoRequest) => match username_error(
            data,
            PacketType::PlayerInfoRequest,
        ) {
            Some(e) => ServerNote::Rejected(e),
            None => ServerNote::PlayerInfoSent,
        },
        Ok(PacketType::PlayerInfoData) => match player_info_error(data) {
            Some(e) => ServerNote::Rejected(e),
            None => ServerNote::PlayerInfoStored,
        },
        Ok(PacketType::ChunkRequest) => match chunk_request_error(data) {
            Some(e) => ServerNote::Rejected(e),
            None => ServerNote::ColumnSent(chunk_request_of(data)),
        },
        Ok(PacketType::ChunkUpdate) => match chunk_update_error(data) {
            Some(e) => ServerNote::Rejected(e),
            None => ServerNote::ChunkUpdated(
                update_outcome(
                    world_block(w, chunk_update_of(data).position),
                    chunk_update_of(data).request,
                ),
            ),
        },
        Ok(PacketType::ChunkContents) => ServerNote::ContentsFromClient,
    }
}

/// The player that a packet names, where the packet is well-formed and of a
/// kind that names one.
pub open spec fn named_player(w: WorldView, data: Seq<u8>) -> Option<Seq<char>> {
    match note_for(w, data) {
        ServerNote::PlayerConnected => Some(decode_utf8(username_region(data))),
        ServerNote::PlayerLeft => Some(decode_utf8(username_region(data))),
        ServerNote::PlayerInfoSent => Some(decode_utf8(username_region(data))),
        ServerNote::PlayerInfoStored => Some(player_info_of(data).username),
        _ => None,
    }
}

/// The world after the server has dealt with a packet. A request for a
/// player's record makes the record if there was none; a player's record
/// from the client replaces position and rotation of the one kept; a chunk
/// request loads the column; a chunk update loads the column and changes
/// the block if it is accepted. Nothing else changes the world.
pub open spec fn world_after(w: WorldView, data: Seq<u8>) -> WorldView {
    match note_for(w, data) {
        ServerNote::PlayerInfoSent => with_player(w, decode_utf8(username_region(data))),
        ServerNote::PlayerInfoStored => with_player_state(
            w,
            player_info_of(data).username,
            player_info_of(data).position,
            player_info_of(data).rotation,
        ),
        ServerNote::ColumnSent(column) => with_column(w, column),
        ServerNote::ChunkUpdated(_) => world_after_update(w, chunk_update_of(data)),
        _ => w,
    }
}

/// The packet that the server sends back. A request for a player's record
/// is answered with the record; a chunk request with the contents of the
/// column; a chunk update, accepted or not, with the contents of the
/// block's column as they are afterwards. Nothing else is answered.
pub open spec fn reply_to(w: WorldView, data: Seq<u8>) -> Option<Seq<u8>> {
    match note_for(w, data) {
        ServerNote::PlayerInfoSent => Some(
            player_info_packet(world_player(w, decode_utf8(username_region(data)))),
        ),
        ServerNote::ColumnSent(column) => Some(chunk_contents_packet(world_column(w, column))),
        ServerNote::ChunkUpdated(_) => Some(
            chunk_contents_packet(
                world_column(
                    world_after_update(w, chunk_update_of(data)),
                    column_of(chunk_update_of(data).position),
                ),
            ),
        ),
        _ => None,
    }
}

/// A response without a reply.
fn silent(note: ServerNote, username: Option<String>) -> (r: Response)
    ensures
        r.reply is None,
        r.note == note,
        r.username == username,
{
    Response { reply: None, note, username }
}

/// Deals with one packet from a client: changes the world as the packet
/// asks, and returns the reply and a note of what was done. A malformed
/// packet changes nothing and is noted as rejected.
pub fn handle_packet(world: &mut World, data: &[u8]) -> (r: Response)
    ensures
        r.note == note_for(old(world)@, data@),
        packet_view(r.reply) == reply_to(old(world)@, data@),
        name_view(r.username) == named_player(old(world)@, data@),
        final(world)@ == world_after(old(world)@, data@),
        final(world).spec_item_manager() == old(world).spec_item_manager(),
        crate::world::world_is_valid(final(world)@),
{
    proof {
        use_type_invariant(&*world);
        world.lemma_valid();
    }
    let kind = match packet_type(data) {
        Ok(kind) => kind,
        Err(e) => {
            return silent(ServerNote::Rejected(e), None);
        },
    };
    match kind {
        PacketType::PlayerConnect => match parse_username(PacketType::PlayerConnect, data) {
            Ok(name) => silent(ServerNote::PlayerConnected, Some(name)),
            Err(e) => silent(ServerNote::Rejected(e), None),
        },
        PacketType::PlayerDisconnect => match parse_username(PacketType::PlayerDisconnect, data) {
            Ok(name) => silent(ServerNote::PlayerLeft, Some(name)),
            Err(e) => silent(ServerNote::Rejected(e), None),
        },
        PacketType::PlayerInfoRequest => match parse_username(
            PacketType::PlayerInfoRequest,
            data,
        ) {
            Ok(name) => {
                let player = world.get_user_data(name.as_str());
                let packet_data = assemble_player_info_data(&player);
                Response {
                    reply: Some(packet_data),
                    note: ServerNote::PlayerInfoSent,
                    username: Some(name),
                }
            },
            Err(e) => silent(ServerNote::Rejected(e), None),
        },
        PacketType::PlayerInfoData => match parse_player_info_data(data) {
            Ok(player) => {
                world.set_user_data(player.username.as_str(), player.position, player.rotation);
                silent(ServerNote::PlayerInfoStored, Some(player.username))
            },
            Err(e) => silent(ServerNote::Rejected(e), None),
        },
        PacketType::ChunkRequest => match parse_chunk_request(data) {
            Ok(column) => {
                let at = world.get_column(column);
                let packet_data = assemble_chunk_contents_packet(world.column_at(at));
                Response {
                    reply: Some(packet_data),
                    note: ServerNote::ColumnSent(column),
                    username: None,
                }
            },
            Err(e) => silent(ServerNote::Rejected(e), None),
        },
        PacketType::ChunkUpdate => match parse_chunk_update(data) {
            Ok(update) => {
                let outcome = apply_chunk_update(world, &update);
                let at = world.get_column(
                    World::world_to_column_position(update.position.x, update.position.z),
                );
                proof {
                    lemma_update_loads_column(old(world)@, update);
                }
                let packet_data = assemble_chunk_contents_packet(world.column_at(at));
                Response {
                    reply: Some(packet_data),
                    note: ServerNote::ChunkUpdated(outcome),
                    username: None,
                }
            },
            Err(e) => silent(ServerNote::Rejected(e), None),
        },
        PacketType::ChunkContents => silent(ServerNote::ContentsFromClient, None),
    }
}

/// After a chunk update the column of the block is loaded.
pub proof fn lemma_update_loads_column(w: WorldView, update: ChunkUpdate)
    ensures
        crate::world::column_loaded(
            world_after_update(w, update),
            column_of(update.position),
        ),
        with_column(world_after_update(w, update), column_of(update.position))
            == world_after_update(w, update),
{
    let column = column_of(update.position);
    let loaded = with_column(w, column);
    let after = world_after_update(w, update);
    let i = crate::world::column_index(w, column);
    lemma_loading_keeps_column(w, column);
    assert(crate::world::is_column_index(loaded, column, i));
    assert(after.columns.len() == loaded.columns.len());
    assert forall|j: int| 0 <= j < after.columns.len() implies (#[trigger] after.columns[j]).position
        == loaded.columns[j].position by {}
    assert(crate::world::is_column_index(after, column, i));
}

/// What the server answers to an event of the session.
#[derive(Clone, Debug, PartialEq, Eq)]
pub struct ServerStep {
    /// The packet to send back, if any, with the channel and the mode.
    pub send: Option<Outgoing>,
    /// What was done.
    pub note: ServerNote,
    /// The player that the packet named, if it named one.
    pub username: Option<String>,
}

/// The server: its world, and whether a peer is connected to its session.
#[derive(Debug)]
pub struct Server {
    pub world: World,
    pub peer_connected: bool,
}

/// What the server notes when a peer connects.
pub open spec fn connect_note(peer_connected: bool) -> ServerNote {
    if peer_connected {
        ServerNote::ExtraPeerConnected
    } else {
        ServerNote::PeerConnected
    }
}

impl Server {
    /// A server for `world`, with no peer connected.
    pub fn new(world: World) -> (server: Server)
        ensures
            server.world == world,
            !server.peer_connected,
    {
        Server { world, peer_connected: false }
    }

    /// Deals with one event of the transport session.
    ///
    /// A peer that connects or disconnects is noted, and leaves the world as
    /// it is. A packet is dealt with as [`handle_packet`] says; the reply,
    /// if there is one, goes back on the channel on which the packet
    /// arrived, reliably and in order.
    pub fn on_event(&mut self, event: &Event) -> (r: ServerStep)
        ensures
            match *event {
                Event::PeerConnected => {
                    &&& r.send is None
                    &&& r.note == connect_note(old(self).peer_connected)
                    &&& r.username is None
                    &&& final(self).world@ == old(self).world@
                    &&& final(self).peer_connected
                },
                Event::PeerDisconnected(_) => {
                    &&& r.send is None
                    &&& r.note == ServerNote::PeerDisconnected
                    &&& r.username is None
                    &&& final(self).world@ == old(self).world@
                    &&& !final(self).peer_connected
                },
                Event::DataReceived { bytes, channel } => {
                    &&& r.note == note_for(old(self).world@, bytes@)
                    &&& name_view(r.username) == named_player(old(self).world@, bytes@)
                    &&& final(self).world@ == world_after(old(self).world@, bytes@)
                    &&& final(self).peer_connected == old(self).peer_connected
                    &&& match r.send {
                        Some(out) => reply_to(old(self).world@, bytes@) == Some(out.bytes@)
                            && out.channel == channel && out.mode
                            == DeliveryMode::ReliableSequenced,
                        None => reply_to(old(self).world@, bytes@) is None,
                    }
                },
            },
            final(self).world.spec_item_manager() == old(self).world.spec_item_manager(),
    {
        match event {
            Event::PeerConnected => {
                let note = if self.peer_connected {
                    ServerNote::ExtraPeerConnected
                } else {
                    ServerNote::PeerConnected
                };
                self.peer_connected = true;
                ServerStep { send: None, note, username: None }
            },
            Event::PeerDisconnected(_) => {
                self.peer_connected = false;
                ServerStep { send: None, note: ServerNote::PeerDisconnected, username: None }
            },
            Event::DataReceived { bytes, channel } => {
                let response = handle_packet(&mut self.world, bytes.as_slice());
                let send = match response.reply {
                    Some(reply) => Some(
                        Outgoing {
                            bytes: reply,
                            channel: *channel,
                            mode: DeliveryMode::ReliableSequenced,
                        },
                    ),
                    None => None,
                };
                ServerStep { send, note: response.note, username: response.username }
            },
        }
    }
}

/// A chunk update that is refused, for whatever reason, leaves every cell
/// of the world as it was, and is still answered with the contents of the
/// block's column.
pub proof fn lemma_refused_update_changes_no_block(w: WorldView, data: Seq<u8>, q: GridPosition)
    requires
        note_for(w, data) matches ServerNote::ChunkUpdated(outcome) && outcome
            != UpdateOutcome::Placed && outcome != UpdateOutcome::Destroyed,
    ensures
        world_block(world_after(w, data), q) == world_block(w, q),
        world_after(w, data).players == w.players,
        reply_to(w, data) == Some(
            chunk_contents_packet(world_column(w, column_of(chunk_update_of(data).position))),
        ),
{
    let column = column_of(chunk_update_of(data).position);
    lemma_loading_keeps_column(w, column);
    lemma_loading_keeps_blocks(w, column, q);
}

/// The update policy. A chunk update that places a block onto a cell that
/// holds a block, or that destroys the block of an empty cell, leaves that
/// cell and every other as they were, and is answered with the contents of
/// the block's column all the same.
pub proof fn lemma_update_policy(w: WorldView, data: Seq<u8>, q: GridPosition)
    requires
        packet_kind(data) == Ok::<PacketType, ProtocolError>(PacketType::ChunkUpdate),
        chunk_update_error(data) is None,
        world_block(w, chunk_update_of(data).position) matches Some(existing) && (match chunk_update_of(
            data,
        ).request {
            UpdateRequest::Place(_) => existing > 0,
            UpdateRequest::Destroy => existing <= 0,
            UpdateRequest::Unknown(_) => false,
        }),
    ensures
        world_block(world_after(w, data), q) == world_block(w, q),
        reply_to(w, data) == Some(
            chunk_contents_packet(world_column(w, column_of(chunk_update_of(data).position))),
        ),
{
    lemma_refused_update_changes_no_block(w, data, q);
}

/// A client that asks for the record of a player gets that record: the
/// request built for a name without a 0 byte is answered with a packet that
/// reads back as the record that the world holds under the name, or as a
/// fresh record if it holds none.
pub proof fn lemma_info_request_is_answered(w: WorldView, name: Seq<char>)
    requires
        !crate::packets::has_zero(vstd::utf8::encode_utf8(name)),
    ensures
        reply_to(
            w,
            crate::packets::username_packet(
                PacketType::PlayerInfoRequest,
                vstd::utf8::encode_utf8(name),
            ),
        ) == Some(player_info_packet(world_player(w, name))),
        player_info_error(player_info_packet(world_player(w, name))) is None,
        player_info_of(player_info_packet(world_player(w, name))) == world_player(w, name),
        world_player(w, name).username == name,
{
    crate::packets::lemma_username_round_trip(PacketType::PlayerInfoRequest, name);
    crate::packets::lemma_player_info_round_trip(world_player(w, name));
    if crate::world::player_known(w, name) {
        let i = crate::world::player_index(w, name);
        assert(crate::world::is_player_index(w, name, i));
    }
}

/// A client that asks for a column gets its contents: the request built for
/// a column is answered with a packet that reads back as the chunks of that
/// column, every one of them ended by the word -1.
pub proof fn lemma_chunk_request_is_answered(w: WorldView, column: ColumnPosition)
    requires
        crate::world::world_is_valid(w),
    ensures
        reply_to(w, crate::packets::chunk_request_packet(column)) == Some(
            chunk_contents_packet(world_column(w, column)),
        ),
        crate::contents::chunk_contents_of(chunk_contents_packet(world_column(w, column)))
            == Ok::<Seq<crate::contents::ChunkRecord>, ProtocolError>(
            crate::contents::column_records(world_column(w, column)),
        ),
{
    crate::packets::lemma_chunk_request_round_trip(column);
    crate::world::lemma_world_column_is_valid(w, column);
    crate::contents::lemma_chunk_contents_round_trip(world_column(w, column));
}

} // verus!
