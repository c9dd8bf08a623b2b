//! Packet kinds and the byte layout of every message on the wire.

use vstd::prelude::*;
use vstd::string::StringSliceAdditionalSpecFns;
use vstd::utf8::{decode_utf8, encode_utf8, valid_utf8};
use crate::chunk::{ColumnPosition, FormatError, GridPosition};
use crate::player_data::{Player, PlayerView, Real2, Real3};
use crate::wire::{i32_at, i32_bytes, put_i32, put_u32, read_i32, read_u32, u32_at, u32_bytes};

verus! {

/// The kind of a packet, carried in its first byte.
#[derive(Copy, Clone, Debug, PartialEq, Eq, Structural)]
pub enum PacketType {
    PlayerConnect,
    PlayerDisconnect,
    /// Asks the server for the stored record of a player.
    PlayerInfoRequest,
    /// A player's position and rotation, in either direction.
    PlayerInfoData,
    /// Asks the server for the contents of a chunk column.
    ChunkRequest,
    /// Asks the server to place or destroy one block.
    ChunkUpdate,
    /// The chunks of a column, run-length encoded; sent by the server only.
    ChunkContents,
}

impl PacketType {
    /// The byte that stands for this kind on the wire.
    pub open spec fn discriminant(self) -> u8 {
        match self {
            PacketType::PlayerConnect => 0,
            PacketType::PlayerDisconnect => 1,
            PacketType::PlayerInfoRequest => 2,
            PacketType::PlayerInfoData => 3,
            PacketType::ChunkRequest => 4,
            PacketType::ChunkUpdate => 5,
            PacketType::ChunkContents => 6,
        }
    }

    /// The kind that a first byte announces, if any.
    pub open spec fn of_discriminant(value: u8) -> Option<PacketType> {
        match value {
            0 => Some(PacketType::PlayerConnect),
            1 => Some(PacketType::PlayerDisconnect),
            2 => Some(PacketType::PlayerInfoRequest),
            3 => Some(PacketType::PlayerInfoData),
            4 => Some(PacketType::ChunkRequest),
            5 => Some(PacketType::ChunkUpdate),
            6 => Some(PacketType::ChunkContents),
            _ => None,
        }
    }

    /// Reads a packet kind from its wire byte; bytes above 6 name no kind.
    pub fn fromu8(value: u8) -> (r: Result<PacketType, ()>)
        ensures
            r is Ok <==> value <= 6,
            r is Ok ==> Some(r->Ok_0) == Self::of_discriminant(value),
            r is Ok ==> r->Ok_0.discriminant() == value,
    {
        match value {
            0 => Ok(PacketType::PlayerConnect),
            1 => Ok(PacketType::PlayerDisconnect),
            2 => Ok(PacketType::PlayerInfoRequest),
            3 => Ok(PacketType::PlayerInfoData),
            4 => Ok(PacketType::ChunkRequest),
            5 => Ok(PacketType::ChunkUpdate),
            6 => Ok(PacketType::ChunkContents),
            _ => Err(()),
        }
    }

    /// The wire byte of this kind.
    pub fn as_u8(self) -> (b: u8)
        ensures
            b == self.discriminant(),
            Self::of_discriminant(b) == Some(self),
    {
        match self {
            PacketType::PlayerConnect => 0,
            PacketType::PlayerDisconnect => 1,
            PacketType::PlayerInfoRequest => 2,
            PacketType::PlayerInfoData => 3,
            PacketType::ChunkRequest => 4,
            PacketType::ChunkUpdate => 5,
            PacketType::ChunkContents => 6,
        }
    }
}

/// What a chunk update asks for, as the action byte of the packet says it.
#[derive(Copy, Clone, Debug, PartialEq, Eq, Structural)]
pub enum ChunkUpdateType {
    PlaceBlockEvent,
    DestroyBlockEvent,
}

impl ChunkUpdateType {
    /// The action byte that stands for this kind of update.
    pub open spec fn discriminant(self) -> u8 {
        match self {
            ChunkUpdateType::PlaceBlockEvent => 0,
            ChunkUpdateType::DestroyBlockEvent => 1,
        }
    }

    /// The action byte of this kind of update.
    pub fn as_u8(self) -> (b: u8)
        ensures
            b == self.discriminant(),
    {
        match self {
            ChunkUpdateType::PlaceBlockEvent => 0,
            ChunkUpdateType::DestroyBlockEvent => 1,
        }
    }

    /// Reads the kind of update from an action byte; bytes above 1 name none.
    pub fn fromu8(value: u8) -> (r: Result<ChunkUpdateType, ()>)
        ensures
            r is Ok <==> value <= 1,
            r is Ok ==> r->Ok_0.discriminant() == value,
    {
        match value {
            0 => Ok(ChunkUpdateType::PlaceBlockEvent),
            1 => Ok(ChunkUpdateType::DestroyBlockEvent),
            _ => Err(()),
        }
    }
}

/// Why a byte sequence is not the packet it was taken for.
#[derive(Copy, Clone, Debug, PartialEq, Eq, Structural)]
pub enum ProtocolError {
    /// The first byte names no packet kind.
    UnknownType(u8),
    /// The packet is of another kind than the one asked for.
    WrongType(PacketType),
    /// The packet ends before its payload is complete.
    Truncated,
    /// The packet goes on after its payload is complete.
    Oversized,
    /// The bytes of the username are not UTF-8.
    InvalidUsername,
    /// The run lengths of a chunk do not describe 4096 cells.
    Format(FormatError),
}

/// The kind of a packet, or why it has none.
pub open spec fn packet_kind(data: Seq<u8>) -> Result<PacketType, ProtocolError> {
    if data.len() == 0 {
        Err(ProtocolError::Truncated)
    } else {
        match PacketType::of_discriminant(data[0]) {
            Some(kind) => Ok(kind),
            None => Err(ProtocolError::UnknownType(data[0])),
        }
    }
}

/// What keeps `data` from being a packet of kind `kind`, going by its first
/// byte alone.
pub open spec fn header_error(data: Seq<u8>, kind: PacketType) -> Option<ProtocolError> {
    match packet_kind(data) {
        Ok(found) => if found == kind {
            None
        } else {
            Some(ProtocolError::WrongType(found))
        },
        Err(e) => Some(e),
    }
}

/// Reads the kind of a packet from its first byte.
pub fn packet_type(data: &[u8]) -> (r: Result<PacketType, ProtocolError>)
    ensures
        r == packet_kind(data@),
{
    if data.len() == 0 {
        return Err(ProtocolError::Truncated);
    }
    match PacketType::fromu8(data[0]) {
        Ok(kind) => Ok(kind),
        Err(_) => Err(ProtocolError::UnknownType(data[0])),
    }
}

/// Checks that `data` starts as a packet of kind `kind` does.
pub(crate) fn check_header(data: &[u8], kind: PacketType) -> (r: Result<(), ProtocolError>)
    ensures
        match r {
            Ok(_) => header_error(data@, kind) is None,
            Err(e) => header_error(data@, kind) == Some(e),
        },
{
    match packet_type(data) {
        Ok(found) => if found.as_u8() == kind.as_u8() {
            Ok(())
        } else {
            Err(ProtocolError::WrongType(found))
        },
        Err(e) => Err(e),
    }
}

/// Appends `bytes` to `buf`.
fn append_bytes(buf: &mut Vec<u8>, bytes: &[u8])
    ensures
        final(buf)@ == old(buf)@ + bytes@,
{
    let mut i: usize = 0;
    while i < bytes.len()
        invariant
            i <= bytes@.len(),
            buf@ == old(buf)@ + bytes@.take(i as int),
        decreases bytes@.len() - i,
    {
        buf.push(bytes[i]);
        assert(bytes@.take(i + 1) =~= bytes@.take(i as int).push(bytes@[i as int]));
        i += 1;
    }
    assert(bytes@.take(bytes@.len() as int) =~= bytes@);
}

/// Whether a byte of value 0 occurs in `bytes`.
pub open spec fn has_zero(bytes: Seq<u8>) -> bool {
    exists|i: int| 0 <= i < bytes.len() && bytes[i] == 0
}

/// A packet that carries a username and nothing else: the kind, the bytes
/// of the name, and a terminating 0.
pub open spec fn username_packet(kind: PacketType, name: Seq<u8>) -> Seq<u8> {
    seq![kind.discriminant()] + name + seq![0u8]
}

/// The bytes between the first and the last byte of a packet, where a
/// username packet holds the name.
pub open spec fn username_region(data: Seq<u8>) -> Seq<u8> {
    data.subrange(1, data.len() - 1)
}

/// What keeps `data` from being a username packet of kind `kind`: a first
/// byte of another kind; no terminating 0 at the end; a 0 before the end;
/// a name that is not UTF-8.
pub open spec fn username_error(data: Seq<u8>, kind: PacketType) -> Option<ProtocolError> {
    if header_error(data, kind) is Some {
        header_error(data, kind)
    } else if data.len() < 2 || data.last() != 0 {
        Some(ProtocolError::Truncated)
    } else if has_zero(username_region(data)) {
        Some(ProtocolError::Oversized)
    } else if !valid_utf8(username_region(data)) {
        Some(ProtocolError::InvalidUsername)
    } else {
        None
    }
}

/// Builds a username packet of kind `kind`.
fn assemble_username_packet(kind: PacketType, username: &str) -> (packet: Vec<u8>)
    ensures
        packet@ == username_packet(kind, username.spec_bytes()),
{
    let mut packet_data: Vec<u8> = Vec::new();
    packet_data.push(kind.as_u8());
    append_bytes(&mut packet_data, username.as_bytes());
    packet_data.push(0);
    assert(packet_data@ =~= username_packet(kind, username.spec_bytes()));
    packet_data
}

/// The packet by which a client announces the player `username`.
pub fn assemble_player_connect_info(username: &str) -> (packet: Vec<u8>)
    ensures
        packet@ == username_packet(PacketType::PlayerConnect, username.spec_bytes()),
{
    assemble_username_packet(PacketType::PlayerConnect, username)
}

/// The packet by which a client announces that the player `username`
/// leaves.
pub fn assemble_player_disconnect_info(username: &str) -> (packet: Vec<u8>)
    ensures
        packet@ == username_packet(PacketType::PlayerDisconnect, username.spec_bytes()),
{
    assemble_username_packet(PacketType::PlayerDisconnect, username)
}

/// The packet by which a client asks for the stored record of the player
/// `username`.
pub fn assemble_player_info_request(username: &str) -> (packet: Vec<u8>)
    ensures
        packet@ == username_packet(PacketType::PlayerInfoRequest, username.spec_bytes()),
{
    assemble_username_packet(PacketType::PlayerInfoRequest, username)
}

/// Reads the username from a username packet of kind `kind`.
pub fn parse_username(kind: PacketType, data: &[u8]) -> (r: Result<String, ProtocolError>)
    ensures
        match r {
            Ok(name) => username_error(data@, kind) is None && name@ == decode_utf8(
                username_region(data@),
            ),
            Err(e) => username_error(data@, kind) == Some(e),
        },
{
    match check_header(data, kind) {
        Ok(_) => {},
        Err(e) => {
            return Err(e);
        },
    }
    let n = data.len();
    if n < 2 || data[n - 1] != 0 {
        return Err(ProtocolError::Truncated);
    }
    let region = vstd::slice::slice_subrange(data, 1, n - 1);
    assert(region@ == username_region(data@));
    let mut i: usize = 0;
    while i < region.len()
        invariant
            i <= region@.len(),
            forall|j: int| 0 <= j < i ==> region@[j] != 0,
            header_error(data@, kind) is None,
            data@.len() >= 2 && data@.last() == 0,
            region@ == username_region(data@),
        decreases region@.len() - i,
    {
        if region[i] == 0 {
            assert(has_zero(region@));
            return Err(ProtocolError::Oversized);
        }
        i += 1;
    }
    assert(!has_zero(region@));
    match core::str::from_utf8(region) {
        Ok(name) => {
            proof {
                vstd::utf8::encode_utf8_decode_utf8(name@);
            }
            Ok(name.to_owned())
        },
        Err(_) => Err(ProtocolError::InvalidUsername),
    }
}

/// A username without a 0 byte survives the trip through a username packet
/// of any kind.
pub proof fn lemma_username_round_trip(kind: PacketType, name: Seq<char>)
    requires
        !has_zero(encode_utf8(name)),
    ensures
        username_error(username_packet(kind, encode_utf8(name)), kind) is None,
        decode_utf8(username_region(username_packet(kind, encode_utf8(name)))) == name,
{
    let packet = username_packet(kind, encode_utf8(name));
    assert(username_region(packet) =~= encode_utf8(name));
    vstd::utf8::encode_utf8_valid_utf8(name);
    vstd::utf8::encode_utf8_decode_utf8(name);
}

/// The packet that carries the record of a player: the kind, three words
/// of position, two words of rotation, and the bytes of the name up to the
/// packet's end.
pub open spec fn player_info_packet(p: PlayerView) -> Seq<u8> {
    seq![PacketType::PlayerInfoData.discriminant()] + u32_bytes(p.position.x) + u32_bytes(
        p.position.y,
    ) + u32_bytes(p.position.z) + u32_bytes(p.rotation.x) + u32_bytes(p.rotation.y) + encode_utf8(
        p.username,
    )
}

/// What keeps `data` from being a packet with the record of a player.
pub open spec fn player_info_error(data: Seq<u8>) -> Option<ProtocolError> {
    if header_error(data, PacketType::PlayerInfoData) is Some {
        header_error(data, PacketType::PlayerInfoData)
    } else if data.len() < 21 {
        Some(ProtocolError::Truncated)
    } else if !valid_utf8(data.subrange(21, data.len() as int)) {
        Some(ProtocolError::InvalidUsername)
    } else {
        None
    }
}

/// The record that a well-formed player packet carries.
pub open spec fn player_info_of(data: Seq<u8>) -> PlayerView {
    PlayerView {
        username: decode_utf8(data.subrange(21, data.len() as int)),
        position: Real3 {
            x: u32_at(data, 1) as u32,
            y: u32_at(data, 5) as u32,
            z: u32_at(data, 9) as u32,
        },
        rotation: Real2 { x: u32_at(data, 13) as u32, y: u32_at(data, 17) as u32 },
    }
}

/// Builds the packet that carries the record of `player`.
pub fn assemble_player_info_data(player: &Player) -> (packet: Vec<u8>)
    ensures
        packet@ == player_info_packet(player@),
{
    let mut packet_data: Vec<u8> = Vec::new();
    packet_data.push(PacketType::PlayerInfoData.as_u8());
    put_u32(&mut packet_data, player.position.x);
    put_u32(&mut packet_data, player.position.y);
    put_u32(&mut packet_data, player.position.z);
    put_u32(&mut packet_data, player.rotation.x);
    put_u32(&mut packet_data, player.rotation.y);
    append_bytes(&mut packet_data, player.username.as_str().as_bytes());
    assert(packet_data@ =~= player_info_packet(player@));
    packet_data
}

/// Reads the record of a player from its packet.
pub fn parse_player_info_data(data: &[u8]) -> (r: Result<Player, ProtocolError>)
    ensures
        match r {
            Ok(p) => player_info_error(data@) is None && p@ == player_info_of(data@),
            Err(e) => player_info_error(data@) == Some(e),
        },
{
    match check_header(data, PacketType::PlayerInfoData) {
        Ok(_) => {},
        Err(e) => {
            return Err(e);
        },
    }
    if data.len() < 21 {
        return Err(ProtocolError::Truncated);
    }
    let words = (
        read_u32(data, 1),
        read_u32(data, 5),
        read_u32(data, 9),
        read_u32(data, 13),
        read_u32(data, 17),
    );
    let (px, py, pz, rx, ry) = match words {
        (Some(px), Some(py), Some(pz), Some(rx), Some(ry)) => (px, py, pz, rx, ry),
        _ => {
            return Err(ProtocolError::Truncated);
        },
    };
    let region = vstd::slice::slice_subrange(data, 21, data.len());
    match core::str::from_utf8(region) {
        Ok(name) => {
            proof {
                vstd::utf8::encode_utf8_decode_utf8(name@);
            }
            Ok(
                Player {
                    username: name.to_owned(),
                    position: Real3 { x: px, y: py, z: pz },
                    rotation: Real2 { x: rx, y: ry },
                },
            )
        },
        Err(_) => Err(ProtocolError::InvalidUsername),
    }
}

/// Codec round trip: the packet built from a player's record is read back
/// as that record.
pub proof fn lemma_player_info_round_trip(p: PlayerView)
    ensures
        player_info_error(player_info_packet(p)) is None,
        player_info_of(player_info_packet(p)) == p,
{
    let packet = player_info_packet(p);
    let name = encode_utf8(p.username);
    crate::wire::lemma_word_round_trip(p.position.x as int);
    crate::wire::lemma_word_round_trip(p.position.y as int);
    crate::wire::lemma_word_round_trip(p.position.z as int);
    crate::wire::lemma_word_round_trip(p.rotation.x as int);
    crate::wire::lemma_word_round_trip(p.rotation.y as int);
    assert(packet.len() == 21 + name.len());
    assert(packet.subrange(1, 5) =~= u32_bytes(p.position.x));
    assert(packet.subrange(5, 9) =~= u32_bytes(p.position.y));
    assert(packet.subrange(9, 13) =~= u32_bytes(p.position.z));
    assert(packet.subrange(13, 17) =~= u32_bytes(p.rotation.x));
    assert(packet.subrange(17, 21) =~= u32_bytes(p.rotation.y));
    assert(packet.subrange(21, packet.len() as int) =~= name);
    vstd::utf8::encode_utf8_valid_utf8(p.username);
    vstd::utf8::encode_utf8_decode_utf8(p.username);
}

/// The packet that asks for the column at `(x, z)`: the kind and two words.
pub open spec fn chunk_request_packet(column: ColumnPosition) -> Seq<u8> {
    seq![PacketType::ChunkRequest.discriminant()] + i32_bytes(column.x) + i32_bytes(column.z)
}

/// What keeps `data` from being a chunk request.
pub open spec fn chunk_request_error(data: Seq<u8>) -> Option<ProtocolError> {
    if header_error(data, PacketType::ChunkRequest) is Some {
        header_error(data, PacketType::ChunkRequest)
    } else if data.len() < 9 {
        Some(ProtocolError::Truncated)
    } else if data.len() > 9 {
        Some(ProtocolError::Oversized)
    } else {
        None
    }
}

/// The column that a well-formed chunk request asks for.
pub open spec fn chunk_request_of(data: Seq<u8>) -> ColumnPosition {
    ColumnPosition { x: i32_at(data, 1) as i32, z: i32_at(data, 5) as i32 }
}

/// Builds the packet that asks for the column at `column`.
pub fn assemble_chunk_request(column: ColumnPosition) -> (packet: Vec<u8>)
    ensures
        packet@ == chunk_request_packet(column),
{
    let mut packet_data: Vec<u8> = Vec::new();
    packet_data.push(PacketType::ChunkRequest.as_u8());
    put_i32(&mut packet_data, column.x);
    put_i32(&mut packet_data, column.z);
    packet_data
}

/// Reads the column that a chunk request asks for.
pub fn parse_chunk_request(data: &[u8]) -> (r: Result<ColumnPosition, ProtocolError>)
    ensures
        match r {
            Ok(column) => chunk_request_error(data@) is None && column == chunk_request_of(data@),
            Err(e) => chunk_request_error(data@) == Some(e),
        },
{
    match check_header(data, PacketType::ChunkRequest) {
        Ok(_) => {},
        Err(e) => {
            return Err(e);
        },
    }
    if data.len() > 9 {
        return Err(ProtocolError::Oversized);
    }
    match (read_i32(data, 1), read_i32(data, 5)) {
        (Some(x), Some(z)) => Ok(ColumnPosition { x, z }),
        _ => Err(ProtocolError::Truncated),
    }
}

/// A chunk request is read back as the column it was built for.
pub proof fn lemma_chunk_request_round_trip(column: ColumnPosition)
    ensures
        chunk_request_error(chunk_request_packet(column)) is None,
        chunk_request_of(chunk_request_packet(column)) == column,
{
    let packet = chunk_request_packet(column);
    crate::wire::lemma_signed_round_trip(column.x as int, 0);
    crate::wire::lemma_signed_round_trip(column.z as int, 0);
    crate::wire::lemma_word_round_trip(crate::wire::signed_to_word(column.x as int));
    crate::wire::lemma_word_round_trip(crate::wire::signed_to_word(column.z as int));
    assert(packet.subrange(1, 5) =~= i32_bytes(column.x));
    assert(packet.subrange(5, 9) =~= i32_bytes(column.z));
}

/// What a client asks to be done to one block.
#[derive(Copy, Clone, Debug, PartialEq, Eq, Structural)]
pub enum UpdateRequest {
    /// Put a block of the given id there.
    Place(u32),
    /// Remove the block that is there.
    Destroy,
    /// An action byte that names neither of the two.
    Unknown(u8),
}

/// A request to change the block at a position of the world.
#[derive(Copy, Clone, Debug, PartialEq, Eq, Structural)]
pub struct ChunkUpdate {
    pub position: GridPosition,
    pub request: UpdateRequest,
}

/// The bytes of a position: three words `x`, `y`, `z`.
pub open spec fn position_bytes(p: GridPosition) -> Seq<u8> {
    i32_bytes(p.x) + i32_bytes(p.y) + i32_bytes(p.z)
}

/// The position stored in the twelve bytes of `data` that start at `at`.
pub open spec fn position_at(data: Seq<u8>, at: int) -> GridPosition {
    GridPosition {
        x: i32_at(data, at) as i32,
        y: i32_at(data, at + 4) as i32,
        z: i32_at(data, at + 8) as i32,
    }
}

/// The packet of a chunk update: the kind, the block's position, the
/// action byte, and the block id where the action is to place a block.
pub open spec fn chunk_update_packet(update: ChunkUpdate) -> Seq<u8> {
    seq![PacketType::ChunkUpdate.discriminant()] + position_bytes(update.position) + (
    match update.request {
        UpdateRequest::Place(id) => seq![ChunkUpdateType::PlaceBlockEvent.discriminant()]
            + u32_bytes(id),
        UpdateRequest::Destroy => seq![ChunkUpdateType::DestroyBlockEvent.discriminant()],
        UpdateRequest::Unknown(action) => seq![action],
    })
}

/// What keeps `data` from being a chunk update. After an action byte that
/// names no known action nothing more is expected, and nothing is refused.
pub open spec fn chunk_update_error(data: Seq<u8>) -> Option<ProtocolError> {
    if header_error(data, PacketType::ChunkUpdate) is Some {
        header_error(data, PacketType::ChunkUpdate)
    } else if data.len() < 14 {
        Some(ProtocolError::Truncated)
    } else if data[13] == 0 && data.len() < 18 {
        Some(ProtocolError::Truncated)
    } else if data[13] == 0 && data.len() > 18 {
        Some(ProtocolError::Oversized)
    } else if data[13] == 1 && data.len() > 14 {
        Some(ProtocolError::Oversized)
    } else {
        None
    }
}

/// The update that a well-formed chunk update packet carries.
pub open spec fn chunk_update_of(data: Seq<u8>) -> ChunkUpdate {
    ChunkUpdate {
        position: position_at(data, 1),
        request: if data[13] == 0 {
            UpdateRequest::Place(u32_at(data, 14) as u32)
        } else if data[13] == 1 {
            UpdateRequest::Destroy
        } else {
            UpdateRequest::Unknown(data[13])
        },
    }
}

/// Appends the three words of a position.
pub(crate) fn put_position(buf: &mut Vec<u8>, p: GridPosition)
    ensures
        final(buf)@ == old(buf)@ + position_bytes(p),
{
    put_i32(buf, p.x);
    put_i32(buf, p.y);
    put_i32(buf, p.z);
    assert(buf@ =~= old(buf)@ + position_bytes(p));
}

/// Reads the position stored at `at`, if twelve bytes are there.
pub(crate) fn read_position(data: &[u8], at: usize) -> (r: Option<GridPosition>)
    ensures
        r is Some <==> at + 12 <= data@.len(),
        r is Some ==> r->Some_0 == position_at(data@, at as int),
{
    if data.len() < 12 || at > data.len() - 12 {
        return None;
    }
    match (read_i32(data, at), read_i32(data, at + 4), read_i32(data, at + 8)) {
        (Some(x), Some(y), Some(z)) => Some(GridPosition { x, y, z }),
        _ => None,
    }
}

/// Builds the packet of a chunk update.
pub fn assemble_chunk_update(update: &ChunkUpdate) -> (packet: Vec<u8>)
    ensures
        packet@ == chunk_update_packet(*update),
{
    let mut packet_data: Vec<u8> = Vec::new();
    packet_data.push(PacketType::ChunkUpdate.as_u8());
    put_position(&mut packet_data, update.position);
    match update.request {
        UpdateRequest::Place(id) => {
            packet_data.push(ChunkUpdateType::PlaceBlockEvent.as_u8());
            put_u32(&mut packet_data, id);
        },
        UpdateRequest::Destroy => {
            packet_data.push(ChunkUpdateType::DestroyBlockEvent.as_u8());
        },
        UpdateRequest::Unknown(action) => {
            packet_data.push(action);
        },
    }
    assert(packet_data@ =~= chunk_update_packet(*update));
    packet_data
}

/// Reads a chunk update from its packet.
pub fn parse_chunk_update(data: &[u8]) -> (r: Result<ChunkUpdate, ProtocolError>)
    ensures
        match r {
            Ok(update) => chunk_update_error(data@) is None && update == chunk_update_of(data@),
            Err(e) => chunk_update_error(data@) == Some(e),
        },
{
    match check_header(data, PacketType::ChunkUpdate) {
        Ok(_) => {},
        Err(e) => {
            return Err(e);
        },
    }
    if data.len() < 14 {
        return Err(ProtocolError::Truncated);
    }
    let position = match read_position(data, 1) {
        Some(p) => p,
        None => {
            return Err(ProtocolError::Truncated);
        },
    };
    let action = data[13];
    match ChunkUpdateType::fromu8(action) {
        Ok(ChunkUpdateType::PlaceBlockEvent) => {
            if data.len() > 18 {
                return Err(ProtocolError::Oversized);
            }
            match read_u32(data, 14) {
                Some(id) => Ok(ChunkUpdate { position, request: UpdateRequest::Place(id) }),
                None => Err(ProtocolError::Truncated),
            }
        },
        Ok(ChunkUpdateType::DestroyBlockEvent) => {
            if data.len() > 14 {
                return Err(ProtocolError::Oversized);
            }
            Ok(ChunkUpdate { position, request: UpdateRequest::Destroy })
        },
        Err(_) => Ok(ChunkUpdate { position, request: UpdateRequest::Unknown(action) }),
    }
}

/// A chunk update is read back as it was built, unless it carries an
/// unknown action under the byte of a known one.
pub proof fn lemma_chunk_update_round_trip(update: ChunkUpdate)
    requires
        update.request matches UpdateRequest::Unknown(action) ==> action > 1,
    ensures
        chunk_update_error(chunk_update_packet(update)) is None,
        chunk_update_of(chunk_update_packet(update)) == update,
{
    let packet = chunk_update_packet(update);
    let p = update.position;
    crate::wire::lemma_signed_round_trip(p.x as int, 0);
    crate::wire::lemma_signed_round_trip(p.y as int, 0);
    crate::wire::lemma_signed_round_trip(p.z as int, 0);
    crate::wire::lemma_word_round_trip(crate::wire::signed_to_word(p.x as int));
    crate::wire::lemma_word_round_trip(crate::wire::signed_to_word(p.y as int));
    crate::wire::lemma_word_round_trip(crate::wire::signed_to_word(p.z as int));
    assert(packet.subrange(1, 5) =~= i32_bytes(p.x));
    assert(packet.subrange(5, 9) =~= i32_bytes(p.y));
    assert(packet.subrange(9, 13) =~= i32_bytes(p.z));
    match update.request {
        UpdateRequest::Place(id) => {
            crate::wire::lemma_word_round_trip(id as int);
            assert(packet.len() == 18);
            assert(packet[13] == 0);
            assert(packet.subrange(14, 18) =~= u32_bytes(id));
        },
        UpdateRequest::Destroy => {
            assert(packet.len() == 14);
            assert(packet[13] == 1);
        },
        UpdateRequest::Unknown(action) => {
            assert(packet.len() == 14);
            assert(packet[13] == action);
        },
    }
}

} // verus!
