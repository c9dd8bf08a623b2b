use voxel_core::chunk::{Chunk, ColumnPosition, CompressedSet, FormatError, GridPosition};
use voxel_core::contents::{assemble_chunk_contents_packet, parse_chunk_contents};
use voxel_core::packets::{
    assemble_chunk_request, assemble_chunk_update,
    assemble_player_connect_info, assemble_player_disconnect_info, assemble_player_info_data,
    assemble_player_info_request, packet_type, parse_chunk_request,
    parse_chunk_update, parse_player_info_data, parse_username, ChunkUpdate, ChunkUpdateType,
    PacketType, ProtocolError, UpdateRequest,
};
use voxel_core::player_data::{Player, Real2, Real3};
use voxel_core::world::ChunkColumn;

fn ethan() -> Player {
    Player {
        username: "ethan".to_string(),
        position: Real3 { x: 1.0f32.to_bits(), y: 2.0f32.to_bits(), z: 3.0f32.to_bits() },
        rotation: Real2 { x: 0.5f32.to_bits(), y: (-0.5f32).to_bits() },
    }
}

fn cells_of(chunk: &Chunk) -> Vec<i32> {
    let mut cells = Vec::new();
    for i in 0..4096u16 {
        let (x, y, z) = Chunk::i_to_xyz(i);
        cells.push(chunk.get_block(x, y, z));
    }
    cells
}

fn word(v: i32) -> Vec<u8> {
    v.to_le_bytes().to_vec()
}

/// A chunk contents packet with one chunk at the origin and the given runs.
fn contents_with(runs: &[(i32, i32)]) -> Vec<u8> {
    let mut data = vec![6u8];
    for v in [0, 0, 0] {
        data.extend(word(v));
    }
    for (id, count) in runs {
        data.extend(word(*id));
        data.extend(word(*count));
    }
    data.extend(word(-1));
    data
}

#[test]
fn packet_types_have_the_bytes_zero_to_six() {
    let kinds = [
        PacketType::PlayerConnect,
        PacketType::PlayerDisconnect,
        PacketType::PlayerInfoRequest,
        PacketType::PlayerInfoData,
        PacketType::ChunkRequest,
        PacketType::ChunkUpdate,
        PacketType::ChunkContents,
    ];
    for (byte, kind) in kinds.iter().enumerate() {
        assert_eq!(PacketType::fromu8(byte as u8), Ok(*kind));
        assert_eq!(kind.as_u8(), byte as u8);
    }
}

#[test]
fn unknown_packet_types_are_errors() {
    for byte in 7..=255u8 {
        assert_eq!(PacketType::fromu8(byte), Err(()));
    }
    assert_eq!(packet_type(&[7, 1, 2]), Err(ProtocolError::UnknownType(7)));
    assert_eq!(packet_type(&[255]), Err(ProtocolError::UnknownType(255)));
    assert_eq!(packet_type(&[]), Err(ProtocolError::Truncated));
    assert_eq!(packet_type(&[4]), Ok(PacketType::ChunkRequest));
}

#[test]
fn update_types_have_the_bytes_zero_and_one() {
    assert_eq!(ChunkUpdateType::fromu8(0), Ok(ChunkUpdateType::PlaceBlockEvent));
    assert_eq!(ChunkUpdateType::fromu8(1), Ok(ChunkUpdateType::DestroyBlockEvent));
    assert_eq!(ChunkUpdateType::fromu8(2), Err(()));
    assert_eq!(ChunkUpdateType::fromu8(255), Err(()));
    assert_eq!(ChunkUpdateType::PlaceBlockEvent.as_u8(), 0);
    assert_eq!(ChunkUpdateType::DestroyBlockEvent.as_u8(), 1);
}

#[test]
fn connect_packet_is_type_name_and_terminator() {
    assert_eq!(assemble_player_connect_info("ethan"), vec![0, b'e', b't', b'h', b'a', b'n', 0]);
    assert_eq!(assemble_player_connect_info(""), vec![0, 0]);
}

#[test]
fn disconnect_packet_is_type_name_and_terminator() {
    assert_eq!(assemble_player_disconnect_info("al"), vec![1, b'a', b'l', 0]);
}

#[test]
fn info_request_packet_is_type_name_and_terminator() {
    assert_eq!(assemble_player_info_request("ethan"), vec![2, b'e', b't', b'h', b'a', b'n', 0]);
    assert_eq!(assemble_player_info_request("é"), vec![2, 0xc3, 0xa9, 0]);
}

#[test]
fn username_survives_its_packet() {
    for name in ["ethan", "", "é", "名前", "a b"] {
        let packet = assemble_player_connect_info(name);
        assert_eq!(parse_username(PacketType::PlayerConnect, &packet), Ok(name.to_string()));
        let packet = assemble_player_disconnect_info(name);
        assert_eq!(parse_username(PacketType::PlayerDisconnect, &packet), Ok(name.to_string()));
        let packet = assemble_player_info_request(name);
        assert_eq!(parse_username(PacketType::PlayerInfoRequest, &packet), Ok(name.to_string()));
    }
}

#[test]
fn username_packets_are_checked() {
    let kind = PacketType::PlayerConnect;
    assert_eq!(parse_username(kind, &[]), Err(ProtocolError::Truncated));
    assert_eq!(parse_username(kind, &[9, b'a', 0]), Err(ProtocolError::UnknownType(9)));
    assert_eq!(
        parse_username(kind, &[2, b'a', 0]),
        Err(ProtocolError::WrongType(PacketType::PlayerInfoRequest))
    );
    assert_eq!(parse_username(kind, &[0]), Err(ProtocolError::Truncated));
    assert_eq!(parse_username(kind, &[0, b'a', b'b']), Err(ProtocolError::Truncated));
    assert_eq!(parse_username(kind, &[0, b'a', 0, b'b', 0]), Err(ProtocolError::Oversized));
    assert_eq!(parse_username(kind, &[0, 0, 0]), Err(ProtocolError::Oversized));
    assert_eq!(parse_username(kind, &[0, 0xff, 0xfe, 0]), Err(ProtocolError::InvalidUsername));
    assert_eq!(parse_username(kind, &[0, 0xc3, 0]), Err(ProtocolError::InvalidUsername));
    assert_eq!(parse_username(kind, &[0, 0]), Ok(String::new()));
}

#[test]
fn player_info_packet_has_the_fixed_layout() {
    let packet = assemble_player_info_data(&ethan());
    let mut expected = vec![3u8];
    expected.extend([0x00, 0x00, 0x80, 0x3f]); // 1.0
    expected.extend([0x00, 0x00, 0x00, 0x40]); // 2.0
    expected.extend([0x00, 0x00, 0x40, 0x40]); // 3.0
    expected.extend([0x00, 0x00, 0x00, 0x3f]); // 0.5
    expected.extend([0x00, 0x00, 0x00, 0xbf]); // -0.5
    expected.extend(b"ethan");
    assert_eq!(packet, expected);
}

#[test]
fn player_info_packet_agrees_with_the_serialiser_on_vectors() {
    let packet = assemble_player_info_data(&ethan());
    let position = bincode::serialize(&cgmath::Vector3::new(1.0f32, 2.0, 3.0)).unwrap();
    let rotation = bincode::serialize(&cgmath::Vector2::new(0.5f32, -0.5)).unwrap();
    assert_eq!(&packet[1..13], &position[..]);
    assert_eq!(&packet[13..21], &rotation[..]);
    let back: cgmath::Vector3<f32> = bincode::deserialize(&packet[1..13]).unwrap();
    assert_eq!(back, cgmath::Vector3::new(1.0, 2.0, 3.0));
}

#[test]
fn player_survives_the_codec() {
    let p = ethan();
    let back = parse_player_info_data(&assemble_player_info_data(&p)).unwrap();
    assert_eq!(back, p);
    assert_eq!(back.username, "ethan");
    assert_eq!(f32::from_bits(back.position.x), 1.0);
    assert_eq!(f32::from_bits(back.position.y), 2.0);
    assert_eq!(f32::from_bits(back.position.z), 3.0);
    assert_eq!(f32::from_bits(back.rotation.x), 0.5);
    assert_eq!(f32::from_bits(back.rotation.y), -0.5);
}

#[test]
fn player_with_unusual_values_survives_the_codec() {
    let p = Player {
        username: "zoë ☃".to_string(),
        position: Real3 { x: f32::NAN.to_bits(), y: u32::MAX, z: 0 },
        rotation: Real2 { x: f32::NEG_INFINITY.to_bits(), y: 1 },
    };
    assert_eq!(parse_player_info_data(&assemble_player_info_data(&p)), Ok(p));
    let nameless = Player::new(String::new());
    let packet = assemble_player_info_data(&nameless);
    assert_eq!(packet.len(), 21);
    assert_eq!(parse_player_info_data(&packet), Ok(nameless));
}

#[test]
fn new_player_stands_at_the_origin() {
    let p = Player::new("ethan".to_string());
    assert_eq!(p.username, "ethan");
    assert_eq!(p.position, Real3 { x: 0, y: 0, z: 0 });
    assert_eq!(p.rotation, Real2 { x: 0, y: 0 });
    assert_eq!(f32::from_bits(p.position.x), 0.0);
}

#[test]
fn player_info_packets_are_checked() {
    assert_eq!(parse_player_info_data(&[]), Err(ProtocolError::Truncated));
    assert_eq!(parse_player_info_data(&[200]), Err(ProtocolError::UnknownType(200)));
    assert_eq!(
        parse_player_info_data(&assemble_player_connect_info("ethan")),
        Err(ProtocolError::WrongType(PacketType::PlayerConnect))
    );
    let good = assemble_player_info_data(&ethan());
    for len in 1..21 {
        assert_eq!(parse_player_info_data(&good[..len]), Err(ProtocolError::Truncated));
    }
    assert_eq!(parse_player_info_data(&good[..21]).unwrap().username, "");
    assert_eq!(parse_player_info_data(&good[..23]).unwrap().username, "et");
    let mut bad = good.clone();
    bad.push(0xff);
    assert_eq!(parse_player_info_data(&bad), Err(ProtocolError::InvalidUsername));
}

#[test]
fn chunk_request_has_the_fixed_layout() {
    assert_eq!(
        assemble_chunk_request(ColumnPosition { x: 0, z: 0 }),
        vec![4, 0, 0, 0, 0, 0, 0, 0, 0]
    );
    assert_eq!(
        assemble_chunk_request(ColumnPosition { x: -1, z: 258 }),
        vec![4, 255, 255, 255, 255, 2, 1, 0, 0]
    );
}

#[test]
fn chunk_request_survives_the_codec() {
    for (x, z) in [(0, 0), (-1, 1), (i32::MIN, i32::MAX), (12345, -54321)] {
        let column = ColumnPosition { x, z };
        assert_eq!(parse_chunk_request(&assemble_chunk_request(column)), Ok(column));
    }
}

#[test]
fn chunk_requests_are_checked() {
    let good = assemble_chunk_request(ColumnPosition { x: 1, z: 2 });
    assert_eq!(parse_chunk_request(&[]), Err(ProtocolError::Truncated));
    assert_eq!(parse_chunk_request(&[77]), Err(ProtocolError::UnknownType(77)));
    assert_eq!(
        parse_chunk_request(&[5, 0, 0, 0, 0, 0, 0, 0, 0]),
        Err(ProtocolError::WrongType(PacketType::ChunkUpdate))
    );
    for len in 1..9 {
        assert_eq!(parse_chunk_request(&good[..len]), Err(ProtocolError::Truncated));
    }
    let mut long = good.clone();
    long.push(0);
    assert_eq!(parse_chunk_request(&long), Err(ProtocolError::Oversized));
}

#[test]
fn chunk_update_has_the_fixed_layout() {
    let place = ChunkUpdate {
        position: GridPosition { x: 1, y: -1, z: 256 },
        request: UpdateRequest::Place(7),
    };
    assert_eq!(
        assemble_chunk_update(&place),
        vec![5, 1, 0, 0, 0, 255, 255, 255, 255, 0, 1, 0, 0, 0, 7, 0, 0, 0]
    );
    let destroy = ChunkUpdate {
        position: GridPosition { x: 1, y: 2, z: 3 },
        request: UpdateRequest::Destroy,
    };
    assert_eq!(assemble_chunk_update(&destroy), vec![5, 1, 0, 0, 0, 2, 0, 0, 0, 3, 0, 0, 0, 1]);
    let odd = ChunkUpdate {
        position: GridPosition { x: 0, y: 0, z: 0 },
        request: UpdateRequest::Unknown(9),
    };
    assert_eq!(assemble_chunk_update(&odd), vec![5, 0, 0, 0, 0, 0, 0, 0, 0, 0, 0, 0, 0, 9]);
}

#[test]
fn chunk_update_agrees_with_the_serialiser_on_vectors() {
    let update = ChunkUpdate {
        position: GridPosition { x: -3, y: 70, z: 1 << 20 },
        request: UpdateRequest::Place(0xdead_beef),
    };
    let packet = assemble_chunk_update(&update);
    let position = bincode::serialize(&cgmath::Vector3::new(-3i32, 70, 1 << 20)).unwrap();
    assert_eq!(&packet[1..13], &position[..]);
    assert_eq!(&packet[14..18], &bincode::serialize(&0xdead_beefu32).unwrap()[..]);
}

#[test]
fn chunk_update_survives_the_codec() {
    let position = GridPosition { x: -17, y: 255, z: i32::MIN };
    for request in [
        UpdateRequest::Place(0),
        UpdateRequest::Place(1),
        UpdateRequest::Place(u32::MAX),
        UpdateRequest::Destroy,
        UpdateRequest::Unknown(2),
        UpdateRequest::Unknown(255),
    ] {
        let update = ChunkUpdate { position, request };
        assert_eq!(parse_chunk_update(&assemble_chunk_update(&update)), Ok(update));
    }
}

#[test]
fn chunk_updates_are_checked() {
    let position = GridPosition { x: 1, y: 2, z: 3 };
    let place = assemble_chunk_update(&ChunkUpdate { position, request: UpdateRequest::Place(7) });
    let destroy = assemble_chunk_update(&ChunkUpdate { position, request: UpdateRequest::Destroy });
    assert_eq!(parse_chunk_update(&[]), Err(ProtocolError::Truncated));
    assert_eq!(parse_chunk_update(&[9]), Err(ProtocolError::UnknownType(9)));
    assert_eq!(
        parse_chunk_update(&assemble_chunk_request(ColumnPosition { x: 0, z: 0 })),
        Err(ProtocolError::WrongType(PacketType::ChunkRequest))
    );
    for len in 1..18 {
        assert_eq!(parse_chunk_update(&place[..len]), Err(ProtocolError::Truncated));
    }
    for len in 1..14 {
        assert_eq!(parse_chunk_update(&destroy[..len]), Err(ProtocolError::Truncated));
    }
    let mut long = place.clone();
    long.push(0);
    assert_eq!(parse_chunk_update(&long), Err(ProtocolError::Oversized));
    let mut long = destroy.clone();
    long.push(0);
    assert_eq!(parse_chunk_update(&long), Err(ProtocolError::Oversized));
}

#[test]
fn unknown_update_action_is_passed_on() {
    let mut data = vec![5u8];
    data.extend([0u8; 12]);
    data.push(42);
    data.extend([1, 2, 3]);
    assert_eq!(
        parse_chunk_update(&data),
        Ok(ChunkUpdate {
            position: GridPosition { x: 0, y: 0, z: 0 },
            request: UpdateRequest::Unknown(42),
        })
    );
}

#[test]
fn chunk_contents_of_a_column_of_air() {
    let col = ChunkColumn::new(ColumnPosition { x: 2, z: -1 }, 2);
    let packet = assemble_chunk_contents_packet(&col);
    let mut expected = vec![6u8];
    for y in 0..2 {
        expected.extend(word(2));
        expected.extend(word(y));
        expected.extend(word(-1));
        expected.extend(word(0));
        expected.extend(word(4096));
        expected.extend(word(-1));
    }
    assert_eq!(packet, expected);
}

#[test]
fn chunk_contents_of_an_empty_column_is_the_type_alone() {
    let col = ChunkColumn::new(ColumnPosition { x: 0, z: 0 }, 0);
    assert_eq!(assemble_chunk_contents_packet(&col), vec![6]);
    assert_eq!(parse_chunk_contents(&[6]).unwrap().len(), 0);
}

#[test]
fn chunk_contents_hold_the_runs_of_each_chunk() {
    let mut col = ChunkColumn::new(ColumnPosition { x: 0, z: 0 }, 2);
    assert!(col.set_block(GridPosition { x: 0, y: 0, z: 0 }, 5));
    assert!(col.set_block(GridPosition { x: 1, y: 0, z: 0 }, 5));
    assert!(col.set_block(GridPosition { x: 15, y: 31, z: 15 }, 9));
    let mut expected = vec![6u8];
    for v in [0, 0, 0, 5, 2, 0, 4094, -1, 0, 1, 0, 0, 4095, 9, 1, -1] {
        expected.extend(word(v));
    }
    assert_eq!(assemble_chunk_contents_packet(&col), expected);
}

#[test]
fn every_chunk_of_the_contents_ends_with_the_terminator() {
    let col = ChunkColumn::new(ColumnPosition { x: 0, z: 0 }, 5);
    let packet = assemble_chunk_contents_packet(&col);
    let record = 12 + 8 + 4;
    assert_eq!(packet.len(), 1 + 5 * record);
    for k in 0..5 {
        let end = 1 + (k + 1) * record;
        assert_eq!(&packet[end - 4..end], &[255, 255, 255, 255]);
    }
}

#[test]
fn chunk_contents_survive_the_codec() {
    let mut col = ChunkColumn::new(ColumnPosition { x: -4, z: 9 }, 3);
    for i in 0..300 {
        let p = GridPosition { x: i % 16, y: (i * 7) % 48, z: (i * 3) % 16 };
        assert!(col.set_block(p, 1 + i % 5));
    }
    let chunks = parse_chunk_contents(&assemble_chunk_contents_packet(&col)).unwrap();
    assert_eq!(chunks.len(), 3);
    for (k, chunk) in chunks.iter().enumerate() {
        assert_eq!(chunk.position(), GridPosition { x: -4, y: k as i32, z: 9 });
        assert_eq!(cells_of(chunk), cells_of(&col.get_chunks()[k]));
    }
}

#[test]
fn chunk_contents_are_read_run_by_run() {
    let data = contents_with(&[(1, 96), (2, 4000)]);
    let chunks = parse_chunk_contents(&data).unwrap();
    assert_eq!(chunks.len(), 1);
    assert_eq!(
        chunks[0].compress(),
        vec![CompressedSet { id: 1, count: 96 }, CompressedSet { id: 2, count: 4000 }]
    );
}

#[test]
fn runs_that_sum_to_4095_are_rejected() {
    let data = contents_with(&[(1, 4095)]);
    assert_eq!(
        parse_chunk_contents(&data).err(),
        Some(ProtocolError::Format(FormatError::WrongTotal))
    );
    let data = contents_with(&[(1, 4000), (2, 95)]);
    assert_eq!(
        parse_chunk_contents(&data).err(),
        Some(ProtocolError::Format(FormatError::WrongTotal))
    );
}

#[test]
fn malformed_runs_are_rejected() {
    assert_eq!(
        parse_chunk_contents(&contents_with(&[(1, 4097)])).err(),
        Some(ProtocolError::Format(FormatError::WrongTotal))
    );
    assert_eq!(
        parse_chunk_contents(&contents_with(&[])).err(),
        Some(ProtocolError::Format(FormatError::WrongTotal))
    );
    assert_eq!(
        parse_chunk_contents(&contents_with(&[(-2, 4096)])).err(),
        Some(ProtocolError::Format(FormatError::NegativeId))
    );
    assert_eq!(
        parse_chunk_contents(&contents_with(&[(1, 5000), (2, -904)])).err(),
        Some(ProtocolError::Format(FormatError::NegativeCount))
    );
    assert_eq!(
        parse_chunk_contents(&contents_with(&[(1, i32::MAX), (2, i32::MAX)])).err(),
        Some(ProtocolError::Format(FormatError::WrongTotal))
    );
}

#[test]
fn truncated_chunk_contents_are_rejected() {
    let good = contents_with(&[(1, 4096)]);
    assert!(parse_chunk_contents(&good).is_ok());
    for len in 2..good.len() {
        assert_eq!(parse_chunk_contents(&good[..len]).err(), Some(ProtocolError::Truncated));
    }
    let mut two = good.clone();
    two.extend(&good[1..good.len() - 1]);
    assert_eq!(parse_chunk_contents(&two).err(), Some(ProtocolError::Truncated));
}

#[test]
fn chunk_contents_of_another_type_are_rejected() {
    assert_eq!(parse_chunk_contents(&[]).err(), Some(ProtocolError::Truncated));
    assert_eq!(parse_chunk_contents(&[66]).err(), Some(ProtocolError::UnknownType(66)));
    assert_eq!(
        parse_chunk_contents(&[3, 0, 0]).err(),
        Some(ProtocolError::WrongType(PacketType::PlayerInfoData))
    );
}

#[test]
fn first_malformed_chunk_decides_the_error() {
    let mut data = contents_with(&[(1, 4095)]);
    data.extend([1, 2, 3]);
    assert_eq!(
        parse_chunk_contents(&data).err(),
        Some(ProtocolError::Format(FormatError::WrongTotal))
    );
    let mut data = contents_with(&[(1, 4096)]);
    data.extend(&contents_with(&[(-5, 4096)])[1..]);
    assert_eq!(
        parse_chunk_contents(&data).err(),
        Some(ProtocolError::Format(FormatError::NegativeId))
    );
}
