use voxel_core::chunk::{ColumnPosition, GridPosition};
use voxel_core::items::ItemManager;
use voxel_core::player_data::{Player, Real2, Real3};
use voxel_core::world::{to_chunk_coord, to_local_coord, ChunkColumn, World};

fn at(x: i32, y: i32, z: i32) -> GridPosition {
    GridPosition { x, y, z }
}

fn world() -> World {
    World::new(ItemManager::new(), 4)
}

#[test]
fn chunk_coordinate_is_the_floor_of_a_sixteenth() {
    assert_eq!(to_chunk_coord(0), 0);
    assert_eq!(to_chunk_coord(15), 0);
    assert_eq!(to_chunk_coord(16), 1);
    assert_eq!(to_chunk_coord(31), 1);
    assert_eq!(to_chunk_coord(-1), -1);
    assert_eq!(to_chunk_coord(-16), -1);
    assert_eq!(to_chunk_coord(-17), -2);
    assert_eq!(to_chunk_coord(i32::MAX), 134217727);
    assert_eq!(to_chunk_coord(i32::MIN), -134217728);
}

#[test]
fn local_coordinate_is_the_remainder() {
    assert_eq!(to_local_coord(0), 0);
    assert_eq!(to_local_coord(15), 15);
    assert_eq!(to_local_coord(16), 0);
    assert_eq!(to_local_coord(-1), 15);
    assert_eq!(to_local_coord(-16), 0);
    assert_eq!(to_local_coord(-17), 15);
    assert_eq!(to_local_coord(i32::MAX), 15);
    assert_eq!(to_local_coord(i32::MIN), 0);
}

#[test]
fn world_position_maps_to_its_column() {
    assert_eq!(World::world_to_column_position(0, 0), ColumnPosition { x: 0, z: 0 });
    assert_eq!(World::world_to_column_position(17, -1), ColumnPosition { x: 1, z: -1 });
    assert_eq!(World::world_to_column_position(-33, 160), ColumnPosition { x: -3, z: 10 });
}

#[test]
fn new_column_is_a_stack_of_air() {
    let col = ChunkColumn::new(ColumnPosition { x: 3, z: -2 }, 4);
    assert_eq!(col.position(), ColumnPosition { x: 3, z: -2 });
    let chunks = col.get_chunks();
    assert_eq!(chunks.len(), 4);
    for (k, chunk) in chunks.iter().enumerate() {
        assert_eq!(chunk.position(), at(3, k as i32, -2));
        assert_eq!(chunk.compress().len(), 1);
        assert_eq!(chunk.get_block(0, 0, 0), 0);
    }
}

#[test]
fn column_finds_the_chunk_by_height() {
    let mut col = ChunkColumn::new(ColumnPosition { x: 0, z: 0 }, 4);
    assert!(col.set_block(at(1, 17, 2), 8));
    assert_eq!(col.get_block(at(1, 17, 2)), Some(8));
    assert_eq!(col.get_chunks()[1].get_block(1, 1, 2), 8);
    assert_eq!(col.get_chunks()[0].get_block(1, 1, 2), 0);
    assert_eq!(col.get_block(at(1, 16, 2)), Some(0));
    assert_eq!(col.get_block(at(1, 63, 2)), Some(0));
}

#[test]
fn column_has_nothing_below_or_above_itself() {
    let mut col = ChunkColumn::new(ColumnPosition { x: 0, z: 0 }, 4);
    assert_eq!(col.get_block(at(0, -1, 0)), None);
    assert_eq!(col.get_block(at(0, 64, 0)), None);
    assert_eq!(col.get_block(at(0, i32::MIN, 0)), None);
    assert_eq!(col.get_block(at(0, i32::MAX, 0)), None);
    assert!(!col.set_block(at(0, -1, 0), 1));
    assert!(!col.set_block(at(0, 64, 0), 1));
    for chunk in col.get_chunks() {
        assert_eq!(chunk.compress().len(), 1);
    }
}

#[test]
fn column_takes_the_offset_within_the_chunk() {
    let mut col = ChunkColumn::new(ColumnPosition { x: -1, z: -1 }, 1);
    assert!(col.set_block(at(-1, 0, -16), 3));
    assert_eq!(col.get_chunks()[0].get_block(15, 0, 0), 3);
    assert_eq!(col.get_block(at(-1, 0, -16)), Some(3));
}

#[test]
fn new_world_is_empty() {
    let w = world();
    assert_eq!(w.item_manager().len(), 0);
    assert_eq!(w.get_block(at(0, 0, 0)), None);
}

#[test]
fn columns_are_loaded_on_demand_and_kept() {
    let mut w = world();
    let a = w.get_column(ColumnPosition { x: 0, z: 0 });
    let b = w.get_column(ColumnPosition { x: 1, z: 0 });
    assert_eq!(a, 0);
    assert_eq!(b, 1);
    assert_eq!(w.get_column(ColumnPosition { x: 0, z: 0 }), 0);
    assert_eq!(w.get_column(ColumnPosition { x: 1, z: 0 }), 1);
    assert_eq!(w.get_column(ColumnPosition { x: 0, z: 1 }), 2);
    assert_eq!(w.column_at(1).position(), ColumnPosition { x: 1, z: 0 });
    assert_eq!(w.column_at(1).get_chunks().len(), 4);
    assert_eq!(w.get_block(at(16, 0, 0)), Some(0));
    assert_eq!(w.get_block(at(32, 0, 0)), None);
}

#[test]
fn blocks_are_set_in_the_column_they_lie_in() {
    let mut w = world();
    assert!(w.set_block(at(-1, 5, 40), 6));
    assert_eq!(w.get_block(at(-1, 5, 40)), Some(6));
    assert_eq!(w.get_block(at(-2, 5, 40)), Some(0));
    let place = w.get_column(ColumnPosition { x: -1, z: 2 });
    assert_eq!(place, 0);
    assert_eq!(w.column_at(0).get_chunks()[0].get_block(15, 5, 8), 6);
    assert!(w.set_block(at(-1, 5, 40), 0));
    assert_eq!(w.get_block(at(-1, 5, 40)), Some(0));
}

#[test]
fn blocks_outside_the_columns_are_not_stored() {
    let mut w = world();
    assert!(!w.set_block(at(0, 64, 0), 6));
    assert!(!w.set_block(at(0, -1, 0), 6));
    assert_eq!(w.get_block(at(0, 64, 0)), None);
    // The column was loaded all the same.
    assert_eq!(w.get_block(at(0, 0, 0)), Some(0));
}

#[test]
fn unknown_player_gets_a_fresh_record() {
    let mut w = world();
    let p = w.get_user_data("ethan");
    assert_eq!(p, Player::new("ethan".to_string()));
    assert_eq!(w.get_user_data("ethan"), p);
}

#[test]
fn player_state_is_kept_by_name() {
    let mut w = world();
    let position = Real3 { x: 1.5f32.to_bits(), y: 2.5f32.to_bits(), z: 3.5f32.to_bits() };
    let rotation = Real2 { x: 0.25f32.to_bits(), y: 0.75f32.to_bits() };
    w.set_user_data("ethan", position, rotation);
    w.set_user_data("zoe", Real3 { x: 1, y: 2, z: 3 }, Real2 { x: 4, y: 5 });
    assert_eq!(
        w.get_user_data("ethan"),
        Player { username: "ethan".to_string(), position, rotation }
    );
    assert_eq!(w.get_user_data("zoe").position, Real3 { x: 1, y: 2, z: 3 });
    w.set_user_data("ethan", Real3 { x: 9, y: 9, z: 9 }, rotation);
    assert_eq!(w.get_user_data("ethan").position, Real3 { x: 9, y: 9, z: 9 });
    assert_eq!(w.get_user_data("zoe").rotation, Real2 { x: 4, y: 5 });
    assert_eq!(w.get_user_data("Ethan"), Player::new("Ethan".to_string()));
}

#[test]
fn every_player_has_one_record() {
    let mut w = world();
    for name in ["ethan", "zoe", "ethan", "al", "zoe", "ethan"] {
        w.get_user_data(name);
        w.set_user_data(name, Real3 { x: 1, y: 1, z: 1 }, Real2 { x: 1, y: 1 });
    }
    let names: Vec<&str> = w.players().iter().map(|p| p.username.as_str()).collect();
    assert_eq!(names, vec!["ethan", "zoe", "al"]);
}

#[test]
fn every_column_is_loaded_once() {
    let mut w = world();
    for (x, z) in [(0, 0), (1, 0), (0, 0), (0, 1), (1, 0), (-1, -1)] {
        w.get_column(ColumnPosition { x, z });
        assert!(w.set_block(at(16 * x + 3, 5, 16 * z + 3), 2));
    }
    assert_eq!(w.column_count(), 4);
    let positions: Vec<ColumnPosition> =
        (0..w.column_count()).map(|i| w.column_at(i).position()).collect();
    assert_eq!(
        positions,
        vec![
            ColumnPosition { x: 0, z: 0 },
            ColumnPosition { x: 1, z: 0 },
            ColumnPosition { x: 0, z: 1 },
            ColumnPosition { x: -1, z: -1 },
        ]
    );
}

#[test]
fn setting_a_block_changes_no_other_block() {
    let mut w = world();
    assert!(w.set_block(at(3, 3, 3), 1));
    assert!(w.set_block(at(19, 3, 3), 2));
    assert!(w.set_block(at(3, 19, 3), 3));
    assert!(w.set_block(at(3, 3, 19), 4));
    assert!(w.set_block(at(3, 3, 3), 9));
    assert_eq!(w.get_block(at(3, 3, 3)), Some(9));
    assert_eq!(w.get_block(at(19, 3, 3)), Some(2));
    assert_eq!(w.get_block(at(3, 19, 3)), Some(3));
    assert_eq!(w.get_block(at(3, 3, 19)), Some(4));
    assert_eq!(w.get_block(at(4, 3, 3)), Some(0));
}
