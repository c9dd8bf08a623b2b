use voxel_core::chunk::{Chunk, CompressedSet, FormatError, GridPosition, CHUNK_CELLS, CHUNK_WIDTH};

fn origin() -> GridPosition {
    GridPosition { x: 0, y: 0, z: 0 }
}

fn run(id: i32, count: i32) -> CompressedSet {
    CompressedSet { id, count }
}

/// A chunk whose cells follow a pattern with runs of several lengths.
fn patterned() -> Chunk {
    let mut chunk = Chunk::new(GridPosition { x: 3, y: -1, z: 7 }, 0);
    for i in 0..4096u16 {
        let id = match i % 37 {
            0..=9 => 1,
            10..=11 => 2,
            12 => 0,
            _ => (i / 500) as i32 + 3,
        };
        chunk.set_block_i(i, id);
    }
    chunk
}

fn cells_of(chunk: &Chunk) -> Vec<i32> {
    let mut cells = Vec::new();
    for i in 0..4096u16 {
        let (x, y, z) = Chunk::i_to_xyz(i);
        cells.push(chunk.get_block(x, y, z));
    }
    cells
}

#[test]
fn constants_describe_a_cube_of_sixteen() {
    assert_eq!(CHUNK_WIDTH, 16);
    assert_eq!(CHUNK_CELLS, 16 * 16 * 16);
}

#[test]
fn linear_index_follows_the_formula() {
    assert_eq!(Chunk::xyz_to_i(0, 0, 0), 0);
    assert_eq!(Chunk::xyz_to_i(1, 0, 0), 1);
    assert_eq!(Chunk::xyz_to_i(0, 1, 0), 16);
    assert_eq!(Chunk::xyz_to_i(0, 0, 1), 256);
    assert_eq!(Chunk::xyz_to_i(1, 2, 3), 3 * 256 + 2 * 16 + 1);
    assert_eq!(Chunk::xyz_to_i(15, 15, 15), 4095);
}

#[test]
fn linearization_is_a_bijection() {
    let mut seen = vec![false; 4096];
    for z in 0..16u8 {
        for y in 0..16u8 {
            for x in 0..16u8 {
                let i = Chunk::xyz_to_i(x, y, z);
                assert!(i < 4096);
                assert!(!seen[i as usize]);
                seen[i as usize] = true;
                assert_eq!(Chunk::i_to_xyz(i), (x, y, z));
            }
        }
    }
    assert!(seen.iter().all(|s| *s));
    for i in 0..4096u16 {
        let (x, y, z) = Chunk::i_to_xyz(i);
        assert_eq!(Chunk::xyz_to_i(x, y, z), i);
    }
}

#[test]
fn new_chunk_is_filled_with_one_id() {
    let chunk = Chunk::new(GridPosition { x: 1, y: 2, z: 3 }, 5);
    assert_eq!(chunk.position(), GridPosition { x: 1, y: 2, z: 3 });
    assert!(cells_of(&chunk).iter().all(|id| *id == 5));
    assert!(chunk.vertices().is_empty());
    assert!(chunk.indices().is_empty());
}

#[test]
fn set_block_changes_one_cell() {
    let mut chunk = Chunk::new(origin(), 0);
    chunk.set_block(1, 2, 3, 7);
    assert_eq!(chunk.get_block(1, 2, 3), 7);
    let cells = cells_of(&chunk);
    for (i, id) in cells.iter().enumerate() {
        let expected = if i == 3 * 256 + 2 * 16 + 1 { 7 } else { 0 };
        assert_eq!(*id, expected);
    }
    chunk.set_block_i(4095, 9);
    assert_eq!(chunk.get_block(15, 15, 15), 9);
    chunk.set_block(1, 2, 3, 0);
    assert_eq!(chunk.get_block(1, 2, 3), 0);
}

#[test]
fn new_chunk_compresses_to_one_run() {
    let chunk = Chunk::new(origin(), 3);
    assert_eq!(chunk.compress(), vec![run(3, 4096)]);
    let air = Chunk::new(origin(), 0);
    assert_eq!(air.compress(), vec![run(0, 4096)]);
}

#[test]
fn compress_merges_stretches_of_equal_ids() {
    let mut chunk = Chunk::new(origin(), 0);
    chunk.set_block_i(0, 4);
    chunk.set_block_i(1, 4);
    chunk.set_block_i(2, 5);
    chunk.set_block_i(4095, 6);
    assert_eq!(chunk.compress(), vec![run(4, 2), run(5, 1), run(0, 4092), run(6, 1)]);
}

#[test]
fn compress_of_alternating_cells_has_a_run_for_each() {
    let mut chunk = Chunk::new(origin(), 0);
    for i in 0..4096u16 {
        chunk.set_block_i(i, (i % 2) as i32);
    }
    let runs = chunk.compress();
    assert_eq!(runs.len(), 4096);
    for (i, r) in runs.iter().enumerate() {
        assert_eq!(*r, run((i % 2) as i32, 1));
    }
}

#[test]
fn compression_never_has_equal_neighbours() {
    let runs = patterned().compress();
    assert!(runs.len() > 1);
    for pair in runs.windows(2) {
        assert_ne!(pair[0].id, pair[1].id);
    }
    for r in &runs {
        assert!(r.count > 0);
        assert!(r.id >= 0);
    }
    assert_eq!(runs.iter().map(|r| r.count as i64).sum::<i64>(), 4096);
}

#[test]
fn decompress_inverts_compress() {
    let chunk = patterned();
    let runs = chunk.compress();
    let back = Chunk::decompress(chunk.position(), &runs).unwrap();
    assert_eq!(back.position(), chunk.position());
    assert_eq!(cells_of(&back), cells_of(&chunk));
    assert_eq!(back.compress(), runs);
    assert!(back.vertices().is_empty());
    assert!(back.indices().is_empty());
}

#[test]
fn decompress_expands_runs_in_order() {
    let runs = vec![run(1, 10), run(2, 4000), run(1, 86)];
    let chunk = Chunk::decompress(origin(), &runs).unwrap();
    let cells = cells_of(&chunk);
    assert!(cells[..10].iter().all(|id| *id == 1));
    assert!(cells[10..4010].iter().all(|id| *id == 2));
    assert!(cells[4010..].iter().all(|id| *id == 1));
}

#[test]
fn decompress_accepts_unmerged_and_empty_runs() {
    let runs = vec![run(1, 0), run(2, 2048), run(2, 2048), run(3, 0)];
    let chunk = Chunk::decompress(origin(), &runs).unwrap();
    assert_eq!(chunk.compress(), vec![run(2, 4096)]);
}

#[test]
fn decompress_rejects_short_total() {
    let runs = vec![run(1, 4095)];
    assert_eq!(Chunk::decompress(origin(), &runs).err(), Some(FormatError::WrongTotal));
}

#[test]
fn decompress_rejects_long_total() {
    assert_eq!(
        Chunk::decompress(origin(), &vec![run(1, 4097)]).err(),
        Some(FormatError::WrongTotal)
    );
    assert_eq!(
        Chunk::decompress(origin(), &vec![run(1, 4096), run(2, 1)]).err(),
        Some(FormatError::WrongTotal)
    );
    assert_eq!(
        Chunk::decompress(origin(), &vec![run(1, i32::MAX), run(2, i32::MAX), run(3, i32::MAX)])
            .err(),
        Some(FormatError::WrongTotal)
    );
}

#[test]
fn decompress_rejects_no_runs() {
    assert_eq!(Chunk::decompress(origin(), &Vec::new()).err(), Some(FormatError::WrongTotal));
}

#[test]
fn decompress_rejects_negative_ids() {
    assert_eq!(
        Chunk::decompress(origin(), &vec![run(-1, 4096)]).err(),
        Some(FormatError::NegativeId)
    );
    assert_eq!(
        Chunk::decompress(origin(), &vec![run(1, 4096), run(-7, 0)]).err(),
        Some(FormatError::NegativeId)
    );
}

#[test]
fn decompress_rejects_negative_counts() {
    assert_eq!(
        Chunk::decompress(origin(), &vec![run(1, 5000), run(2, -904)]).err(),
        Some(FormatError::NegativeCount)
    );
}

#[test]
fn decompress_reports_a_negative_id_before_anything_else() {
    assert_eq!(
        Chunk::decompress(origin(), &vec![run(1, -5), run(2, 9000), run(-3, 1)]).err(),
        Some(FormatError::NegativeId)
    );
    assert_eq!(
        Chunk::decompress(origin(), &vec![run(1, 9000), run(2, -5)]).err(),
        Some(FormatError::NegativeCount)
    );
}
