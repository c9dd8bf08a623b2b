//! The chunk store: a cube of 16 x 16 x 16 block ids, addressed by local
//! coordinates or by a linear cell index, with its run-length compression.

use vstd::prelude::*;
use crate::items::ItemManager;
use crate::mesh::{mesh_indices, mesh_misses, mesh_vertices, QuadVertex, MESH_STEPS};

verus! {

/// Side length of a chunk, in blocks.
pub const CHUNK_WIDTH: u8 = 16;

/// Number of cells in a chunk.
pub const CHUNK_CELLS: usize = 4096;

/// A position on an integer grid: of a block in the world, or of a chunk in
/// the grid of chunks.
#[derive(Copy, Clone, Debug, PartialEq, Eq, Structural)]
pub struct GridPosition {
    pub x: i32,
    pub y: i32,
    pub z: i32,
}

/// The position of a chunk column in the grid of columns.
#[derive(Copy, Clone, Debug, PartialEq, Eq, Structural)]
pub struct ColumnPosition {
    pub x: i32,
    pub z: i32,
}

/// The linear index of the cell at local coordinates `(x, y, z)`.
pub open spec fn linear_index(x: int, y: int, z: int) -> int {
    z * 256 + y * 16 + x
}

/// The local coordinates `(x, y, z)` of the cell with linear index `i`.
pub open spec fn cell_coords(i: int) -> (int, int, int) {
    (i % 16, (i / 16) % 16, i / 256)
}

/// Whether `(x, y, z)` are local coordinates of a cell.
pub open spec fn in_chunk(x: int, y: int, z: int) -> bool {
    0 <= x < 16 && 0 <= y < 16 && 0 <= z < 16
}

/// Going from coordinates to the linear index and back gives the
/// coordinates, and the index names a cell.
pub proof fn lemma_linear_index_inverts(x: int, y: int, z: int)
    requires
        in_chunk(x, y, z),
    ensures
        0 <= linear_index(x, y, z) < 4096,
        cell_coords(linear_index(x, y, z)) == (x, y, z),
{
}

/// Going from a linear index to coordinates and back gives the index, and
/// the coordinates lie in the chunk.
pub proof fn lemma_cell_coords_inverts(i: int)
    requires
        0 <= i < 4096,
    ensures
        in_chunk(cell_coords(i).0, cell_coords(i).1, cell_coords(i).2),
        linear_index(cell_coords(i).0, cell_coords(i).1, cell_coords(i).2) == i,
{
}

/// Distinct cells have distinct linear indices.
pub proof fn lemma_linear_index_injective(x1: int, y1: int, z1: int, x2: int, y2: int, z2: int)
    requires
        in_chunk(x1, y1, z1),
        in_chunk(x2, y2, z2),
        linear_index(x1, y1, z1) == linear_index(x2, y2, z2),
    ensures
        x1 == x2 && y1 == y2 && z1 == z2,
{
    lemma_linear_index_inverts(x1, y1, z1);
    lemma_linear_index_inverts(x2, y2, z2);
}

/// Whether `cells` can be the cells of a chunk: there are 4096 of them, and
/// none holds a negative id.
pub open spec fn cells_are_valid(cells: Seq<i32>) -> bool {
    cells.len() == 4096 && forall|i: int| 0 <= i < 4096 ==> cells[i] >= 0
}

/// One run of the compressed form of a chunk: `count` consecutive cells, in
/// linear index order, that all hold `id`.
#[derive(Copy, Clone, Debug, PartialEq, Eq, Structural)]
pub struct CompressedSet {
    pub id: i32,
    pub count: i32,
}

/// Why a sequence of runs does not describe a chunk.
#[derive(Copy, Clone, Debug, PartialEq, Eq, Structural)]
pub enum FormatError {
    /// Some run has a negative block id.
    NegativeId,
    /// No id is negative, but some run has a negative length.
    NegativeCount,
    /// Ids and lengths are fine, but the lengths do not add up to 4096.
    WrongTotal,
}

/// The cells that one run stands for.
pub open spec fn run_cells(run: CompressedSet) -> Seq<i32> {
    Seq::new(
        if run.count > 0 {
            run.count as nat
        } else {
            0
        },
        |i: int| run.id,
    )
}

/// The cells that a sequence of runs stands for: the runs' cells, one run
/// after the other.
pub open spec fn expand(runs: Seq<CompressedSet>) -> Seq<i32>
    decreases runs.len(),
{
    if runs.len() == 0 {
        Seq::empty()
    } else {
        expand(runs.drop_last()) + run_cells(runs.last())
    }
}

/// The sum of the run lengths.
pub open spec fn total_count(runs: Seq<CompressedSet>) -> int
    decreases runs.len(),
{
    if runs.len() == 0 {
        0
    } else {
        total_count(runs.drop_last()) + runs.last().count
    }
}

/// No two neighbouring runs hold the same id.
pub open spec fn merged(runs: Seq<CompressedSet>) -> bool {
    forall|i: int| 0 <= i < runs.len() - 1 ==> (#[trigger] runs[i]).id != runs[i + 1].id
}

/// Every run has at least one cell.
pub open spec fn all_counts_positive(runs: Seq<CompressedSet>) -> bool {
    forall|i: int| 0 <= i < runs.len() ==> (#[trigger] runs[i]).count > 0
}

/// Some run has a negative id.
pub open spec fn has_negative_id(runs: Seq<CompressedSet>) -> bool {
    exists|i: int| 0 <= i < runs.len() && (#[trigger] runs[i]).id < 0
}

/// Some run has a negative length.
pub open spec fn has_negative_count(runs: Seq<CompressedSet>) -> bool {
    exists|i: int| 0 <= i < runs.len() && (#[trigger] runs[i]).count < 0
}

/// What is wrong with `runs` as the compressed form of a chunk, or `None`
/// if they are one: all ids and lengths at least 0, and 4096 cells in all.
pub open spec fn format_error(runs: Seq<CompressedSet>) -> Option<FormatError> {
    if has_negative_id(runs) {
        Some(FormatError::NegativeId)
    } else if has_negative_count(runs) {
        Some(FormatError::NegativeCount)
    } else if total_count(runs) != 4096 {
        Some(FormatError::WrongTotal)
    } else {
        None
    }
}

/// `runs` is the compressed form of `cells`: it expands to them, no run is
/// empty, and neighbouring runs differ in their id. There is one such
/// sequence for each sequence of cells.
pub open spec fn is_compression(cells: Seq<i32>, runs: Seq<CompressedSet>) -> bool {
    expand(runs) =~= cells && all_counts_positive(runs) && merged(runs)
}

/// Expanding runs with one more run at the end appends that run's cells.
pub proof fn lemma_expand_push(runs: Seq<CompressedSet>, run: CompressedSet)
    ensures
        expand(runs.push(run)) == expand(runs) + run_cells(run),
        total_count(runs.push(run)) == total_count(runs) + run.count,
{
    assert(runs.push(run).drop_last() =~= runs);
}

/// Where no length is negative, the expansion has as many cells as the
/// lengths add up to, and every prefix of the runs adds up to no more.
pub proof fn lemma_expand_len(runs: Seq<CompressedSet>, k: int)
    requires
        !has_negative_count(runs),
        0 <= k <= runs.len(),
    ensures
        expand(runs).len() == total_count(runs),
        0 <= total_count(runs.take(k)) <= total_count(runs),
    decreases runs.len(),
{
    if runs.len() > 0 {
        let front = runs.drop_last();
        assert forall|i: int| 0 <= i < front.len() implies (#[trigger] front[i]).count >= 0 by {
            assert(front[i] == runs[i]);
        }
        assert(runs.last() == runs[runs.len() - 1]);
        if k < runs.len() {
            lemma_expand_len(front, k);
            assert(front.take(k) =~= runs.take(k));
        } else {
            lemma_expand_len(front, front.len() as int);
            assert(runs.take(k) =~= runs);
        }
    } else {
        assert(runs.take(k) =~= runs);
    }
}

/// The id of a run that is not empty occurs among the expanded cells.
pub proof fn lemma_run_id_occurs(runs: Seq<CompressedSet>, i: int) -> (at: int)
    requires
        0 <= i < runs.len(),
        runs[i].count > 0,
    ensures
        0 <= at < expand(runs).len(),
        expand(runs)[at] == runs[i].id,
    decreases runs.len(),
{
    if i == runs.len() - 1 {
        expand(runs.drop_last()).len() as int
    } else {
        lemma_run_id_occurs(runs.drop_last(), i)
    }
}

/// How the expansion of runs is made of the expansion of all but the last
/// run and the cells of the last run.
proof fn lemma_expand_last(runs: Seq<CompressedSet>)
    requires
        runs.len() > 0,
        all_counts_positive(runs),
    ensures
        expand(runs).len() == expand(runs.drop_last()).len() + runs.last().count,
        expand(runs).take(expand(runs.drop_last()).len() as int) == expand(runs.drop_last()),
        forall|j: int|
            expand(runs.drop_last()).len() <= j < expand(runs).len() ==> expand(runs)[j]
                == runs.last().id,
        all_counts_positive(runs.drop_last()),
        merged(runs) ==> merged(runs.drop_last()),
{
    let front = runs.drop_last();
    assert(runs.last() == runs[runs.len() - 1]);
    assert(expand(runs).take(expand(front).len() as int) =~= expand(front));
    assert forall|i: int| 0 <= i < front.len() implies (#[trigger] front[i]).count > 0 by {
        assert(front[i] == runs[i]);
    }
    if merged(runs) {
        assert forall|i: int| 0 <= i < front.len() - 1 implies (#[trigger] front[i]).id != front[i
            + 1].id by {
            assert(front[i] == runs[i] && front[i + 1] == runs[i + 1]);
        }
    }
}

/// The compressed form is unique: two sequences of runs that both expand
/// to the same cells, without an empty run and without two neighbouring
/// runs of one id, are the same sequence.
pub proof fn lemma_compression_unique(
    cells: Seq<i32>,
    a: Seq<CompressedSet>,
    b: Seq<CompressedSet>,
)
    requires
        is_compression(cells, a),
        is_compression(cells, b),
    ensures
        a == b,
    decreases a.len(),
{
    if a.len() == 0 {
        if b.len() > 0 {
            lemma_expand_last(b);
        }
        assert(a =~= b);
    } else {
        lemma_expand_last(a);
        if b.len() == 0 {
            assert(expand(b).len() == 0);
        }
        lemma_expand_last(b);
        let n = cells.len() as int;
        let fa = a.drop_last();
        let fb = b.drop_last();
        let pa = expand(fa);
        let pb = expand(fb);
        assert(cells[n - 1] == a.last().id && cells[n - 1] == b.last().id);
        if a.last().count < b.last().count {
            assert(pa.len() > pb.len());
            assert(fa.len() > 0);
            lemma_expand_last(fa);
            assert(pa[pa.len() - 1] == fa.last().id);
            assert(cells.take(pa.len() as int)[pa.len() - 1] == cells[pa.len() - 1]);
            assert(fa.last() == a[a.len() - 2]);
            assert(a.last() == a[a.len() - 2 + 1]);
            assert(false);
        }
        if b.last().count < a.last().count {
            assert(pb.len() > pa.len());
            assert(fb.len() > 0);
            lemma_expand_last(fb);
            assert(pb[pb.len() - 1] == fb.last().id);
            assert(cells.take(pb.len() as int)[pb.len() - 1] == cells[pb.len() - 1]);
            assert(fb.last() == b[b.len() - 2]);
            assert(b.last() == b[b.len() - 2 + 1]);
            assert(false);
        }
        assert(a.last() == b.last());
        assert(pa =~= pb);
        lemma_compression_unique(pa, fa, fb);
        assert(a =~= fa.push(a.last()));
        assert(b =~= fb.push(b.last()));
    }
}

/// The compressed form of `cells`.
pub open spec fn compression_of(cells: Seq<i32>) -> Seq<CompressedSet> {
    choose|runs: Seq<CompressedSet>| is_compression(cells, runs)
}

/// Round trip of the compression: the compressed form of the cells of a
/// chunk is accepted as a description of a chunk, and expands to those very
/// cells, cell for cell.
pub proof fn lemma_compression_round_trip(cells: Seq<i32>, runs: Seq<CompressedSet>)
    requires
        cells_are_valid(cells),
        is_compression(cells, runs),
    ensures
        format_error(runs) is None,
        expand(runs) == cells,
        runs.len() >= 1,
{
    assert forall|i: int| 0 <= i < runs.len() implies (#[trigger] runs[i]).id >= 0 by {
        lemma_run_id_occurs(runs, i);
    }
    lemma_expand_len(runs, 0);
}

/// Compression is minimal: in the compressed form of any cells, no two
/// neighbouring runs hold the same id.
pub proof fn lemma_compression_is_minimal(cells: Seq<i32>, runs: Seq<CompressedSet>, i: int)
    requires
        is_compression(cells, runs),
        0 <= i < runs.len() - 1,
    ensures
        runs[i].id != runs[i + 1].id,
{
}

/// A 16 x 16 x 16 cube of block ids at a position of the chunk grid. Id 0 is
/// air; negative ids are never stored.
///
/// The chunk carries the mesh that was last built from it. Changing a block
/// leaves that mesh as it is, until it is built again.
#[derive(Debug)]
pub struct Chunk {
    position: GridPosition,
    blocks: [i32; 4096],
    vertices: Vec<QuadVertex>,
    indices: Vec<u32>,
}

impl Chunk {
    /// What holds of every chunk: see [`cells_are_valid`].
    #[verifier::type_invariant]
    pub closed spec fn well_formed(self) -> bool {
        forall|i: int| 0 <= i < 4096 ==> self.blocks@[i] >= 0
    }

    /// The cells of a chunk are valid.
    pub proof fn lemma_valid(self)
        requires
            self.well_formed(),
        ensures
            cells_are_valid(self.cells()),
    {
    }

    /// The block ids in linear index order.
    pub closed spec fn cells(&self) -> Seq<i32> {
        self.blocks@
    }

    /// Where the chunk stands in the grid of chunks.
    pub closed spec fn spec_position(&self) -> GridPosition {
        self.position
    }

    /// The vertices of the mesh that was last built.
    pub closed spec fn spec_vertices(&self) -> Seq<QuadVertex> {
        self.vertices@
    }

    /// The indices of the mesh that was last built.
    pub closed spec fn spec_indices(&self) -> Seq<u32> {
        self.indices@
    }

    /// A chunk always has 4096 cells.
    pub proof fn lemma_cell_count(self)
        ensures
            self.cells().len() == 4096,
    {
    }

    /// Creates a chunk at `position` with every cell holding `id`.
    pub fn new(position: GridPosition, id: i32) -> (c: Chunk)
        requires
            id >= 0,
        ensures
            c.spec_position() == position,
            c.cells() == Seq::new(4096, |i: int| id),
            c.spec_vertices() == Seq::<QuadVertex>::empty(),
            c.spec_indices() == Seq::<u32>::empty(),
    {
        let c = Chunk { position, blocks: [id;4096], vertices: Vec::new(), indices: Vec::new() };
        assert(c.blocks@ =~= Seq::new(4096, |i: int| id));
        c
    }

    /// Where the chunk stands in the grid of chunks.
    pub fn position(&self) -> (p: GridPosition)
        ensures
            p == self.spec_position(),
    {
        self.position
    }

    /// The vertices of the mesh that was last built.
    pub fn vertices(&self) -> (v: &Vec<QuadVertex>)
        ensures
            v@ == self.spec_vertices(),
    {
        &self.vertices
    }

    /// The indices of the mesh that was last built.
    pub fn indices(&self) -> (v: &Vec<u32>)
        ensures
            v@ == self.spec_indices(),
    {
        &self.indices
    }

    /// The linear index of the cell at `(x, y, z)`.
    pub fn xyz_to_i(x: u8, y: u8, z: u8) -> (i: u16)
        requires
            in_chunk(x as int, y as int, z as int),
        ensures
            i == linear_index(x as int, y as int, z as int),
            i < 4096,
    {
        256 * (z as u16) + 16 * (y as u16) + (x as u16)
    }

    /// The coordinates `(x, y, z)` of the cell with linear index `i`.
    pub fn i_to_xyz(i: u16) -> (c: (u8, u8, u8))
        requires
            i < 4096,
        ensures
            (c.0 as int, c.1 as int, c.2 as int) == cell_coords(i as int),
            in_chunk(c.0 as int, c.1 as int, c.2 as int),
    {
        ((i % 16) as u8, ((i / 16) % 16) as u8, (i / 256) as u8)
    }

    /// Sets the cell with linear index `i` to `id`.
    pub fn set_block_i(&mut self, i: u16, id: i32)
        requires
            i < 4096,
            id >= 0,
        ensures
            final(self).cells() == old(self).cells().update(i as int, id),
            final(self).spec_position() == old(self).spec_position(),
            final(self).spec_vertices() == old(self).spec_vertices(),
            final(self).spec_indices() == old(self).spec_indices(),
    {
        proof {
            use_type_invariant(&*self);
        }
        self.blocks[i as usize] = id;
    }

    /// Sets the cell at `(x, y, z)` to `id`.
    pub fn set_block(&mut self, x: u8, y: u8, z: u8, id: i32)
        requires
            in_chunk(x as int, y as int, z as int),
            id >= 0,
        ensures
            final(self).cells() == old(self).cells().update(
                linear_index(x as int, y as int, z as int),
                id,
            ),
            final(self).spec_position() == old(self).spec_position(),
            final(self).spec_vertices() == old(self).spec_vertices(),
            final(self).spec_indices() == old(self).spec_indices(),
    {
        self.set_block_i(Chunk::xyz_to_i(x, y, z), id);
    }

    /// The id of the block at `(x, y, z)`.
    pub fn get_block(&self, x: u8, y: u8, z: u8) -> (id: i32)
        requires
            in_chunk(x as int, y as int, z as int),
        ensures
            id == self.cells()[linear_index(x as int, y as int, z as int)],
            id >= 0,
    {
        proof {
            use_type_invariant(self);
        }
        self.blocks[Chunk::xyz_to_i(x, y, z) as usize]
    }

    /// Compresses the cells by run-length encoding: scans them in linear
    /// index order and merges each stretch of equal ids into one run.
    pub fn compress(&self) -> (runs: Vec<CompressedSet>)
        ensures
            cells_are_valid(self.cells()),
            is_compression(self.cells(), runs@),
            runs@ == compression_of(self.cells()),
            format_error(runs@) is None,
            1 <= runs@.len() <= 4096,
    {
        proof {
            use_type_invariant(self);
        }
        let mut set: Vec<CompressedSet> = Vec::new();
        let mut id: i32 = self.blocks[0];
        let mut number: i32 = 1;
        let mut i: usize = 1;
        assert(run_cells(CompressedSet { id, count: number }) =~= self.blocks@.take(1));
        while i < 4096
            invariant
                1 <= i <= 4096,
                1 <= number <= i,
                set@.len() + number <= i,
                expand(set@) + run_cells(CompressedSet { id, count: number }) =~= self.blocks@.take(
                    i as int,
                ),
                all_counts_positive(set@),
                merged(set@),
                set@.len() > 0 ==> set@.last().id != id,
            decreases 4096 - i,
        {
            let block = self.blocks[i];
            let ghost before = expand(set@) + run_cells(CompressedSet { id, count: number });
            if block == id {
                number += 1;
                assert(run_cells(CompressedSet { id, count: number }) =~= run_cells(
                    CompressedSet { id, count: (number - 1) as i32 },
                ).push(block));
            } else {
                proof {
                    lemma_expand_push(set@, CompressedSet { id, count: number });
                }
                set.push(CompressedSet { id, count: number });
                id = block;
                number = 1;
                assert(run_cells(CompressedSet { id, count: number }) =~= seq![block]);
            }
            assert(self.blocks@.take(i + 1) =~= self.blocks@.take(i as int).push(block));
            assert(expand(set@) + run_cells(CompressedSet { id, count: number }) =~= before.push(
                block,
            ));
            i += 1;
        }
        proof {
            lemma_expand_push(set@, CompressedSet { id, count: number });
            assert(self.blocks@.take(4096) =~= self.blocks@);
        }
        set.push(CompressedSet { id, count: number });
        proof {
            lemma_compression_round_trip(self.cells(), set@);
            assert(is_compression(self.cells(), set@));
            lemma_compression_unique(self.cells(), set@, compression_of(self.cells()));
        }
        set
    }

    /// Expands `sets` into a chunk at `position`, with no mesh built yet.
    ///
    /// The runs are rejected, and nothing is read or written out of bounds,
    /// unless every id and every length is at least 0 and the lengths add up
    /// to exactly 4096.
    pub fn decompress(position: GridPosition, sets: &Vec<CompressedSet>) -> (r: Result<
        Chunk,
        FormatError,
    >)
        ensures
            match r {
                Ok(c) => {
                    &&& format_error(sets@) is None
                    &&& c.cells() == expand(sets@)
                    &&& cells_are_valid(c.cells())
                    &&& c.spec_position() == position
                    &&& c.spec_vertices() == Seq::<QuadVertex>::empty()
                    &&& c.spec_indices() == Seq::<u32>::empty()
                },
                Err(e) => format_error(sets@) == Some(e),
            },
    {
        let n = sets.len();
        let mut k: usize = 0;
        while k < n
            invariant
                k <= n,
                n == sets@.len(),
                forall|i: int| 0 <= i < k ==> (#[trigger] sets@[i]).id >= 0,
            decreases n - k,
        {
            if sets[k].id < 0 {
                return Err(FormatError::NegativeId);
            }
            k += 1;
        }
        k = 0;
        while k < n
            invariant
                k <= n,
                n == sets@.len(),
                !has_negative_id(sets@),
                forall|i: int| 0 <= i < k ==> (#[trigger] sets@[i]).count >= 0,
            decreases n - k,
        {
            if sets[k].count < 0 {
                return Err(FormatError::NegativeCount);
            }
            k += 1;
        }
        let mut blocks: [i32; 4096] = [0;4096];
        let mut filled: usize = 0;
        k = 0;
        while k < n
            invariant
                k <= n,
                n == sets@.len(),
                filled <= 4096,
                !has_negative_id(sets@),
                !has_negative_count(sets@),
                filled == total_count(sets@.take(k as int)),
                blocks@.take(filled as int) =~= expand(sets@.take(k as int)),
                forall|i: int| 0 <= i < 4096 ==> blocks@[i] >= 0,
            decreases n - k,
        {
            let run = sets[k];
            proof {
                assert(sets@.take(k + 1) =~= sets@.take(k as int).push(run));
                lemma_expand_push(sets@.take(k as int), run);
                lemma_expand_len(sets@, k + 1);
            }
            if run.count as usize > 4096 - filled {
                return Err(FormatError::WrongTotal);
            }
            let end: usize = filled + run.count as usize;
            let ghost start = filled;
            let ghost prefix = blocks@.take(filled as int);
            while filled < end
                invariant
                    start <= filled <= end <= 4096,
                    run.id >= 0,
                    blocks@.take(start as int) =~= prefix,
                    forall|i: int| start <= i < filled ==> blocks@[i] == run.id,
                    forall|i: int| 0 <= i < 4096 ==> blocks@[i] >= 0,
                decreases end - filled,
            {
                blocks[filled] = run.id;
                filled += 1;
            }
            assert(blocks@.take(filled as int) =~= prefix + run_cells(run));
            k += 1;
        }
        proof {
            assert(sets@.take(n as int) =~= sets@);
        }
        if filled != 4096 {
            return Err(FormatError::WrongTotal);
        }
        assert(blocks@.take(4096) =~= blocks@);
        Ok(Chunk { position, blocks, vertices: Vec::new(), indices: Vec::new() })
    }

    /// Rebuilds the chunk's mesh from its cells: the old vertices and indices
    /// are dropped and replaced. Returns the block ids that the registry did
    /// not know, one entry for each failed lookup, for the caller to report.
    pub fn build_mesh(&mut self, item_manager: &ItemManager) -> (misses: Vec<i32>)
        ensures
            final(self).spec_vertices() == mesh_vertices(
                old(self).cells(),
                item_manager@,
                MESH_STEPS as nat,
            ),
            final(self).spec_indices() == mesh_indices(
                old(self).cells(),
                item_manager@,
                MESH_STEPS as nat,
            ),
            misses@ == mesh_misses(old(self).cells(), item_manager@, MESH_STEPS as nat),
            final(self).cells() == old(self).cells(),
            final(self).spec_position() == old(self).spec_position(),
    {
        proof {
            use_type_invariant(&*self);
        }
        let mesh = crate::mesh::build(&self.blocks, item_manager);
        self.vertices = mesh.vertices;
        self.indices = mesh.indices;
        mesh.misses
    }
}

} // verus!
