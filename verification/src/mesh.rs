//! The mesh builder: turns the cells of a chunk into the vertices and
//! indices of its visible faces.
//!
//! Cells are visited in linear index order and, for each cell, the six faces
//! in the order of [`Face::of_index`]. One such visit of one face of one cell
//! is a *step*; a chunk has 6 * 4096 of them. The mesh is defined step by
//! step, so that a prefix of the steps has a mesh of its own.

use vstd::prelude::*;
use crate::chunk::{cell_coords, in_chunk, linear_index};
use crate::items::{
    registry_lookup,
    registry_transparency,
    ItemInfo,
    ItemManager,
    TexCoord,
    TextureCoordinates,
};

verus! {

/// Number of steps that visit a whole chunk: six faces for each cell.
pub const MESH_STEPS: usize = 24576;

/// A point of a chunk's own coordinate grid, 0 to 16 on each axis.
#[derive(Copy, Clone, Debug, PartialEq, Eq, Structural)]
pub struct MeshPoint {
    pub x: u8,
    pub y: u8,
    pub z: u8,
}

/// A corner of a visible face: where it lies in the chunk, and the point of
/// the texture atlas drawn there.
#[derive(Copy, Clone, Debug, PartialEq, Eq, Structural)]
pub struct QuadVertex {
    pub position: MeshPoint,
    pub tex_coords: TexCoord,
}

/// The six faces of a block, in the order in which the builder visits them.
#[derive(Copy, Clone, Debug, PartialEq, Eq, Structural)]
pub enum Face {
    /// Towards larger z.
    Right,
    /// Towards smaller z.
    Left,
    /// Towards smaller x.
    Front,
    /// Towards larger x.
    Back,
    /// Towards smaller y.
    Bottom,
    /// Towards larger y.
    Top,
}

impl Face {
    /// The face visited at place `k` of a cell's six steps.
    pub open spec fn of_index(k: int) -> Face {
        if k == 0 {
            Face::Right
        } else if k == 1 {
            Face::Left
        } else if k == 2 {
            Face::Front
        } else if k == 3 {
            Face::Back
        } else if k == 4 {
            Face::Bottom
        } else {
            Face::Top
        }
    }

    /// The step from a cell to the cell that this face touches.
    pub open spec fn offset(self) -> (int, int, int) {
        match self {
            Face::Right => (0, 0, 1),
            Face::Left => (0, 0, -1),
            Face::Front => (-1, 0, 0),
            Face::Back => (1, 0, 0),
            Face::Bottom => (0, -1, 0),
            Face::Top => (0, 1, 0),
        }
    }

    /// Corner `c` of this face, relative to the cell's own corner nearest the
    /// origin. Corners are numbered 0 bottom left, 1 bottom right, 2 top
    /// right, 3 top left, as the face's texture is laid out.
    pub open spec fn corner(self, c: int) -> (int, int, int) {
        match self {
            Face::Right => if c == 0 {
                (0, 0, 1)
            } else if c == 1 {
                (1, 0, 1)
            } else if c == 2 {
                (1, 1, 1)
            } else {
                (0, 1, 1)
            },
            Face::Left => if c == 0 {
                (0, 0, 0)
            } else if c == 1 {
                (1, 0, 0)
            } else if c == 2 {
                (1, 1, 0)
            } else {
                (0, 1, 0)
            },
            Face::Front => if c == 0 {
                (0, 0, 0)
            } else if c == 1 {
                (0, 0, 1)
            } else if c == 2 {
                (0, 1, 1)
            } else {
                (0, 1, 0)
            },
            Face::Back => if c == 0 {
                (1, 0, 0)
            } else if c == 1 {
                (1, 0, 1)
            } else if c == 2 {
                (1, 1, 1)
            } else {
                (1, 1, 0)
            },
            Face::Bottom => if c == 0 {
                (0, 0, 1)
            } else if c == 1 {
                (1, 0, 1)
            } else if c == 2 {
                (1, 0, 0)
            } else {
                (0, 0, 0)
            },
            Face::Top => if c == 0 {
                (0, 1, 1)
            } else if c == 1 {
                (1, 1, 1)
            } else if c == 2 {
                (1, 1, 0)
            } else {
                (0, 1, 0)
            },
        }
    }

    /// Which of the two windings this face's triangles use. The faces of a
    /// pair that look in opposite directions wind in opposite senses, so that
    /// every face shows its front to the outside.
    pub open spec fn winds_forward(self) -> bool {
        self == Face::Right || self == Face::Front || self == Face::Top
    }

    /// The texture that this face of a block of kind `info` shows.
    pub open spec fn texture(self, info: ItemInfo) -> TextureCoordinates {
        match self {
            Face::Bottom => info.bottom_tex_coords,
            Face::Top => info.top_tex_coords,
            _ => info.side_tex_coords,
        }
    }

    /// The face visited at place `k` of a cell's six steps.
    pub fn from_index(k: usize) -> (f: Face)
        requires
            k < 6,
        ensures
            f == Face::of_index(k as int),
    {
        if k == 0 {
            Face::Right
        } else if k == 1 {
            Face::Left
        } else if k == 2 {
            Face::Front
        } else if k == 3 {
            Face::Back
        } else if k == 4 {
            Face::Bottom
        } else {
            Face::Top
        }
    }

    /// The cell that this face of the cell `(x, y, z)` touches, or `None`
    /// where the face lies on the chunk's boundary.
    pub fn neighbor(self, x: u8, y: u8, z: u8) -> (n: Option<(u8, u8, u8)>)
        requires
            in_chunk(x as int, y as int, z as int),
        ensures
            n is Some <==> in_chunk(
                x + self.offset().0,
                y + self.offset().1,
                z + self.offset().2,
            ),
            n is Some ==> n->Some_0.0 == x + self.offset().0 && n->Some_0.1 == y + self.offset().1
                && n->Some_0.2 == z + self.offset().2,
    {
        match self {
            Face::Right => if z != 15 {
                Some((x, y, z + 1))
            } else {
                None
            },
            Face::Left => if z != 0 {
                Some((x, y, z - 1))
            } else {
                None
            },
            Face::Front => if x != 0 {
                Some((x - 1, y, z))
            } else {
                None
            },
            Face::Back => if x != 15 {
                Some((x + 1, y, z))
            } else {
                None
            },
            Face::Bottom => if y != 0 {
                Some((x, y - 1, z))
            } else {
                None
            },
            Face::Top => if y != 15 {
                Some((x, y + 1, z))
            } else {
                None
            },
        }
    }

    /// Corner `c` of this face of the cell `(x, y, z)`, in chunk coordinates.
    pub fn corner_of(self, x: u8, y: u8, z: u8, c: usize) -> (p: (u8, u8, u8))
        requires
            in_chunk(x as int, y as int, z as int),
            c < 4,
        ensures
            p.0 == x + self.corner(c as int).0,
            p.1 == y + self.corner(c as int).1,
            p.2 == z + self.corner(c as int).2,
    {
        let one: u8 = 1;
        match self {
            Face::Right => if c == 0 {
                (x, y, z + one)
            } else if c == 1 {
                (x + one, y, z + one)
            } else if c == 2 {
                (x + one, y + one, z + one)
            } else {
                (x, y + one, z + one)
            },
            Face::Left => if c == 0 {
                (x, y, z)
            } else if c == 1 {
                (x + one, y, z)
            } else if c == 2 {
                (x + one, y + one, z)
            } else {
                (x, y + one, z)
            },
            Face::Front => if c == 0 {
                (x, y, z)
            } else if c == 1 {
                (x, y, z + one)
            } else if c == 2 {
                (x, y + one, z + one)
            } else {
                (x, y + one, z)
            },
            Face::Back => if c == 0 {
                (x + one, y, z)
            } else if c == 1 {
                (x + one, y, z + one)
            } else if c == 2 {
                (x + one, y + one, z + one)
            } else {
                (x + one, y + one, z)
            },
            Face::Bottom => if c == 0 {
                (x, y, z + one)
            } else if c == 1 {
                (x + one, y, z + one)
            } else if c == 2 {
                (x + one, y, z)
            } else {
                (x, y, z)
            },
            Face::Top => if c == 0 {
                (x, y + one, z + one)
            } else if c == 1 {
                (x + one, y + one, z + one)
            } else if c == 2 {
                (x + one, y + one, z)
            } else {
                (x, y + one, z)
            },
        }
    }
}

/// Corner `c` of a texture: 0 bottom left, 1 bottom right, 2 top right,
/// 3 top left.
pub open spec fn corner_tex(t: TextureCoordinates, c: int) -> TexCoord {
    if c == 0 {
        t.bl
    } else if c == 1 {
        t.br
    } else if c == 2 {
        t.tr
    } else {
        t.tl
    }
}

/// Whether the given face of the cell `(x, y, z)` is drawn, given that the
/// cell itself holds an opaque block. A face on the chunk's boundary always
/// is; a face inside the chunk is unless the registry reports the block
/// behind it as opaque.
pub open spec fn face_visible(
    cells: Seq<i32>,
    reg: Seq<ItemInfo>,
    x: int,
    y: int,
    z: int,
    face: Face,
) -> bool {
    let (dx, dy, dz) = face.offset();
    in_chunk(x + dx, y + dy, z + dz) ==> registry_transparency(
        reg,
        cells[linear_index(x + dx, y + dy, z + dz)] as int,
    ) != Some(false)
}

/// The cell that a step visits.
pub open spec fn step_cell(step: int) -> int {
    step / 6
}

/// The face that a step visits.
pub open spec fn step_face(step: int) -> Face {
    Face::of_index(step % 6)
}

/// The kind of the block in `cell` if that block is drawn at all: it is
/// known to the registry and not transparent.
pub open spec fn drawn_block(cells: Seq<i32>, reg: Seq<ItemInfo>, cell: int) -> Option<ItemInfo> {
    match registry_lookup(reg, cells[cell] as int) {
        Some(info) => if info.is_transparent {
            None
        } else {
            Some(info)
        },
        None => None,
    }
}

/// Whether a step adds a face to the mesh.
pub open spec fn step_emits(cells: Seq<i32>, reg: Seq<ItemInfo>, step: int) -> bool {
    let (x, y, z) = cell_coords(step_cell(step));
    drawn_block(cells, reg, step_cell(step)) is Some && face_visible(
        cells,
        reg,
        x,
        y,
        z,
        step_face(step),
    )
}

/// Corner `c` of a face of a block of kind `info` in the cell `(x, y, z)`.
pub open spec fn face_vertex(info: ItemInfo, x: int, y: int, z: int, face: Face, c: int)
    -> QuadVertex {
    QuadVertex {
        position: MeshPoint {
            x: (x + face.corner(c).0) as u8,
            y: (y + face.corner(c).1) as u8,
            z: (z + face.corner(c).2) as u8,
        },
        tex_coords: corner_tex(face.texture(info), c),
    }
}

/// The four vertices of a face, in corner order.
pub open spec fn face_vertices(info: ItemInfo, x: int, y: int, z: int, face: Face) -> Seq<
    QuadVertex,
> {
    Seq::new(4, |c: int| face_vertex(info, x, y, z, face, c))
}

/// The corner that the index at place `k` of a face's six indices points
/// at. The first three places make one triangle, the last three the other.
pub open spec fn winding_corner(face: Face, k: int) -> int {
    if face.winds_forward() {
        if k == 0 {
            0
        } else if k == 1 {
            1
        } else if k == 2 {
            3
        } else if k == 3 {
            2
        } else if k == 4 {
            3
        } else {
            1
        }
    } else {
        if k == 0 {
            3
        } else if k == 1 {
            1
        } else if k == 2 {
            0
        } else if k == 3 {
            1
        } else if k == 4 {
            3
        } else {
            2
        }
    }
}

/// The six indices of a face whose first vertex has index `base`: two
/// triangles over the corners `base` (bottom left), `base + 1` (bottom
/// right), `base + 2` (top right) and `base + 3` (top left).
pub open spec fn face_indices(base: int, face: Face) -> Seq<u32> {
    Seq::new(6, |k: int| (base + winding_corner(face, k)) as u32)
}

/// The cross product of two vectors.
pub open spec fn cross(a: (int, int, int), b: (int, int, int)) -> (int, int, int) {
    (a.1 * b.2 - a.2 * b.1, a.2 * b.0 - a.0 * b.2, a.0 * b.1 - a.1 * b.0)
}

/// The normal of a triangle with the corners `a`, `b`, `c` in this order,
/// by the right-hand rule.
pub open spec fn triangle_normal(a: (int, int, int), b: (int, int, int), c: (int, int, int)) -> (
    int,
    int,
    int,
) {
    cross((b.0 - a.0, b.1 - a.1, b.2 - a.2), (c.0 - a.0, c.1 - a.1, c.2 - a.2))
}

/// Every face shows its front to the outside: by the right-hand rule, the
/// normal of each of its two triangles is the step from the block to the
/// neighbour that the face touches.
pub proof fn lemma_faces_wind_outward(face: Face)
    ensures
        triangle_normal(
            face.corner(winding_corner(face, 0)),
            face.corner(winding_corner(face, 1)),
            face.corner(winding_corner(face, 2)),
        ) == face.offset(),
        triangle_normal(
            face.corner(winding_corner(face, 3)),
            face.corner(winding_corner(face, 4)),
            face.corner(winding_corner(face, 5)),
        ) == face.offset(),
{
    lemma_normal_of(
        face.corner(winding_corner(face, 0)),
        face.corner(winding_corner(face, 1)),
        face.corner(winding_corner(face, 2)),
    );
    lemma_normal_of(
        face.corner(winding_corner(face, 3)),
        face.corner(winding_corner(face, 4)),
        face.corner(winding_corner(face, 5)),
    );
}

/// The normal of a triangle whose corners are corners of the unit cube, one
/// coordinate at a time.
proof fn lemma_normal_of(a: (int, int, int), b: (int, int, int), c: (int, int, int))
    requires
        0 <= a.0 <= 1 && 0 <= a.1 <= 1 && 0 <= a.2 <= 1,
        0 <= b.0 <= 1 && 0 <= b.1 <= 1 && 0 <= b.2 <= 1,
        0 <= c.0 <= 1 && 0 <= c.1 <= 1 && 0 <= c.2 <= 1,
    ensures
        triangle_normal(a, b, c).0 == unit_product(b.1 - a.1, c.2 - a.2) - unit_product(
            b.2 - a.2,
            c.1 - a.1,
        ),
        triangle_normal(a, b, c).1 == unit_product(b.2 - a.2, c.0 - a.0) - unit_product(
            b.0 - a.0,
            c.2 - a.2,
        ),
        triangle_normal(a, b, c).2 == unit_product(b.0 - a.0, c.1 - a.1) - unit_product(
            b.1 - a.1,
            c.0 - a.0,
        ),
{
    lemma_unit_product(b.1 - a.1, c.2 - a.2);
    lemma_unit_product(b.2 - a.2, c.1 - a.1);
    lemma_unit_product(b.2 - a.2, c.0 - a.0);
    lemma_unit_product(b.0 - a.0, c.2 - a.2);
    lemma_unit_product(b.0 - a.0, c.1 - a.1);
    lemma_unit_product(b.1 - a.1, c.0 - a.0);
}

/// The product of two numbers that are each -1, 0 or 1.
spec fn unit_product(x: int, y: int) -> int {
    if x == 0 || y == 0 {
        0
    } else if x == y {
        1
    } else {
        -1
    }
}

/// [`unit_product`] is the product.
proof fn lemma_unit_product(x: int, y: int)
    requires
        -1 <= x <= 1,
        -1 <= y <= 1,
    ensures
        x * y == unit_product(x, y),
{
    assert(x * y == unit_product(x, y)) by (nonlinear_arith)
        requires
            -1 <= x <= 1,
            -1 <= y <= 1,
            unit_product(x, y) == (if x == 0 || y == 0 {
                0
            } else if x == y {
                1int
            } else {
                -1int
            }),
    ;
}

/// The four corners of a face are the corners of the side of the unit cube
/// that lies towards the neighbour that the face touches.
pub proof fn lemma_corners_lie_on_the_face(face: Face, c: int)
    requires
        0 <= c < 4,
    ensures
        0 <= face.corner(c).0 <= 1 && 0 <= face.corner(c).1 <= 1 && 0 <= face.corner(c).2 <= 1,
        face.offset().0 == 1 ==> face.corner(c).0 == 1,
        face.offset().0 == -1 ==> face.corner(c).0 == 0,
        face.offset().1 == 1 ==> face.corner(c).1 == 1,
        face.offset().1 == -1 ==> face.corner(c).1 == 0,
        face.offset().2 == 1 ==> face.corner(c).2 == 1,
        face.offset().2 == -1 ==> face.corner(c).2 == 0,
{
}

/// The vertices that a step adds, if it emits.
pub open spec fn step_vertices(cells: Seq<i32>, reg: Seq<ItemInfo>, step: int) -> Seq<QuadVertex> {
    let (x, y, z) = cell_coords(step_cell(step));
    face_vertices(drawn_block(cells, reg, step_cell(step))->Some_0, x, y, z, step_face(step))
}

/// The block ids that a step looks up in vain: the cell's own id, reported
/// once at the cell's first step, or the id behind a face of a drawn block.
pub open spec fn step_misses(cells: Seq<i32>, reg: Seq<ItemInfo>, step: int) -> Seq<i32> {
    let cell = step_cell(step);
    let (x, y, z) = cell_coords(cell);
    let (dx, dy, dz) = step_face(step).offset();
    if registry_lookup(reg, cells[cell] as int) is None {
        if step % 6 == 0 {
            seq![cells[cell]]
        } else {
            Seq::empty()
        }
    } else if drawn_block(cells, reg, cell) is Some && in_chunk(x + dx, y + dy, z + dz)
        && registry_lookup(reg, cells[linear_index(x + dx, y + dy, z + dz)] as int) is None {
        seq![cells[linear_index(x + dx, y + dy, z + dz)]]
    } else {
        Seq::empty()
    }
}

/// The vertices of the mesh after the first `steps` steps.
pub open spec fn mesh_vertices(cells: Seq<i32>, reg: Seq<ItemInfo>, steps: nat) -> Seq<QuadVertex>
    decreases steps,
{
    if steps == 0 {
        Seq::empty()
    } else {
        let before = mesh_vertices(cells, reg, (steps - 1) as nat);
        if step_emits(cells, reg, steps - 1) {
            before + step_vertices(cells, reg, steps - 1)
        } else {
            before
        }
    }
}

/// The indices of the mesh after the first `steps` steps.
pub open spec fn mesh_indices(cells: Seq<i32>, reg: Seq<ItemInfo>, steps: nat) -> Seq<u32>
    decreases steps,
{
    if steps == 0 {
        Seq::empty()
    } else {
        let before = mesh_indices(cells, reg, (steps - 1) as nat);
        if step_emits(cells, reg, steps - 1) {
            before + face_indices(
                mesh_vertices(cells, reg, (steps - 1) as nat).len() as int,
                step_face(steps - 1),
            )
        } else {
            before
        }
    }
}

/// The block ids looked up in vain during the first `steps` steps, in order.
pub open spec fn mesh_misses(cells: Seq<i32>, reg: Seq<ItemInfo>, steps: nat) -> Seq<i32>
    decreases steps,
{
    if steps == 0 {
        Seq::empty()
    } else {
        mesh_misses(cells, reg, (steps - 1) as nat) + step_misses(cells, reg, steps - 1)
    }
}

/// The geometry of a chunk, with the block ids that the registry did not
/// know while it was built.
#[derive(Debug)]
pub struct Mesh {
    /// Four vertices for each visible face.
    pub vertices: Vec<QuadVertex>,
    /// Six indices into `vertices` for each visible face.
    pub indices: Vec<u32>,
    /// The ids looked up in vain, one entry for each such lookup.
    pub misses: Vec<i32>,
}

/// A mesh has at most four vertices and six indices for each step.
pub proof fn lemma_mesh_sizes(cells: Seq<i32>, reg: Seq<ItemInfo>, steps: nat)
    ensures
        mesh_vertices(cells, reg, steps).len() <= 4 * steps,
        mesh_indices(cells, reg, steps).len() <= 6 * steps,
        mesh_vertices(cells, reg, steps).len() % 4 == 0,
        2 * mesh_indices(cells, reg, steps).len() == 3 * mesh_vertices(cells, reg, steps).len(),
    decreases steps,
{
    if steps > 0 {
        lemma_mesh_sizes(cells, reg, (steps - 1) as nat);
    }
}

/// Every index of a mesh points at one of its vertices.
pub proof fn lemma_indices_point_at_vertices(
    cells: Seq<i32>,
    reg: Seq<ItemInfo>,
    steps: nat,
    i: int,
)
    requires
        steps <= MESH_STEPS,
        0 <= i < mesh_indices(cells, reg, steps).len(),
    ensures
        mesh_indices(cells, reg, steps)[i] < mesh_vertices(cells, reg, steps).len(),
    decreases steps,
{
    if steps > 0 {
        let before = mesh_indices(cells, reg, (steps - 1) as nat);
        lemma_mesh_sizes(cells, reg, (steps - 1) as nat);
        if i < before.len() {
            lemma_indices_point_at_vertices(cells, reg, (steps - 1) as nat, i);
        }
    }
}

/// Steps that emit nothing leave the mesh as it was.
pub proof fn lemma_idle_steps(cells: Seq<i32>, reg: Seq<ItemInfo>, from: nat, to: nat)
    requires
        from <= to,
        forall|s: int| from <= s < to ==> !step_emits(cells, reg, s),
    ensures
        mesh_vertices(cells, reg, to) == mesh_vertices(cells, reg, from),
        mesh_indices(cells, reg, to) == mesh_indices(cells, reg, from),
    decreases to - from,
{
    if from < to {
        lemma_idle_steps(cells, reg, from, (to - 1) as nat);
    }
}

/// Steps without a failed lookup leave the list of misses as it was.
pub proof fn lemma_quiet_steps(cells: Seq<i32>, reg: Seq<ItemInfo>, from: nat, to: nat)
    requires
        from <= to,
        forall|s: int| from <= s < to ==> step_misses(cells, reg, s).len() == 0,
    ensures
        mesh_misses(cells, reg, to) == mesh_misses(cells, reg, from),
    decreases to - from,
{
    if from < to {
        lemma_quiet_steps(cells, reg, from, (to - 1) as nat);
        assert(step_misses(cells, reg, to - 1) =~= Seq::<i32>::empty());
    }
}

/// Corner `c` of a texture.
fn texture_corner(t: &TextureCoordinates, c: usize) -> (p: TexCoord)
    requires
        c < 4,
    ensures
        p == corner_tex(*t, c as int),
{
    if c == 0 {
        t.bl
    } else if c == 1 {
        t.br
    } else if c == 2 {
        t.tr
    } else {
        t.tl
    }
}

/// The texture that `face` of a block of kind `info` shows.
fn face_texture(face: Face, info: &ItemInfo) -> (t: TextureCoordinates)
    ensures
        t == face.texture(*info),
{
    match face {
        Face::Bottom => info.bottom_tex_coords,
        Face::Top => info.top_tex_coords,
        _ => info.side_tex_coords,
    }
}

/// Appends the four vertices and six indices of one face.
fn push_face(
    vertices: &mut Vec<QuadVertex>,
    indices: &mut Vec<u32>,
    info: &ItemInfo,
    x: u8,
    y: u8,
    z: u8,
    face: Face,
)
    requires
        in_chunk(x as int, y as int, z as int),
        old(vertices)@.len() + 4 <= u32::MAX,
    ensures
        final(vertices)@ == old(vertices)@ + face_vertices(
            *info,
            x as int,
            y as int,
            z as int,
            face,
        ),
        final(indices)@ == old(indices)@ + face_indices(old(vertices)@.len() as int, face),
{
    let base: u32 = vertices.len() as u32;
    let texture = face_texture(face, info);
    let mut c: usize = 0;
    while c < 4
        invariant
            c <= 4,
            in_chunk(x as int, y as int, z as int),
            texture == face.texture(*info),
            vertices@ == old(vertices)@ + face_vertices(
                *info,
                x as int,
                y as int,
                z as int,
                face,
            ).take(c as int),
        decreases 4 - c,
    {
        let p = face.corner_of(x, y, z, c);
        vertices.push(
            QuadVertex {
                position: MeshPoint { x: p.0, y: p.1, z: p.2 },
                tex_coords: texture_corner(&texture, c),
            },
        );
        c += 1;
    }
    assert(face_vertices(*info, x as int, y as int, z as int, face).take(4)
        =~= face_vertices(*info, x as int, y as int, z as int, face));
    let (bl, br, tr, tl) = (base, base + 1, base + 2, base + 3);
    if face_winds_forward(face) {
        indices.push(bl);
        indices.push(br);
        indices.push(tl);
        indices.push(tr);
        indices.push(tl);
        indices.push(br);
    } else {
        indices.push(tl);
        indices.push(br);
        indices.push(bl);
        indices.push(br);
        indices.push(tl);
        indices.push(tr);
    }
    assert(indices@ =~= old(indices)@ + face_indices(old(vertices)@.len() as int, face));
}

/// Which winding the triangles of `face` use.
fn face_winds_forward(face: Face) -> (b: bool)
    ensures
        b == face.winds_forward(),
{
    match face {
        Face::Right => true,
        Face::Front => true,
        Face::Top => true,
        _ => false,
    }
}

/// Visits the six faces of the cell `(x, y, z)`.
fn mesh_cell(
    blocks: &[i32; 4096],
    item_manager: &ItemManager,
    x: u8,
    y: u8,
    z: u8,
    vertices: &mut Vec<QuadVertex>,
    indices: &mut Vec<u32>,
    misses: &mut Vec<i32>,
)
    requires
        in_chunk(x as int, y as int, z as int),
        old(vertices)@ == mesh_vertices(
            blocks@,
            item_manager@,
            (6 * linear_index(x as int, y as int, z as int)) as nat,
        ),
        old(indices)@ == mesh_indices(
            blocks@,
            item_manager@,
            (6 * linear_index(x as int, y as int, z as int)) as nat,
        ),
        old(misses)@ == mesh_misses(
            blocks@,
            item_manager@,
            (6 * linear_index(x as int, y as int, z as int)) as nat,
        ),
    ensures
        final(vertices)@ == mesh_vertices(
            blocks@,
            item_manager@,
            (6 * linear_index(x as int, y as int, z as int) + 6) as nat,
        ),
        final(indices)@ == mesh_indices(
            blocks@,
            item_manager@,
            (6 * linear_index(x as int, y as int, z as int) + 6) as nat,
        ),
        final(misses)@ == mesh_misses(
            blocks@,
            item_manager@,
            (6 * linear_index(x as int, y as int, z as int) + 6) as nat,
        ),
{
    let ghost cells = blocks@;
    let ghost reg = item_manager@;
    let ghost cell = linear_index(x as int, y as int, z as int);
    let ghost first = (6 * cell) as nat;
    proof {
        crate::chunk::lemma_linear_index_inverts(x as int, y as int, z as int);
    }
    let own_id = blocks[crate::chunk::Chunk::xyz_to_i(x, y, z) as usize];
    let info = match item_manager.get_item_by_id(own_id) {
        Some(info) => info,
        None => {
            misses.push(own_id);
            proof {
                assert forall|s: int| first <= s < first + 6 implies !step_emits(cells, reg, s) by {
                    assert(step_cell(s) == cell);
                }
                lemma_idle_steps(cells, reg, first, first + 6);
                assert forall|s: int| first + 1 <= s < first + 6 implies step_misses(
                    cells,
                    reg,
                    s,
                ).len() == 0 by {
                    assert(step_cell(s) == cell);
                }
                lemma_quiet_steps(cells, reg, first + 1, first + 6);
                assert(step_cell(first as int) == cell);
                assert(step_misses(cells, reg, first as int) =~= seq![own_id]);
            }
            return ;
        },
    };
    if info.is_transparent {
        proof {
            assert forall|s: int| first <= s < first + 6 implies !step_emits(cells, reg, s)
                && step_misses(cells, reg, s).len() == 0 by {
                assert(step_cell(s) == cell);
            }
            lemma_idle_steps(cells, reg, first, first + 6);
            lemma_quiet_steps(cells, reg, first, first + 6);
        }
        return ;
    }
    let mut k: usize = 0;
    while k < 6
        invariant
            k <= 6,
            in_chunk(x as int, y as int, z as int),
            cells == blocks@,
            reg == item_manager@,
            cell == linear_index(x as int, y as int, z as int),
            cell_coords(cell) == (x as int, y as int, z as int),
            0 <= cell < 4096,
            first == 6 * cell,
            drawn_block(cells, reg, cell) == Some(*info),
            vertices@ == mesh_vertices(cells, reg, (first + k) as nat),
            indices@ == mesh_indices(cells, reg, (first + k) as nat),
            misses@ == mesh_misses(cells, reg, (first + k) as nat),
        decreases 6 - k,
    {
        let ghost step = first + k;
        let face = Face::from_index(k);
        assert(step_cell(step) == cell && step_face(step) == face);
        let mut visible = true;
        match face.neighbor(x, y, z) {
            Some((nx, ny, nz)) => {
                let behind = blocks[crate::chunk::Chunk::xyz_to_i(nx, ny, nz) as usize];
                match item_manager.is_transparent(behind) {
                    Some(transparent) => {
                        visible = transparent;
                    },
                    None => {
                        misses.push(behind);
                    },
                }
            },
            None => {},
        }
        assert(visible == step_emits(cells, reg, step));
        assert(misses@ =~= mesh_misses(cells, reg, (step + 1) as nat));
        if visible {
            proof {
                lemma_mesh_sizes(cells, reg, step as nat);
            }
            push_face(vertices, indices, info, x, y, z, face);
        }
        k += 1;
    }
}

/// Builds the mesh of the chunk whose cells are `blocks`, asking
/// `item_manager` which blocks are transparent and what their faces show.
///
/// Transparent blocks and blocks unknown to the registry have no geometry.
/// Of any other block every face is drawn that lies on the chunk's boundary
/// or in front of a block that the registry does not report as opaque. Each
/// id that the registry does not know is reported, once for each lookup.
pub fn build(blocks: &[i32; 4096], item_manager: &ItemManager) -> (mesh: Mesh)
    ensures
        mesh.vertices@ == mesh_vertices(blocks@, item_manager@, MESH_STEPS as nat),
        mesh.indices@ == mesh_indices(blocks@, item_manager@, MESH_STEPS as nat),
        mesh.misses@ == mesh_misses(blocks@, item_manager@, MESH_STEPS as nat),
{
    let mut vertices: Vec<QuadVertex> = Vec::new();
    let mut indices: Vec<u32> = Vec::new();
    let mut misses: Vec<i32> = Vec::new();
    let mut i: u16 = 0;
    while i < 4096
        invariant
            i <= 4096,
            vertices@ == mesh_vertices(blocks@, item_manager@, (6 * i) as nat),
            indices@ == mesh_indices(blocks@, item_manager@, (6 * i) as nat),
            misses@ == mesh_misses(blocks@, item_manager@, (6 * i) as nat),
        decreases 4096 - i,
    {
        let (x, y, z) = crate::chunk::Chunk::i_to_xyz(i);
        proof {
            crate::chunk::lemma_cell_coords_inverts(i as int);
        }
        mesh_cell(blocks, item_manager, x, y, z, &mut vertices, &mut indices, &mut misses);
        i += 1;
    }
    Mesh { vertices, indices, misses }
}

/// A block that is known and opaque, that lies off the chunk's boundary
/// and whose six neighbours the registry reports as opaque shows no face:
/// its six steps leave the mesh as it was.
pub proof fn lemma_enclosed_cell_is_hidden(
    cells: Seq<i32>,
    reg: Seq<ItemInfo>,
    x: int,
    y: int,
    z: int,
)
    requires
        1 <= x <= 14 && 1 <= y <= 14 && 1 <= z <= 14,
        forall|k: int|
            0 <= k < 6 ==> registry_transparency(
                reg,
                cells[linear_index(
                    x + (#[trigger] Face::of_index(k)).offset().0,
                    y + Face::of_index(k).offset().1,
                    z + Face::of_index(k).offset().2,
                )] as int,
            ) == Some(false),
    ensures
        forall|k: int|
            0 <= k < 6 ==> !#[trigger] step_emits(cells, reg, 6 * linear_index(x, y, z) + k),
        mesh_vertices(cells, reg, (6 * linear_index(x, y, z) + 6) as nat) == mesh_vertices(
            cells,
            reg,
            (6 * linear_index(x, y, z)) as nat,
        ),
        mesh_indices(cells, reg, (6 * linear_index(x, y, z) + 6) as nat) == mesh_indices(
            cells,
            reg,
            (6 * linear_index(x, y, z)) as nat,
        ),
{
    let cell = linear_index(x, y, z);
    crate::chunk::lemma_linear_index_inverts(x, y, z);
    assert forall|s: int| 6 * cell <= s < 6 * cell + 6 implies !step_emits(cells, reg, s) by {
        let k = s - 6 * cell;
        assert(step_cell(s) == cell);
        assert(step_face(s) == Face::of_index(k));
        assert(in_chunk(
            x + Face::of_index(k).offset().0,
            y + Face::of_index(k).offset().1,
            z + Face::of_index(k).offset().2,
        ));
    }
    assert forall|k: int| 0 <= k < 6 implies !#[trigger] step_emits(cells, reg, 6 * cell + k) by {
        assert(6 * cell <= 6 * cell + k < 6 * cell + 6);
    }
    lemma_idle_steps(cells, reg, (6 * cell) as nat, (6 * cell + 6) as nat);
}

/// In a chunk filled with one block id that the registry reports as opaque,
/// no block off the chunk's boundary shows a face.
pub proof fn lemma_uniform_opaque_interior_is_hidden(
    cells: Seq<i32>,
    reg: Seq<ItemInfo>,
    id: i32,
    x: int,
    y: int,
    z: int,
)
    requires
        cells.len() == 4096,
        forall|i: int| 0 <= i < 4096 ==> cells[i] == id,
        registry_transparency(reg, id as int) == Some(false),
        1 <= x <= 14 && 1 <= y <= 14 && 1 <= z <= 14,
    ensures
        forall|k: int|
            0 <= k < 6 ==> !#[trigger] step_emits(cells, reg, 6 * linear_index(x, y, z) + k),
{
    assert forall|k: int| 0 <= k < 6 implies registry_transparency(
        reg,
        cells[linear_index(
            x + (#[trigger] Face::of_index(k)).offset().0,
            y + Face::of_index(k).offset().1,
            z + Face::of_index(k).offset().2,
        )] as int,
    ) == Some(false) by {
        let f = Face::of_index(k);
        crate::chunk::lemma_linear_index_inverts(
            x + f.offset().0,
            y + f.offset().1,
            z + f.offset().2,
        );
    }
    lemma_enclosed_cell_is_hidden(cells, reg, x, y, z);
}

/// A chunk in which the registry reports every block as transparent has an
/// empty mesh.
pub proof fn lemma_transparent_chunk_has_no_mesh(cells: Seq<i32>, reg: Seq<ItemInfo>)
    requires
        cells.len() == 4096,
        forall|i: int|
            0 <= i < 4096 ==> registry_transparency(reg, #[trigger] cells[i] as int) == Some(true),
    ensures
        mesh_vertices(cells, reg, MESH_STEPS as nat) == Seq::<QuadVertex>::empty(),
        mesh_indices(cells, reg, MESH_STEPS as nat) == Seq::<u32>::empty(),
{
    assert forall|s: int| 0 <= s < MESH_STEPS implies !step_emits(cells, reg, s) by {
        assert(0 <= step_cell(s) < 4096);
        assert(registry_transparency(reg, cells[step_cell(s)] as int) == Some(true));
    }
    lemma_idle_steps(cells, reg, 0, MESH_STEPS as nat);
}

} // verus!
