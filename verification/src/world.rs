//! The world that the server keeps: chunk columns, loaded on demand, and the
//! records of the players.

use vstd::prelude::*;
use crate::chunk::{cells_are_valid, linear_index, Chunk, ColumnPosition, GridPosition};
use crate::items::ItemManager;
use crate::player_data::{Player, PlayerView, Real2, Real3};

verus! {

/// The chunk coordinate of a world coordinate: the floor of a sixteenth.
pub open spec fn chunk_coord(v: int) -> int {
    v / 16
}

/// The offset of a world coordinate within its chunk, 0 to 15.
pub open spec fn local_coord(v: int) -> int {
    v % 16
}

/// The chunk coordinate of a world coordinate.
pub fn to_chunk_coord(v: i32) -> (q: i32)
    ensures
        q == chunk_coord(v as int),
{
    match v.checked_div_euclid(16) {
        Some(q) => q,
        None => 0,
    }
}

/// The offset of a world coordinate within its chunk.
pub fn to_local_coord(v: i32) -> (r: u8)
    ensures
        r == local_coord(v as int),
        r < 16,
{
    match v.checked_rem_euclid(16) {
        Some(r) => r as u8,
        None => 0,
    }
}

/// What a chunk column holds: its position and the cells of its chunks,
/// from the lowest chunk up.
pub struct ColumnView {
    pub position: ColumnPosition,
    pub chunks: Seq<Seq<i32>>,
}

/// The block that a column holds at the world position `p`, if the column
/// reaches that height. The position is taken to lie in the column.
pub open spec fn column_block(col: ColumnView, p: GridPosition) -> Option<i32> {
    let k = chunk_coord(p.y as int);
    if 0 <= k < col.chunks.len() {
        Some(
            col.chunks[k][linear_index(
                local_coord(p.x as int),
                local_coord(p.y as int),
                local_coord(p.z as int),
            )],
        )
    } else {
        None
    }
}

/// The column `col` with the block at the world position `p` set to `id`.
pub open spec fn column_with_block(col: ColumnView, p: GridPosition, id: i32) -> ColumnView {
    let k = chunk_coord(p.y as int);
    ColumnView {
        position: col.position,
        chunks: col.chunks.update(
            k,
            col.chunks[k].update(
                linear_index(
                    local_coord(p.x as int),
                    local_coord(p.y as int),
                    local_coord(p.z as int),
                ),
                id,
            ),
        ),
    }
}

/// Whether a column is well-formed: it is at most 255 chunks high, and the
/// cells of every chunk are valid.
pub open spec fn column_is_valid(col: ColumnView) -> bool {
    &&& col.chunks.len() <= 255
    &&& forall|k: int| 0 <= k < col.chunks.len() ==> cells_are_valid(#[trigger] col.chunks[k])
}

/// A vertical stack of chunks that share their place in the grid of
/// columns. The chunk at height `k` of the column at `(x, z)` stands at
/// `(x, k, z)` in the grid of chunks.
#[derive(Debug)]
pub struct ChunkColumn {
    position: ColumnPosition,
    chunks: Vec<Chunk>,
}

impl View for ChunkColumn {
    type V = ColumnView;

    closed spec fn view(&self) -> ColumnView {
        ColumnView {
            position: self.position,
            chunks: Seq::new(self.chunks@.len(), |k: int| self.chunks@[k].cells()),
        }
    }
}

impl ChunkColumn {
    /// What holds of every column: its chunks stand one above the other,
    /// and it is valid.
    #[verifier::type_invariant]
    pub closed spec fn well_formed(self) -> bool {
        &&& self.chunks@.len() <= 255
        &&& forall|k: int|
            0 <= k < self.chunks@.len() ==> (#[trigger] self.chunks@[k]).spec_position() == (
            GridPosition { x: self.position.x, y: k as i32, z: self.position.z })
        &&& forall|k: int|
            0 <= k < self.chunks@.len() ==> cells_are_valid((#[trigger] self.chunks@[k]).cells())
        &&& forall|k: int|
            0 <= k < self.chunks@.len() ==> (#[trigger] self.chunks@[k]).spec_vertices().len() == 0
                && self.chunks@[k].spec_indices().len() == 0
    }

    /// A column is valid.
    pub proof fn lemma_valid(self)
        requires
            self.well_formed(),
        ensures
            column_is_valid(self@),
    {
    }

    /// A column of `height` chunks of air.
    pub fn new(position: ColumnPosition, height: u8) -> (col: ChunkColumn)
        ensures
            col@.position == position,
            col@.chunks == Seq::new(height as nat, |k: int| Seq::new(4096, |i: int| 0i32)),
            column_is_valid(col@),
    {
        let mut chunks: Vec<Chunk> = Vec::new();
        let mut k: u8 = 0;
        while k < height
            invariant
                k <= height,
                chunks@.len() == k,
                forall|j: int|
                    0 <= j < k ==> (#[trigger] chunks@[j]).spec_position() == (GridPosition {
                        x: position.x,
                        y: j as i32,
                        z: position.z,
                    }) && chunks@[j].cells() == Seq::new(4096, |i: int| 0i32)
                        && chunks@[j].spec_vertices().len() == 0 && chunks@[j].spec_indices().len()
                        == 0,
            decreases height - k,
        {
            chunks.push(Chunk::new(GridPosition { x: position.x, y: k as i32, z: position.z }, 0));
            k += 1;
        }
        let col = ChunkColumn { position, chunks };
        assert(col@.chunks =~= Seq::new(height as nat, |k: int| Seq::new(4096, |i: int| 0i32)));
        col
    }

    /// Where the column stands in the grid of columns.
    pub fn position(&self) -> (p: ColumnPosition)
        ensures
            p == self@.position,
    {
        self.position
    }

    /// The chunks of the column, from the lowest up. A column builds no
    /// meshes: its chunks have none.
    pub fn get_chunks(&self) -> (chunks: &Vec<Chunk>)
        ensures
            column_is_valid(self@),
            chunks@.len() == self@.chunks.len(),
            forall|k: int|
                0 <= k < chunks@.len() ==> (#[trigger] chunks@[k]).cells() == self@.chunks[k]
                    && chunks@[k].spec_position() == (GridPosition {
                    x: self@.position.x,
                    y: k as i32,
                    z: self@.position.z,
                }) && chunks@[k].spec_vertices().len() == 0 && chunks@[k].spec_indices().len() == 0,
    {
        proof {
            use_type_invariant(self);
        }
        &self.chunks
    }

    /// The block at the world position `p`, if the column reaches that
    /// height.
    pub fn get_block(&self, p: GridPosition) -> (r: Option<i32>)
        ensures
            r == column_block(self@, p),
            r is Some ==> r->Some_0 >= 0,
    {
        proof {
            use_type_invariant(self);
        }
        let k = to_chunk_coord(p.y);
        if k < 0 || k as usize >= self.chunks.len() {
            return None;
        }
        let chunk = &self.chunks[k as usize];
        Some(chunk.get_block(to_local_coord(p.x), to_local_coord(p.y), to_local_coord(p.z)))
    }

    /// Sets the block at the world position `p` to `id`, if the column
    /// reaches that height; says whether it does.
    pub fn set_block(&mut self, p: GridPosition, id: i32) -> (stored: bool)
        requires
            id >= 0,
        ensures
            stored == (column_block(old(self)@, p) is Some),
            stored ==> final(self)@ == column_with_block(old(self)@, p, id),
            !stored ==> final(self)@ == old(self)@,
            column_is_valid(final(self)@),
    {
        proof {
            use_type_invariant(&*self);
        }
        let k = to_chunk_coord(p.y);
        if k < 0 || k as usize >= self.chunks.len() {
            return false;
        }
        let mut chunks: Vec<Chunk> = Vec::new();
        core::mem::swap(&mut chunks, &mut self.chunks);
        chunks[k as usize].set_block(
            to_local_coord(p.x),
            to_local_coord(p.y),
            to_local_coord(p.z),
            id,
        );
        self.chunks = chunks;
        assert(self@.chunks =~= column_with_block(old(self)@, p, id).chunks);
        true
    }
}

/// What a world holds: the columns that are loaded, in the order in which
/// they were, the records of the players, in the order in which they were
/// first asked for, and the height of every column in chunks.
pub struct WorldView {
    pub columns: Seq<ColumnView>,
    pub players: Seq<PlayerView>,
    pub column_height: u8,
}

/// The column that the block at the world position `p` lies in.
pub open spec fn column_of(p: GridPosition) -> ColumnPosition {
    ColumnPosition { x: chunk_coord(p.x as int) as i32, z: chunk_coord(p.z as int) as i32 }
}

/// A column of `height` chunks of air.
pub open spec fn empty_column(position: ColumnPosition, height: u8) -> ColumnView {
    ColumnView { position, chunks: Seq::new(height as nat, |k: int| Seq::new(4096, |i: int| 0i32)) }
}

/// The record of a player who has not been seen before.
pub open spec fn new_player(name: Seq<char>) -> PlayerView {
    PlayerView {
        username: name,
        position: Real3 { x: 0, y: 0, z: 0 },
        rotation: Real2 { x: 0, y: 0 },
    }
}

/// `i` is the place of the first column at `position`.
pub open spec fn is_column_index(w: WorldView, position: ColumnPosition, i: int) -> bool {
    &&& 0 <= i < w.columns.len()
    &&& w.columns[i].position == position
    &&& forall|j: int| 0 <= j < i ==> (#[trigger] w.columns[j]).position != position
}

/// Whether the column at `position` is loaded.
pub open spec fn column_loaded(w: WorldView, position: ColumnPosition) -> bool {
    exists|i: int| is_column_index(w, position, i)
}

/// The place of the column at `position` among the loaded columns; where
/// it is not loaded, the place that it will get.
pub open spec fn column_index(w: WorldView, position: ColumnPosition) -> int {
    if column_loaded(w, position) {
        choose|i: int| is_column_index(w, position, i)
    } else {
        w.columns.len() as int
    }
}

/// The world `w` with the column at `position` loaded: a column that was
/// not there yet comes in as a column of air.
pub open spec fn with_column(w: WorldView, position: ColumnPosition) -> WorldView {
    if column_loaded(w, position) {
        w
    } else {
        WorldView {
            columns: w.columns.push(empty_column(position, w.column_height)),
            players: w.players,
            column_height: w.column_height,
        }
    }
}

/// The column at `position` as the world holds it, or as it will be
/// loaded.
pub open spec fn world_column(w: WorldView, position: ColumnPosition) -> ColumnView {
    with_column(w, position).columns[column_index(w, position)]
}

/// The block at the world position `p`, once its column is loaded; `None`
/// where `p` lies below or above the column.
pub open spec fn world_block(w: WorldView, p: GridPosition) -> Option<i32> {
    column_block(world_column(w, column_of(p)), p)
}

/// The world `w` with the column of `p` loaded and the block at `p` set to
/// `id`.
pub open spec fn with_block(w: WorldView, p: GridPosition, id: i32) -> WorldView {
    let loaded = with_column(w, column_of(p));
    let at = column_index(w, column_of(p));
    WorldView {
        columns: loaded.columns.update(at, column_with_block(loaded.columns[at], p, id)),
        players: loaded.players,
        column_height: loaded.column_height,
    }
}

/// `i` is the place of the first record under the name `name`.
pub open spec fn is_player_index(w: WorldView, name: Seq<char>, i: int) -> bool {
    &&& 0 <= i < w.players.len()
    &&& w.players[i].username == name
    &&& forall|j: int| 0 <= j < i ==> (#[trigger] w.players[j]).username != name
}

/// Whether the world has a record under the name `name`.
pub open spec fn player_known(w: WorldView, name: Seq<char>) -> bool {
    exists|i: int| is_player_index(w, name, i)
}

/// The place of the record under `name`; where there is none, the place
/// that it will get.
pub open spec fn player_index(w: WorldView, name: Seq<char>) -> int {
    if player_known(w, name) {
        choose|i: int| is_player_index(w, name, i)
    } else {
        w.players.len() as int
    }
}

/// The world `w` with a record under `name`: a player who was not known
/// gets a fresh one.
pub open spec fn with_player(w: WorldView, name: Seq<char>) -> WorldView {
    if player_known(w, name) {
        w
    } else {
        WorldView {
            columns: w.columns,
            players: w.players.push(new_player(name)),
            column_height: w.column_height,
        }
    }
}

/// The record under `name` as the world holds it, or as it will be made.
pub open spec fn world_player(w: WorldView, name: Seq<char>) -> PlayerView {
    with_player(w, name).players[player_index(w, name)]
}

/// The world `w` with the record under `name` showing the given position
/// and rotation.
pub open spec fn with_player_state(
    w: WorldView,
    name: Seq<char>,
    position: Real3,
    rotation: Real2,
) -> WorldView {
    let known = with_player(w, name);
    WorldView {
        columns: known.columns,
        players: known.players.update(
            player_index(w, name),
            PlayerView { username: name, position, rotation },
        ),
        column_height: known.column_height,
    }
}

/// Whether a world is well-formed: no two columns stand at one position,
/// every column is valid and as high as the world says, and no two records
/// go under one name.
pub open spec fn world_is_valid(w: WorldView) -> bool {
    &&& forall|i: int, j: int|
        0 <= i < j < w.columns.len() ==> (#[trigger] w.columns[i]).position
            != (#[trigger] w.columns[j]).position
    &&& forall|i: int|
        0 <= i < w.columns.len() ==> column_is_valid(#[trigger] w.columns[i])
            && w.columns[i].chunks.len() == w.column_height
    &&& forall|i: int, j: int|
        0 <= i < j < w.players.len() ==> (#[trigger] w.players[i]).username
            != (#[trigger] w.players[j]).username
}

/// The server's world: the registry of block kinds, the loaded columns and
/// the records of the players.
#[derive(Debug)]
pub struct World {
    item_manager: ItemManager,
    columns: Vec<ChunkColumn>,
    players: Vec<Player>,
    column_height: u8,
}

impl View for World {
    type V = WorldView;

    closed spec fn view(&self) -> WorldView {
        WorldView {
            columns: Seq::new(self.columns@.len(), |i: int| self.columns@[i]@),
            players: Seq::new(self.players@.len(), |i: int| self.players@[i]@),
            column_height: self.column_height,
        }
    }
}

impl World {
    /// What holds of every world: see [`world_is_valid`].
    #[verifier::type_invariant]
    pub closed spec fn well_formed(self) -> bool {
        &&& forall|i: int, j: int|
            0 <= i < j < self.columns@.len() ==> (#[trigger] self.columns@[i])@.position
                != (#[trigger] self.columns@[j])@.position
        &&& forall|i: int|
            0 <= i < self.columns@.len() ==> column_is_valid((#[trigger] self.columns@[i])@)
                && self.columns@[i]@.chunks.len() == self.column_height
        &&& forall|i: int, j: int|
            0 <= i < j < self.players@.len() ==> (#[trigger] self.players@[i])@.username
                != (#[trigger] self.players@[j])@.username
    }

    /// A world is well-formed.
    pub proof fn lemma_valid(self)
        requires
            self.well_formed(),
        ensures
            world_is_valid(self@),
    {
    }

    /// The registry of block kinds.
    pub closed spec fn spec_item_manager(&self) -> ItemManager {
        self.item_manager
    }

    /// A world without columns and players, whose columns will be
    /// `column_height` chunks high.
    pub fn new(item_manager: ItemManager, column_height: u8) -> (w: World)
        ensures
            w@.columns == Seq::<ColumnView>::empty(),
            w@.players == Seq::<PlayerView>::empty(),
            w@.column_height == column_height,
            w.spec_item_manager() == item_manager,
            world_is_valid(w@),
    {
        let w = World { item_manager, columns: Vec::new(), players: Vec::new(), column_height };
        assert(w@.columns =~= Seq::<ColumnView>::empty());
        assert(w@.players =~= Seq::<PlayerView>::empty());
        w
    }

    /// The registry of block kinds.
    pub fn item_manager(&self) -> (m: &ItemManager)
        ensures
            *m == self.spec_item_manager(),
    {
        &self.item_manager
    }

    /// The column that the block column at world coordinates `(x, z)` lies
    /// in.
    pub fn world_to_column_position(x: i32, z: i32) -> (c: ColumnPosition)
        ensures
            c.x == chunk_coord(x as int),
            c.z == chunk_coord(z as int),
    {
        ColumnPosition { x: to_chunk_coord(x), z: to_chunk_coord(z) }
    }

    /// Looks for the column at `position` among the loaded ones.
    fn find_column(&self, position: ColumnPosition) -> (r: Option<usize>)
        ensures
            match r {
                Some(i) => is_column_index(self@, position, i as int),
                None => !column_loaded(self@, position),
            },
    {
        let mut i: usize = 0;
        while i < self.columns.len()
            invariant
                i <= self.columns@.len(),
                forall|j: int| 0 <= j < i ==> (#[trigger] self@.columns[j]).position != position,
            decreases self.columns@.len() - i,
        {
            let found = self.columns[i].position();
            if found.x == position.x && found.z == position.z {
                return Some(i);
            }
            i += 1;
        }
        None
    }

    /// Loads the column at `position`, as a column of air if it was not
    /// loaded before, and returns its place among the loaded columns.
    pub fn get_column(&mut self, position: ColumnPosition) -> (at: usize)
        ensures
            final(self)@ == with_column(old(self)@, position),
            at == column_index(old(self)@, position),
            at < final(self)@.columns.len(),
            final(self)@.columns[at as int] == world_column(old(self)@, position),
            final(self).spec_item_manager() == old(self).spec_item_manager(),
            world_is_valid(final(self)@),
    {
        proof {
            use_type_invariant(&*self);
            self.lemma_valid();
        }
        match self.find_column(position) {
            Some(i) => i,
            None => {
                proof {
                    assert forall|j: int| 0 <= j < self.columns@.len() implies (
                    #[trigger] self.columns@[j])@.position != position by {
                        if self@.columns[j].position == position {
                            lemma_first_column(self@, position, j);
                        }
                    }
                }
                let mut columns: Vec<ChunkColumn> = Vec::new();
                core::mem::swap(&mut columns, &mut self.columns);
                let at = columns.len();
                columns.push(ChunkColumn::new(position, self.column_height));
                self.columns = columns;
                assert(self@.columns =~= with_column(old(self)@, position).columns);
                assert(self@.players =~= old(self)@.players);
                proof {
                    use_type_invariant(&*self);
                    self.lemma_valid();
                }
                at
            },
        }
    }

    /// Number of loaded columns.
    pub fn column_count(&self) -> (n: usize)
        ensures
            n == self@.columns.len(),
    {
        self.columns.len()
    }

    /// The records of the players, in the order in which they were first
    /// asked for.
    pub fn players(&self) -> (players: &Vec<Player>)
        ensures
            players@.len() == self@.players.len(),
            forall|i: int|
                0 <= i < players@.len() ==> (#[trigger] players@[i])@ == self@.players[i],
    {
        &self.players
    }

    /// The loaded column at place `at`.
    pub fn column_at(&self, at: usize) -> (col: &ChunkColumn)
        requires
            at < self@.columns.len(),
        ensures
            col@ == self@.columns[at as int],
    {
        &self.columns[at]
    }

    /// The block at the world position `p`, if its column is loaded and
    /// reaches that height.
    pub fn get_block(&self, p: GridPosition) -> (r: Option<i32>)
        ensures
            column_loaded(self@, column_of(p)) ==> r == world_block(self@, p),
            !column_loaded(self@, column_of(p)) ==> r is None,
            r is Some ==> r->Some_0 >= 0,
    {
        match self.find_column(World::world_to_column_position(p.x, p.z)) {
            Some(i) => self.columns[i].get_block(p),
            None => None,
        }
    }

    /// Loads the column of the world position `p` and sets the block at `p`
    /// to `id`, if the column reaches that height; says whether it does.
    pub fn set_block(&mut self, p: GridPosition, id: i32) -> (stored: bool)
        requires
            id >= 0,
        ensures
            stored == (world_block(old(self)@, p) is Some),
            stored ==> final(self)@ == with_block(old(self)@, p, id),
            !stored ==> final(self)@ == with_column(old(self)@, column_of(p)),
            final(self).spec_item_manager() == old(self).spec_item_manager(),
            world_is_valid(final(self)@),
    {
        proof {
            use_type_invariant(&*self);
            self.lemma_valid();
        }
        let at = self.get_column(World::world_to_column_position(p.x, p.z));
        let ghost loaded = self@;
        proof {
            use_type_invariant(&*self);
        }
        let mut columns: Vec<ChunkColumn> = Vec::new();
        core::mem::swap(&mut columns, &mut self.columns);
        let ghost before = columns@;
        let stored = columns[at].set_block(p, id);
        proof {
            assert forall|i: int| 0 <= i < columns@.len() implies (#[trigger] columns@[i])@.position
                == before[i]@.position && column_is_valid(columns@[i]@)
                && columns@[i]@.chunks.len() == before[i]@.chunks.len() by {
                if i != at {
                    assert(columns@[i] == before[i]);
                }
            }
        }
        self.columns = columns;
        proof {
            if stored {
                assert(self@.columns =~= with_block(old(self)@, p, id).columns);
            } else {
                assert(self@.columns =~= loaded.columns);
            }
            assert(self@.players =~= loaded.players);
            use_type_invariant(&*self);
            self.lemma_valid();
        }
        stored
    }

    /// Looks for the record under `name`.
    fn find_player(&self, name: &String) -> (r: Option<usize>)
        ensures
            match r {
                Some(i) => is_player_index(self@, name@, i as int),
                None => !player_known(self@, name@),
            },
    {
        let mut i: usize = 0;
        while i < self.players.len()
            invariant
                i <= self.players@.len(),
                forall|j: int| 0 <= j < i ==> (#[trigger] self@.players[j]).username != name@,
            decreases self.players@.len() - i,
        {
            if self.players[i].username == *name {
                return Some(i);
            }
            i += 1;
        }
        None
    }

    /// Makes sure that there is a record under `name` and returns its place.
    fn load_player(&mut self, name: &String) -> (at: usize)
        ensures
            final(self)@ == with_player(old(self)@, name@),
            at == player_index(old(self)@, name@),
            at < final(self)@.players.len(),
            final(self)@.players[at as int].username == name@,
            final(self).spec_item_manager() == old(self).spec_item_manager(),
    {
        proof {
            use_type_invariant(&*self);
        }
        match self.find_player(name) {
            Some(i) => i,
            None => {
                proof {
                    assert forall|j: int| 0 <= j < self.players@.len() implies (
                    #[trigger] self.players@[j])@.username != name@ by {
                        if self@.players[j].username == name@ {
                            lemma_first_player(self@, name@, j);
                        }
                    }
                }
                let mut players: Vec<Player> = Vec::new();
                core::mem::swap(&mut players, &mut self.players);
                let at = players.len();
                players.push(Player::new(name.clone()));
                self.players = players;
                assert(self@.players =~= with_player(old(self)@, name@).players);
                assert(self@.columns =~= old(self)@.columns);
                at
            },
        }
    }

    /// The record of the player `username`; a player who was not known gets
    /// a fresh record, which the world keeps.
    pub fn get_user_data(&mut self, username: &str) -> (player: Player)
        ensures
            player@ == world_player(old(self)@, username@),
            final(self)@ == with_player(old(self)@, username@),
            final(self).spec_item_manager() == old(self).spec_item_manager(),
            world_is_valid(final(self)@),
    {
        proof {
            use_type_invariant(&*self);
            self.lemma_valid();
        }
        let name = username.to_owned();
        let at = self.load_player(&name);
        proof {
            use_type_invariant(&*self);
            self.lemma_valid();
        }
        let found = &self.players[at];
        Player { username: name, position: found.position, rotation: found.rotation }
    }

    /// Writes position and rotation into the record of the player
    /// `username`, which is made if it was not there.
    pub fn set_user_data(&mut self, username: &str, position: Real3, rotation: Real2)
        ensures
            final(self)@ == with_player_state(old(self)@, username@, position, rotation),
            final(self).spec_item_manager() == old(self).spec_item_manager(),
            world_is_valid(final(self)@),
    {
        proof {
            use_type_invariant(&*self);
            self.lemma_valid();
        }
        let name = username.to_owned();
        let at = self.load_player(&name);
        let ghost known = self@;
        proof {
            use_type_invariant(&*self);
        }
        let mut players: Vec<Player> = Vec::new();
        core::mem::swap(&mut players, &mut self.players);
        let ghost before = players@;
        players[at].position = position;
        players[at].rotation = rotation;
        proof {
            assert forall|i: int| 0 <= i < players@.len() implies (#[trigger] players@[i])@.username
                == before[i]@.username by {}
        }
        self.players = players;
        proof {
            assert(self@.players =~= with_player_state(
                old(self)@,
                username@,
                position,
                rotation,
            ).players);
            assert(self@.columns =~= known.columns);
            use_type_invariant(&*self);
            self.lemma_valid();
        }
    }
}

/// Loading a column a second time changes nothing, and the column is found
/// where it was put.
pub proof fn lemma_loading_keeps_column(w: WorldView, position: ColumnPosition)
    ensures
        column_loaded(with_column(w, position), position),
        column_index(with_column(w, position), position)
            == column_index(w, position),
        with_column(with_column(w, position), position) == with_column(w, position),
        world_column(with_column(w, position), position) == world_column(w, position),
{
    let loaded = with_column(w, position);
    let i = column_index(w, position);
    if !column_loaded(w, position) {
        assert forall|j: int| 0 <= j < i implies (#[trigger] loaded.columns[j]).position
            != position by {
            if loaded.columns[j].position == position {
                lemma_first_column(w, position, j);
            }
        }
    }
    assert(is_column_index(loaded, position, i));
    let found = column_index(loaded, position);
    assert(is_column_index(loaded, position, found));
    assert(found == i);
}

/// A column that stands at `position` is loaded: where some column stands
/// there, a first one does.
proof fn lemma_first_column(w: WorldView, position: ColumnPosition, j: int)
    requires
        0 <= j < w.columns.len(),
        w.columns[j].position == position,
    ensures
        column_loaded(w, position),
    decreases j,
{
    if exists|k: int| 0 <= k < j && (#[trigger] w.columns[k]).position == position {
        let k = choose|k: int| 0 <= k < j && (#[trigger] w.columns[k]).position == position;
        lemma_first_column(w, position, k);
    } else {
        assert(is_column_index(w, position, j));
    }
}

/// Setting a block in a world whose column for it is loaded already gives
/// what setting it in the world before the loading gives.
pub proof fn lemma_block_in_loaded_column(w: WorldView, p: GridPosition, id: i32)
    ensures
        with_block(with_column(w, column_of(p)), p, id) == with_block(w, p, id),
        world_block(with_column(w, column_of(p)), p) == world_block(w, p),
{
    lemma_loading_keeps_column(w, column_of(p));
}

/// Loading a column changes no block.
pub proof fn lemma_loading_keeps_blocks(w: WorldView, position: ColumnPosition, q: GridPosition)
    ensures
        world_block(with_column(w, position), q) == world_block(w, q),
{
    let loaded = with_column(w, position);
    let c = column_of(q);
    if c == position {
        lemma_loading_keeps_column(w, position);
    } else if !column_loaded(w, position) {
        if column_loaded(w, c) {
            let i = column_index(w, c);
            assert(is_column_index(w, c, i));
            assert(is_column_index(loaded, c, i));
            let found = column_index(loaded, c);
            assert(is_column_index(loaded, c, found));
            assert(found == i);
            assert(with_column(loaded, c) == loaded);
        } else {
            if column_loaded(loaded, c) {
                let found = column_index(loaded, c);
                assert(is_column_index(loaded, c, found));
                assert(found < w.columns.len());
                lemma_first_column(w, c, found);
            }
            assert(!column_loaded(loaded, c));
            assert(world_column(loaded, c) == empty_column(c, w.column_height));
        }
    }
}

/// A player with a record under `name` is known: where some record stands
/// under the name, a first one does.
proof fn lemma_first_player(w: WorldView, name: Seq<char>, j: int)
    requires
        0 <= j < w.players.len(),
        w.players[j].username == name,
    ensures
        player_known(w, name),
    decreases j,
{
    if exists|k: int| 0 <= k < j && (#[trigger] w.players[k]).username == name {
        let k = choose|k: int| 0 <= k < j && (#[trigger] w.players[k]).username == name;
        lemma_first_player(w, name, k);
    } else {
        assert(is_player_index(w, name, j));
    }
}

/// Setting a block changes that block and no other: afterwards the block
/// at `p` is `id`, and the block at any other position is what it was.
pub proof fn lemma_set_block_changes_one_block(
    w: WorldView,
    p: GridPosition,
    id: i32,
    q: GridPosition,
)
    requires
        world_block(w, p) is Some,
        forall|k: int|
            0 <= k < world_column(w, column_of(p)).chunks.len() ==> (#[trigger] world_column(
                w,
                column_of(p),
            ).chunks[k]).len() == 4096,
    ensures
        world_block(with_block(w, p, id), q) == (if q == p {
            Some(id)
        } else {
            world_block(w, q)
        }),
        with_block(w, p, id).players == w.players,
{
    let c = column_of(p);
    let loaded = with_column(w, c);
    let at = column_index(w, c);
    let after = with_block(w, p, id);
    lemma_loading_keeps_column(w, c);
    lemma_loading_keeps_blocks(w, c, q);
    assert(is_column_index(loaded, c, at));
    let before = loaded.columns[at];
    let changed = column_with_block(before, p, id);
    let k = chunk_coord(p.y as int);
    let cell = linear_index(
        local_coord(p.x as int),
        local_coord(p.y as int),
        local_coord(p.z as int),
    );
    assert(0 <= k < before.chunks.len());
    assert(before.chunks[k].len() == 4096);
    assert(0 <= cell < 4096);
    assert(after.columns.len() == loaded.columns.len());
    assert forall|j: int| 0 <= j < after.columns.len() implies (#[trigger] after.columns[j]).position
        == loaded.columns[j].position by {}
    if column_of(q) == c {
        assert(is_column_index(after, c, at));
        let found = column_index(after, c);
        assert(is_column_index(after, c, found));
        assert(found == at);
        assert(world_column(after, c) == changed);
        let kq = chunk_coord(q.y as int);
        let cell_q = linear_index(
            local_coord(q.x as int),
            local_coord(q.y as int),
            local_coord(q.z as int),
        );
        if q != p && kq == k {
            if cell_q == cell {
                crate::chunk::lemma_linear_index_injective(
                    local_coord(q.x as int),
                    local_coord(q.y as int),
                    local_coord(q.z as int),
                    local_coord(p.x as int),
                    local_coord(p.y as int),
                    local_coord(p.z as int),
                );
                assert(q.x == p.x && q.y == p.y && q.z == p.z);
                assert(false);
            }
        }
    } else {
        let cq = column_of(q);
        if column_loaded(loaded, cq) {
            let i = column_index(loaded, cq);
            assert(is_column_index(loaded, cq, i));
            assert(i != at);
            assert(is_column_index(after, cq, i));
            let found = column_index(after, cq);
            assert(is_column_index(after, cq, found));
            assert(found == i);
        } else {
            if column_loaded(after, cq) {
                let found = column_index(after, cq);
                assert(is_column_index(after, cq, found));
                lemma_first_column(loaded, cq, found);
            }
            assert(world_column(after, cq) == empty_column(cq, w.column_height));
        }
    }
}

/// Writing a player's state changes that player's record and no other:
/// afterwards the record under `name` shows the state written, and the
/// record under any other name is what it was.
pub proof fn lemma_player_state_is_kept(
    w: WorldView,
    name: Seq<char>,
    position: Real3,
    rotation: Real2,
    other: Seq<char>,
)
    ensures
        world_player(with_player_state(w, name, position, rotation), other) == (if other == name {
            PlayerView { username: name, position, rotation }
        } else {
            world_player(w, other)
        }),
        with_player_state(w, name, position, rotation).columns == w.columns,
{
    let known = with_player(w, name);
    let at = player_index(w, name);
    let after = with_player_state(w, name, position, rotation);
    if player_known(w, name) {
        assert(is_player_index(w, name, at));
    } else {
        assert forall|j: int| 0 <= j < at implies (#[trigger] known.players[j]).username
            != name by {
            if known.players[j].username == name {
                lemma_first_player(w, name, j);
            }
        }
    }
    assert(is_player_index(known, name, at));
    assert(after.players.len() == known.players.len());
    assert forall|j: int| 0 <= j < after.players.len() implies (#[trigger] after.players[j]).username
        == known.players[j].username by {}
    if other == name {
        assert(is_player_index(after, name, at));
        let found = player_index(after, name);
        assert(is_player_index(after, name, found));
        assert(found == at);
    } else {
        if player_known(w, other) {
            let i = player_index(w, other);
            assert(is_player_index(w, other, i));
            assert(is_player_index(known, other, i));
            assert(is_player_index(after, other, i));
            let found = player_index(after, other);
            assert(is_player_index(after, other, found));
            assert(found == i);
        } else {
            if player_known(after, other) {
                let found = player_index(after, other);
                assert(is_player_index(after, other, found));
                if found < w.players.len() {
                    lemma_first_player(w, other, found);
                }
            }
            assert(!player_known(after, other));
        }
    }
}

/// In a well-formed world every column is valid, a column that is yet to
/// be loaded as much as one that is.
pub proof fn lemma_world_column_is_valid(w: WorldView, position: ColumnPosition)
    requires
        world_is_valid(w),
    ensures
        column_is_valid(world_column(w, position)),
        world_column(w, position).position == position,
        world_column(w, position).chunks.len() == w.column_height,
{
    if column_loaded(w, position) {
        let i = column_index(w, position);
        assert(is_column_index(w, position, i));
    } else {
        let fresh = empty_column(position, w.column_height);
        assert(with_column(w, position).columns[w.columns.len() as int] == fresh);
        assert forall|k: int| 0 <= k < fresh.chunks.len() implies cells_are_valid(
            #[trigger] fresh.chunks[k],
        ) by {}
    }
}

} // verus!
