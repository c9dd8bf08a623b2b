//! The chunk contents packet: the chunks of a column, each as its position
//! and its cells compressed into runs.

use vstd::prelude::*;
use crate::chunk::{
    compression_of,
    expand,
    format_error,
    Chunk,
    CompressedSet,
    GridPosition,
};
use crate::packets::{
    check_header,
    header_error,
    position_at,
    position_bytes,
    put_position,
    read_position,
    PacketType,
    ProtocolError,
};
use crate::wire::{i32_at, i32_bytes, put_i32, read_i32};
use crate::world::{column_is_valid, ChunkColumn, ColumnView};

verus! {

/// The bytes of a sequence of runs: for each run a word for the id and a
/// word for the length.
pub open spec fn runs_bytes(runs: Seq<CompressedSet>) -> Seq<u8>
    decreases runs.len(),
{
    if runs.len() == 0 {
        Seq::empty()
    } else {
        runs_bytes(runs.drop_last()) + i32_bytes(runs.last().id) + i32_bytes(runs.last().count)
    }
}

/// The bytes of one chunk in a chunk contents packet: its position, its
/// compressed cells, and a word -1 that ends the runs.
pub open spec fn chunk_record_bytes(position: GridPosition, cells: Seq<i32>) -> Seq<u8> {
    position_bytes(position) + runs_bytes(compression_of(cells)) + i32_bytes(-1i32)
}

/// The bytes of the lowest `n` chunks of a column, one chunk after the
/// other.
pub open spec fn column_records_bytes(col: ColumnView, n: int) -> Seq<u8>
    decreases n,
{
    if n <= 0 {
        Seq::empty()
    } else {
        column_records_bytes(col, n - 1) + chunk_record_bytes(
            GridPosition { x: col.position.x, y: (n - 1) as i32, z: col.position.z },
            col.chunks[n - 1],
        )
    }
}

/// The packet with the contents of a column: the kind, then every chunk of
/// the column from the lowest up.
pub open spec fn chunk_contents_packet(col: ColumnView) -> Seq<u8> {
    seq![PacketType::ChunkContents.discriminant()] + column_records_bytes(
        col,
        col.chunks.len() as int,
    )
}

/// Appends the bytes of `runs`.
fn put_runs(buf: &mut Vec<u8>, runs: &Vec<CompressedSet>)
    ensures
        final(buf)@ == old(buf)@ + runs_bytes(runs@),
{
    let mut i: usize = 0;
    assert(runs@.take(0) =~= Seq::<CompressedSet>::empty());
    while i < runs.len()
        invariant
            i <= runs@.len(),
            buf@ == old(buf)@ + runs_bytes(runs@.take(i as int)),
        decreases runs@.len() - i,
    {
        let set = runs[i];
        put_i32(buf, set.id);
        put_i32(buf, set.count);
        proof {
            assert(runs@.take(i + 1).drop_last() =~= runs@.take(i as int));
            assert(runs@.take(i + 1).last() == set);
            assert(buf@ =~= old(buf)@ + runs_bytes(runs@.take(i + 1)));
        }
        i += 1;
    }
    assert(runs@.take(runs@.len() as int) =~= runs@);
}

/// Builds the packet with the contents of a column: for each chunk its
/// position, its cells compressed into runs, and the word -1.
pub fn assemble_chunk_contents_packet(col: &ChunkColumn) -> (packet: Vec<u8>)
    ensures
        packet@ == chunk_contents_packet(col@),
{
    let mut packet_data: Vec<u8> = Vec::new();
    packet_data.push(PacketType::ChunkContents.as_u8());
    let chunks = col.get_chunks();
    let mut k: usize = 0;
    while k < chunks.len()
        invariant
            k <= chunks@.len(),
            chunks@.len() == col@.chunks.len(),
            chunks@.len() <= 255,
            forall|j: int|
                0 <= j < chunks@.len() ==> (#[trigger] chunks@[j]).cells() == col@.chunks[j]
                    && chunks@[j].spec_position() == (GridPosition {
                    x: col@.position.x,
                    y: j as i32,
                    z: col@.position.z,
                }),
            packet_data@ == seq![PacketType::ChunkContents.discriminant()] + column_records_bytes(
                col@,
                k as int,
            ),
        decreases chunks@.len() - k,
    {
        let chunk = &chunks[k];
        let ghost before = packet_data@;
        put_position(&mut packet_data, chunk.position());
        let compressed_data = chunk.compress();
        put_runs(&mut packet_data, &compressed_data);
        put_i32(&mut packet_data, -1);
        proof {
            assert(packet_data@ =~= before + chunk_record_bytes(
                chunk.spec_position(),
                chunk.cells(),
            ));
            assert(packet_data@ =~= seq![PacketType::ChunkContents.discriminant()]
                + column_records_bytes(col@, k + 1));
        }
        k += 1;
    }
    packet_data
}

/// The runs stored in `data` from `at` on, up to the word -1 that ends
/// them, with the number of bytes that they and that word take; `None`
/// where the data ends first.
pub open spec fn runs_at(data: Seq<u8>, at: int) -> Option<(Seq<CompressedSet>, nat)>
    decreases data.len() - at,
{
    if at < 0 || at + 4 > data.len() {
        None
    } else if i32_at(data, at) == -1 {
        Some((Seq::empty(), 4))
    } else if at + 8 > data.len() {
        None
    } else {
        match runs_at(data, at + 8) {
            Some((rest, len)) => Some(
                (
                    seq![
                        CompressedSet {
                            id: i32_at(data, at) as i32,
                            count: i32_at(data, at + 4) as i32,
                        },
                    ] + rest,
                    8 + len,
                ),
            ),
            None => None,
        }
    }
}

/// The number of bytes that the runs stored from `at` on take, with the
/// word that ends them.
pub open spec fn runs_span(data: Seq<u8>, at: int) -> nat {
    match runs_at(data, at) {
        Some(found) => found.1,
        None => 0,
    }
}

/// Runs that are found lie within the data.
pub proof fn lemma_runs_within(data: Seq<u8>, at: int)
    requires
        runs_at(data, at) is Some,
    ensures
        0 <= at,
        at + runs_span(data, at) <= data.len(),
        runs_span(data, at) == 4 + 8 * runs_at(data, at)->Some_0.0.len(),
    decreases data.len() - at,
{
    if i32_at(data, at) != -1 {
        lemma_runs_within(data, at + 8);
    }
}

/// One chunk as a chunk contents packet spells it.
pub struct ChunkRecord {
    pub position: GridPosition,
    pub runs: Seq<CompressedSet>,
}

/// The chunks stored in `data` from `at` to its end, or the first thing
/// that is wrong with them.
pub open spec fn records_at(data: Seq<u8>, at: int) -> Result<Seq<ChunkRecord>, ProtocolError>
    decreases data.len() - at,
    via records_at_terminates
{
    if at < 0 || at >= data.len() {
        Ok(Seq::empty())
    } else if at + 12 > data.len() {
        Err(ProtocolError::Truncated)
    } else {
        match runs_at(data, at + 12) {
            None => Err(ProtocolError::Truncated),
            Some((runs, _)) => match format_error(runs) {
                Some(e) => Err(ProtocolError::Format(e)),
                None => match records_at(data, at + 12 + runs_span(data, at + 12)) {
                    Ok(rest) => Ok(
                        seq![ChunkRecord { position: position_at(data, at), runs }] + rest,
                    ),
                    Err(e) => Err(e),
                },
            },
        }
    }
}

#[via_fn]
proof fn records_at_terminates(data: Seq<u8>, at: int) {
    if runs_at(data, at + 12) is Some {
        lemma_runs_within(data, at + 12);
    }
}

/// What a chunk contents packet holds, or what is wrong with it.
pub open spec fn chunk_contents_of(data: Seq<u8>) -> Result<Seq<ChunkRecord>, ProtocolError> {
    match header_error(data, PacketType::ChunkContents) {
        Some(e) => Err(e),
        None => records_at(data, 1),
    }
}

/// Reads the runs of one chunk, with the cursor `at` on their first byte.
/// Returns them with the place after the word that ends them.
fn parse_runs(data: &[u8], at: usize) -> (r: Option<(Vec<CompressedSet>, usize)>)
    requires
        at <= data@.len(),
    ensures
        match r {
            Some((runs, end)) => runs_at(data@, at as int) == Some(
                (runs@, (end - at) as nat),
            ) && at < end <= data@.len(),
            None => runs_at(data@, at as int) is None,
        },
{
    let n = data.len();
    let mut runs: Vec<CompressedSet> = Vec::new();
    let mut cursor: usize = at;
    loop
        invariant
            n == data@.len(),
            at <= cursor <= data@.len(),
            runs_at(data@, at as int) == (match runs_at(data@, cursor as int) {
                Some((rest, len)) => Some((runs@ + rest, ((cursor - at) + len) as nat)),
                None => None,
            }),
        decreases data@.len() - cursor,
    {
        let id = match read_i32(data, cursor) {
            Some(id) => id,
            None => {
                return None;
            },
        };
        if id == -1 {
            assert(runs@ + Seq::<CompressedSet>::empty() =~= runs@);
            return Some((runs, cursor + 4));
        }
        let count = match read_i32(data, cursor + 4) {
            Some(count) => count,
            None => {
                return None;
            },
        };
        proof {
            let set = CompressedSet { id, count };
            match runs_at(data@, cursor + 8) {
                Some((rest, len)) => {
                    assert(runs@ + (seq![set] + rest) =~= runs@.push(set) + rest);
                },
                None => {},
            }
        }
        runs.push(CompressedSet { id, count });
        cursor = cursor + 8;
    }
}

/// Whether `chunk` is the chunk that `record` spells: it stands at the
/// record's position, holds the cells that the record's runs expand to, and
/// has no mesh yet.
pub open spec fn chunk_is_record(chunk: Chunk, record: ChunkRecord) -> bool {
    &&& chunk.spec_position() == record.position
    &&& chunk.cells() == expand(record.runs)
    &&& chunk.spec_vertices().len() == 0
    &&& chunk.spec_indices().len() == 0
}

/// Reads the chunks of a chunk contents packet and expands each of them.
///
/// The packet is refused, and nothing is read out of bounds, where it ends
/// within a chunk, or where the runs of a chunk do not describe exactly 4096
/// cells with ids and lengths of at least 0.
pub fn parse_chunk_contents(data: &[u8]) -> (r: Result<Vec<Chunk>, ProtocolError>)
    ensures
        match r {
            Ok(chunks) => chunk_contents_of(data@) matches Ok(records) && chunks@.len()
                == records.len() && forall|k: int|
                0 <= k < chunks@.len() ==> chunk_is_record(#[trigger] chunks@[k], records[k]),
            Err(e) => chunk_contents_of(data@) == Err::<Seq<ChunkRecord>, ProtocolError>(e),
        },
{
    match check_header(data, PacketType::ChunkContents) {
        Ok(_) => {},
        Err(e) => {
            return Err(e);
        },
    }
    let n = data.len();
    let mut chunks: Vec<Chunk> = Vec::new();
    let ghost mut done: Seq<ChunkRecord> = Seq::empty();
    let mut at: usize = 1;
    while at < n
        invariant
            n == data@.len(),
            1 <= at <= data@.len(),
            header_error(data@, PacketType::ChunkContents) is None,
            records_at(data@, 1) == (match records_at(data@, at as int) {
                Ok(rest) => Ok(done + rest),
                Err(e) => Err(e),
            }),
            chunks@.len() == done.len(),
            forall|k: int|
                0 <= k < chunks@.len() ==> chunk_is_record(#[trigger] chunks@[k], done[k]),
        decreases data@.len() - at,
    {
        let position = match read_position(data, at) {
            Some(p) => p,
            None => {
                return Err(ProtocolError::Truncated);
            },
        };
        let (runs, end) = match parse_runs(data, at + 12) {
            Some(found) => found,
            None => {
                return Err(ProtocolError::Truncated);
            },
        };
        let chunk = match Chunk::decompress(position, &runs) {
            Ok(chunk) => chunk,
            Err(e) => {
                return Err(ProtocolError::Format(e));
            },
        };
        proof {
            let record = ChunkRecord { position, runs: runs@ };
            match records_at(data@, end as int) {
                Ok(rest) => {
                    assert(done + (seq![record] + rest) =~= done.push(record) + rest);
                },
                Err(_) => {},
            }
            done = done.push(record);
        }
        chunks.push(chunk);
        at = end;
    }
    proof {
        assert(done + Seq::<ChunkRecord>::empty() =~= done);
    }
    Ok(chunks)
}

/// Each run takes eight bytes.
pub proof fn lemma_runs_bytes_len(runs: Seq<CompressedSet>)
    ensures
        runs_bytes(runs).len() == 8 * runs.len(),
    decreases runs.len(),
{
    if runs.len() > 0 {
        lemma_runs_bytes_len(runs.drop_last());
        crate::wire::lemma_signed_round_trip(runs.last().id as int, 0);
        crate::wire::lemma_signed_round_trip(runs.last().count as int, 0);
        crate::wire::lemma_word_round_trip(crate::wire::signed_to_word(runs.last().id as int));
        crate::wire::lemma_word_round_trip(crate::wire::signed_to_word(runs.last().count as int));
    }
}

/// The bytes of runs begin with the bytes of the first run.
proof fn lemma_runs_bytes_front(runs: Seq<CompressedSet>)
    requires
        runs.len() > 0,
    ensures
        runs_bytes(runs) == i32_bytes(runs[0].id) + i32_bytes(runs[0].count) + runs_bytes(
            runs.skip(1),
        ),
    decreases runs.len(),
{
    if runs.len() == 1 {
        assert(runs.drop_last() =~= Seq::<CompressedSet>::empty());
        assert(runs.skip(1) =~= Seq::<CompressedSet>::empty());
        assert(runs_bytes(runs) =~= i32_bytes(runs[0].id) + i32_bytes(runs[0].count) + runs_bytes(
            runs.skip(1),
        ));
    } else {
        lemma_runs_bytes_front(runs.drop_last());
        assert(runs.drop_last().skip(1) =~= runs.skip(1).drop_last());
        assert(runs.drop_last()[0] == runs[0]);
        assert(runs.skip(1).last() == runs.last());
        assert(runs_bytes(runs) =~= i32_bytes(runs[0].id) + i32_bytes(runs[0].count) + runs_bytes(
            runs.skip(1),
        ));
    }
}

/// The signed value at `at` is that of the four bytes found there.
proof fn lemma_i32_found(data: Seq<u8>, at: int, v: i32)
    requires
        0 <= at,
        at + 4 <= data.len(),
        data.subrange(at, at + 4) == i32_bytes(v),
    ensures
        i32_at(data, at) == v,
{
    crate::wire::lemma_signed_round_trip(v as int, 0);
    crate::wire::lemma_word_round_trip(crate::wire::signed_to_word(v as int));
}

/// Runs without the id -1, written out and ended by the word -1, are read
/// back as they were.
pub proof fn lemma_runs_round_trip(data: Seq<u8>, at: int, runs: Seq<CompressedSet>)
    requires
        0 <= at,
        at + 8 * runs.len() + 4 <= data.len(),
        data.subrange(at, at + 8 * runs.len() + 4) == runs_bytes(runs) + i32_bytes(-1i32),
        forall|i: int| 0 <= i < runs.len() ==> (#[trigger] runs[i]).id != -1,
    ensures
        runs_at(data, at) == Some((runs, (8 * runs.len() + 4) as nat)),
    decreases runs.len(),
{
    let span: int = 8 * (runs.len() as int) + 4;
    let found = data.subrange(at, at + span);
    lemma_runs_bytes_len(runs);
    if runs.len() == 0 {
        assert(data.subrange(at, at + 4) =~= found);
        assert(found =~= i32_bytes(-1i32));
        lemma_i32_found(data, at, -1i32);
    } else {
        let first = runs[0];
        let rest = runs.skip(1);
        lemma_runs_bytes_front(runs);
        lemma_runs_bytes_len(rest);
        crate::wire::lemma_signed_round_trip(first.id as int, 0);
        crate::wire::lemma_signed_round_trip(first.count as int, 0);
        crate::wire::lemma_word_round_trip(crate::wire::signed_to_word(first.id as int));
        crate::wire::lemma_word_round_trip(crate::wire::signed_to_word(first.count as int));
        assert(data.subrange(at, at + 4) =~= found.subrange(0, 4));
        assert(found.subrange(0, 4) =~= i32_bytes(first.id));
        assert(data.subrange(at + 4, at + 8) =~= found.subrange(4, 8));
        assert(found.subrange(4, 8) =~= i32_bytes(first.count));
        lemma_i32_found(data, at, first.id);
        lemma_i32_found(data, at + 4, first.count);
        assert(data.subrange(at + 8, at + 8 + 8 * rest.len() + 4) =~= found.subrange(8, span));
        assert(found =~= i32_bytes(first.id) + i32_bytes(first.count) + (runs_bytes(rest)
            + i32_bytes(-1i32)));
        assert(found.subrange(8, span) =~= runs_bytes(rest) + i32_bytes(-1i32));
        assert forall|i: int| 0 <= i < rest.len() implies (#[trigger] rest[i]).id != -1 by {
            assert(rest[i] == runs[i + 1]);
        }
        lemma_runs_round_trip(data, at + 8, rest);
        assert(seq![first] + rest =~= runs);
    }
}

/// The chunks of a column as a chunk contents packet spells them: chunk
/// `k` stands at height `k`, with its cells compressed.
pub open spec fn column_records(col: ColumnView) -> Seq<ChunkRecord> {
    Seq::new(
        col.chunks.len(),
        |k: int|
            ChunkRecord {
                position: GridPosition { x: col.position.x, y: k as i32, z: col.position.z },
                runs: compression_of(col.chunks[k]),
            },
    )
}

/// The compressed form of the cells of a chunk exists, and is accepted as
/// the description of a chunk.
pub proof fn lemma_compression_exists(cells: Seq<i32>)
    requires
        crate::chunk::cells_are_valid(cells),
    ensures
        crate::chunk::is_compression(cells, compression_of(cells)),
        format_error(compression_of(cells)) is None,
        expand(compression_of(cells)) == cells,
{
    let runs = lemma_some_compression(cells, 4096);
    assert(cells.take(4096) =~= cells);
    assert(crate::chunk::is_compression(cells, runs));
    crate::chunk::lemma_compression_round_trip(cells, compression_of(cells));
}

/// Every prefix of a sequence of cells has a compressed form.
proof fn lemma_some_compression(cells: Seq<i32>, n: int) -> (runs: Seq<CompressedSet>)
    requires
        0 <= n <= cells.len(),
        cells.len() <= i32::MAX,
    ensures
        crate::chunk::is_compression(cells.take(n), runs),
        runs.len() > 0 ==> runs.last().id == cells[n - 1] && runs.last().count <= n,
        n > 0 ==> runs.len() > 0,
    decreases n,
{
    if n == 0 {
        let runs = Seq::<CompressedSet>::empty();
        assert(expand(runs) =~= cells.take(0));
        runs
    } else {
        let before = lemma_some_compression(cells, n - 1);
        let id = cells[n - 1];
        assert(cells.take(n) =~= cells.take(n - 1).push(id));
        if before.len() > 0 && before.last().id == id {
            let grown = CompressedSet { id, count: (before.last().count + 1) as i32 };
            let runs = before.drop_last().push(grown);
            crate::chunk::lemma_expand_push(before.drop_last(), grown);
            crate::chunk::lemma_expand_push(before.drop_last(), before.last());
            assert(before.drop_last().push(before.last()) =~= before);
            assert(crate::chunk::run_cells(grown) =~= crate::chunk::run_cells(before.last()).push(
                id,
            ));
            assert(expand(runs) =~= cells.take(n));
            assert forall|i: int| 0 <= i < runs.len() implies (#[trigger] runs[i]).count > 0 by {
                if i < runs.len() - 1 {
                    assert(runs[i] == before[i]);
                }
            }
            assert forall|i: int| 0 <= i < runs.len() - 1 implies (#[trigger] runs[i]).id
                != runs[i + 1].id by {
                assert(runs[i] == before[i]);
                if i + 1 < runs.len() - 1 {
                    assert(runs[i + 1] == before[i + 1]);
                } else {
                    assert(before[i + 1].id == id);
                }
            }
            runs
        } else {
            let single = CompressedSet { id, count: 1 };
            let runs = before.push(single);
            crate::chunk::lemma_expand_push(before, single);
            assert(crate::chunk::run_cells(single) =~= seq![id]);
            assert(expand(runs) =~= cells.take(n));
            assert forall|i: int| 0 <= i < runs.len() implies (#[trigger] runs[i]).count > 0 by {
                if i < runs.len() - 1 {
                    assert(runs[i] == before[i]);
                }
            }
            assert forall|i: int| 0 <= i < runs.len() - 1 implies (#[trigger] runs[i]).id
                != runs[i + 1].id by {
                assert(runs[i] == before[i]);
                if i + 1 < runs.len() - 1 {
                    assert(runs[i + 1] == before[i + 1]);
                }
            }
            runs
        }
    }
}

/// In the bytes of a column, the first `k` chunks come first, and chunk
/// `k` follows them.
proof fn lemma_records_prefix(col: ColumnView, k: int, n: int)
    requires
        0 <= k < n,
    ensures
        column_records_bytes(col, k + 1).len() <= column_records_bytes(col, n).len(),
        column_records_bytes(col, n).subrange(
            column_records_bytes(col, k).len() as int,
            column_records_bytes(col, k + 1).len() as int,
        ) == chunk_record_bytes(
            GridPosition { x: col.position.x, y: k as i32, z: col.position.z },
            col.chunks[k],
        ),
    decreases n,
{
    let whole = column_records_bytes(col, n);
    let record = chunk_record_bytes(
        GridPosition { x: col.position.x, y: k as i32, z: col.position.z },
        col.chunks[k],
    );
    if k == n - 1 {
        assert(whole.subrange(column_records_bytes(col, k).len() as int, whole.len() as int)
            =~= record);
    } else {
        lemma_records_prefix(col, k, n - 1);
        let shorter = column_records_bytes(col, n - 1);
        assert(whole.subrange(
            column_records_bytes(col, k).len() as int,
            column_records_bytes(col, k + 1).len() as int,
        ) =~= shorter.subrange(
            column_records_bytes(col, k).len() as int,
            column_records_bytes(col, k + 1).len() as int,
        ));
    }
}

/// A chunk written out as a position, runs without the id -1 and the word
/// -1 is read back as that position and those runs.
proof fn lemma_record_found(
    data: Seq<u8>,
    at: int,
    position: GridPosition,
    runs: Seq<CompressedSet>,
)
    requires
        0 <= at,
        at + 12 + 8 * runs.len() + 4 <= data.len(),
        data.subrange(at, at + 12 + 8 * runs.len() + 4) == position_bytes(position) + runs_bytes(
            runs,
        ) + i32_bytes(-1i32),
        forall|i: int| 0 <= i < runs.len() ==> (#[trigger] runs[i]).id != -1,
    ensures
        position_at(data, at) == position,
        runs_at(data, at + 12) == Some((runs, (8 * runs.len() + 4) as nat)),
{
    let span: int = 8 * (runs.len() as int) + 4;
    let record = data.subrange(at, at + 12 + span);
    lemma_runs_bytes_len(runs);
    crate::wire::lemma_signed_round_trip(position.x as int, 0);
    crate::wire::lemma_signed_round_trip(position.y as int, 0);
    crate::wire::lemma_signed_round_trip(position.z as int, 0);
    crate::wire::lemma_signed_round_trip(-1, 0);
    crate::wire::lemma_word_round_trip(crate::wire::signed_to_word(position.x as int));
    crate::wire::lemma_word_round_trip(crate::wire::signed_to_word(position.y as int));
    crate::wire::lemma_word_round_trip(crate::wire::signed_to_word(position.z as int));
    crate::wire::lemma_word_round_trip(crate::wire::signed_to_word(-1));
    assert(data.subrange(at, at + 4) =~= record.subrange(0, 4));
    assert(record.subrange(0, 4) =~= i32_bytes(position.x));
    assert(data.subrange(at + 4, at + 8) =~= record.subrange(4, 8));
    assert(record.subrange(4, 8) =~= i32_bytes(position.y));
    assert(data.subrange(at + 8, at + 12) =~= record.subrange(8, 12));
    assert(record.subrange(8, 12) =~= i32_bytes(position.z));
    lemma_i32_found(data, at, position.x);
    lemma_i32_found(data, at + 4, position.y);
    lemma_i32_found(data, at + 8, position.z);
    assert(data.subrange(at + 12, at + 12 + span) =~= record.subrange(12, 12 + span));
    assert(record.subrange(12, 12 + span) =~= runs_bytes(runs) + i32_bytes(-1i32));
    lemma_runs_round_trip(data, at + 12, runs);
}

/// The bytes of one chunk take twelve bytes for the position, eight for
/// each run, and four for the word that ends the runs.
proof fn lemma_record_len(position: GridPosition, cells: Seq<i32>)
    ensures
        chunk_record_bytes(position, cells).len() == 12 + 8 * compression_of(cells).len() + 4,
{
    lemma_runs_bytes_len(compression_of(cells));
    crate::wire::lemma_signed_round_trip(position.x as int, 0);
    crate::wire::lemma_signed_round_trip(position.y as int, 0);
    crate::wire::lemma_signed_round_trip(position.z as int, 0);
    crate::wire::lemma_signed_round_trip(-1, 0);
    crate::wire::lemma_word_round_trip(crate::wire::signed_to_word(position.x as int));
    crate::wire::lemma_word_round_trip(crate::wire::signed_to_word(position.y as int));
    crate::wire::lemma_word_round_trip(crate::wire::signed_to_word(position.z as int));
    crate::wire::lemma_word_round_trip(crate::wire::signed_to_word(-1));
}

/// From the place where chunk `k` begins, the packet of a column reads as
/// the chunks from `k` on.
proof fn lemma_records_from(col: ColumnView, k: int)
    requires
        column_is_valid(col),
        0 <= k <= col.chunks.len(),
    ensures
        records_at(chunk_contents_packet(col), 1 + (column_records_bytes(col, k).len() as int))
            == Ok::<Seq<ChunkRecord>, ProtocolError>(column_records(col).skip(k)),
    decreases col.chunks.len() - k,
{
    let n = col.chunks.len() as int;
    let data = chunk_contents_packet(col);
    let at: int = 1 + (column_records_bytes(col, k).len() as int);
    assert(data.len() == 1 + column_records_bytes(col, n).len());
    if k == n {
        assert(column_records(col).skip(k) =~= Seq::<ChunkRecord>::empty());
    } else {
        let position = GridPosition { x: col.position.x, y: k as i32, z: col.position.z };
        let cells = col.chunks[k];
        let runs = compression_of(cells);
        lemma_records_prefix(col, k, n);
        lemma_compression_exists(cells);
        lemma_record_len(position, cells);
        let span: int = 8 * (runs.len() as int) + 4;
        let next: int = 1 + (column_records_bytes(col, k + 1).len() as int);
        assert(next == at + 12 + span);
        assert(data.subrange(at, next) =~= column_records_bytes(col, n).subrange(
            at - 1,
            next - 1,
        ));
        assert forall|i: int| 0 <= i < runs.len() implies (#[trigger] runs[i]).id != -1 by {
            assert(!crate::chunk::has_negative_id(runs));
        }
        lemma_record_found(data, at, position, runs);
        lemma_records_from(col, k + 1);
        assert(runs_span(data, at + 12) == span);
        assert(seq![ChunkRecord { position, runs }] + column_records(col).skip(k + 1)
            =~= column_records(col).skip(k));
    }
}

/// Round trip of the chunk contents: the packet built from a column is
/// read back as the chunks of that column, each at its height and with its
/// cells, cell for cell.
pub proof fn lemma_chunk_contents_round_trip(col: ColumnView)
    requires
        column_is_valid(col),
    ensures
        chunk_contents_of(chunk_contents_packet(col)) == Ok::<Seq<ChunkRecord>, ProtocolError>(
            column_records(col),
        ),
        forall|k: int|
            0 <= k < col.chunks.len() ==> expand((#[trigger] column_records(col)[k]).runs)
                == col.chunks[k],
{
    lemma_records_from(col, 0);
    assert(column_records(col).skip(0) =~= column_records(col));
    assert forall|k: int| 0 <= k < col.chunks.len() implies expand(
        (#[trigger] column_records(col)[k]).runs,
    ) == col.chunks[k] by {
        lemma_compression_exists(col.chunks[k]);
    }
}

/// A chunk contents packet is refused as soon as the runs of one of its
/// chunks do not describe 4096 cells: here for its first chunk, whatever
/// follows.
pub proof fn lemma_malformed_runs_are_rejected(data: Seq<u8>)
    requires
        header_error(data, PacketType::ChunkContents) is None,
        data.len() >= 13,
        runs_at(data, 13) is Some,
        format_error(runs_at(data, 13)->Some_0.0) is Some,
    ensures
        chunk_contents_of(data) == Err::<Seq<ChunkRecord>, ProtocolError>(
            ProtocolError::Format(format_error(runs_at(data, 13)->Some_0.0)->Some_0),
        ),
{
}

} // verus!
