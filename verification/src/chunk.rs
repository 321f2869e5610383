//! How files are cut into chunks, and the numbers of chunks.
use std::sync::Arc;
use vstd::arithmetic::div_mod::{
    lemma_div_is_ordered, lemma_fundamental_div_mod, lemma_fundamental_div_mod_converse,
};
use vstd::prelude::*;

verus! {

/// The distance between the numbers of the first chunks of two neighbouring inodes.
pub const CHUNK_ID_BASE: u64 = 1_000_000_000;

/// The number of a chunk of an inode.
pub open spec fn chunk_id(ino: int, chunk_index: int) -> int {
    ino * CHUNK_ID_BASE + chunk_index
}

/// The inode and the index that a chunk number stands for.
pub open spec fn chunk_of(id: int) -> (int, int) {
    (id / CHUNK_ID_BASE as int, id % CHUNK_ID_BASE as int)
}

/// The number of the chunk with the given index of an inode. It has to fit 64 bits.
pub fn chunk_id_for(ino: i64, chunk_index: u64) -> (r: u64)
    requires
        ino >= 0,
        chunk_id(ino as int, chunk_index as int) <= u64::MAX,
    ensures
        r == chunk_id(ino as int, chunk_index as int),
{
    (ino as u64) * CHUNK_ID_BASE + chunk_index
}

/// Extracts the inode number and chunk index from a chunk_id.
/// This is the inverse operation of `chunk_id_for`.
///
/// # Returns
/// A tuple of (inode, chunk_index) where:
/// - inode = chunk_id / CHUNK_ID_BASE
/// - chunk_index = chunk_id % CHUNK_ID_BASE
pub fn extract_ino_and_chunk_index(chunk_id: u64) -> (r: (i64, u64))
    ensures
        (r.0 as int, r.1 as int) == chunk_of(chunk_id as int),
{
    let ino: i64 = (chunk_id / CHUNK_ID_BASE) as i64;
    let chunk_index: u64 = chunk_id % CHUNK_ID_BASE;
    (ino, chunk_index)
}

/// A chunk number gives back the inode and the index that it was made from, as long as the index
/// is below the distance between two inodes.
pub proof fn chunk_id_round_trip(ino: int, chunk_index: int)
    requires
        ino >= 0,
        0 <= chunk_index < CHUNK_ID_BASE,
    ensures
        chunk_of(chunk_id(ino, chunk_index)) == (ino, chunk_index),
{
}

/// Every number is that of the chunk it stands for.
pub proof fn chunk_of_round_trip(id: int)
    requires
        id >= 0,
    ensures
        chunk_id(chunk_of(id).0, chunk_of(id).1) == id,
{
}

/// The chunks of an inode are numbered one after the other, and after the last that an inode can
/// have comes the first of the next inode. The first of all is 0.
pub proof fn chunk_ids_follow_each_other(ino: int, chunk_index: int)
    requires
        ino >= 0,
        0 <= chunk_index,
    ensures
        chunk_id(0, 0) == 0,
        chunk_id(ino, chunk_index + 1) == chunk_id(ino, chunk_index) + 1,
        chunk_id(ino + 1, 0) == chunk_id(ino, 999_999_999) + 1,
{
    assert((ino + 1) * CHUNK_ID_BASE == ino * CHUNK_ID_BASE + CHUNK_ID_BASE) by (nonlinear_arith);
}

/// Different chunks have different numbers, as long as both indexes are below the distance
/// between two inodes.
pub proof fn chunk_id_is_injective(ino1: int, index1: int, ino2: int, index2: int)
    requires
        ino1 >= 0,
        ino2 >= 0,
        0 <= index1 < CHUNK_ID_BASE,
        0 <= index2 < CHUNK_ID_BASE,
        chunk_id(ino1, index1) == chunk_id(ino2, index2),
    ensures
        ino1 == ino2,
        index1 == index2,
{
}

/// The sizes of chunks and of the blocks that chunks are stored in.
#[derive(Debug, Clone, Copy, PartialEq, Eq, Structural)]
pub struct ChunkLayout {
    pub chunk_size: u64,
    pub block_size: u32,
}

impl ChunkLayout {
    /// The index of the chunk that holds the byte at an offset of a file.
    pub fn chunk_index_of(&self, offset: u64) -> (r: u64)
        requires
            self.chunk_size > 0,
        ensures
            r == offset / self.chunk_size,
    {
        offset / self.chunk_size
    }

    /// Where in its chunk the byte at an offset of a file stands.
    pub fn within_chunk_offset(&self, offset: u64) -> (r: u64)
        requires
            self.chunk_size > 0,
        ensures
            r == offset % self.chunk_size,
    {
        offset % self.chunk_size
    }
}

/// A part of one chunk.
#[derive(Debug, Clone, Copy, PartialEq, Eq, Structural)]
pub struct ChunkSpan {
    pub index: u64,
    pub offset: u32,
    pub len: u32,
}

impl ChunkSpan {
    pub fn new(index: u64, offset: u32, len: u32) -> (s: ChunkSpan)
        ensures
            s == (ChunkSpan { index, offset, len }),
    {
        ChunkSpan { index, offset, len }
    }
}

/// The index of the first chunk that a range of a file touches.
pub open spec fn first_chunk(chunk_size: int, offset: int) -> int {
    offset / chunk_size
}

/// The number of chunks that a range of a file touches.
pub open spec fn chunk_count(chunk_size: int, offset: int, len: int) -> int {
    if len <= 0 {
        0
    } else {
        (offset + len - 1) / chunk_size - offset / chunk_size + 1
    }
}

/// Where the part of a range that lies in chunk `c` starts, as an offset of the file.
pub open spec fn part_start(chunk_size: int, offset: int, c: int) -> int {
    if offset >= c * chunk_size {
        offset
    } else {
        c * chunk_size
    }
}

/// Where the part of a range that lies in chunk `c` ends, as an offset of the file.
pub open spec fn part_end(chunk_size: int, offset: int, len: int, c: int) -> int {
    if offset + len <= (c + 1) * chunk_size {
        offset + len
    } else {
        (c + 1) * chunk_size
    }
}

/// A span as mathematical integers: the index of the chunk, where the span starts in the chunk,
/// and its length.
pub open spec fn span_at(chunk_size: int, offset: int, len: int, i: int) -> (int, int, int) {
    let c = first_chunk(chunk_size, offset) + i;
    let start = part_start(chunk_size, offset, c);
    (c, start - c * chunk_size, part_end(chunk_size, offset, len, c) - start)
}

/// Whether every span of a range is within the range of its 32-bit fields.
pub open spec fn spans_fit(chunk_size: int, offset: int, len: int) -> bool {
    forall|i: int|
        0 <= i < chunk_count(chunk_size, offset, len) ==> {
            &&& (#[trigger] span_at(chunk_size, offset, len, i)).1 <= u32::MAX
            &&& span_at(chunk_size, offset, len, i).2 <= u32::MAX
        }
}

/// Spans of chunks that are no larger than 32 bits can tell are always within range.
pub proof fn small_chunks_fit(chunk_size: int, offset: int, len: int)
    requires
        0 < chunk_size <= u32::MAX,
        offset >= 0,
        len >= 0,
    ensures
        spans_fit(chunk_size, offset, len),
{
    assert forall|i: int| 0 <= i < chunk_count(chunk_size, offset, len) implies {
        &&& (#[trigger] span_at(chunk_size, offset, len, i)).1 <= u32::MAX
        &&& span_at(chunk_size, offset, len, i).2 <= u32::MAX
    } by {
        let c = first_chunk(chunk_size, offset) + i;
        lemma_fundamental_div_mod(offset, chunk_size);
        assert(c * chunk_size == first_chunk(chunk_size, offset) * chunk_size + i * chunk_size)
            by (nonlinear_arith)
            requires
                c == first_chunk(chunk_size, offset) + i,
        ;
        assert(i * chunk_size >= 0) by (nonlinear_arith)
            requires
                i >= 0,
                chunk_size > 0,
        ;
        assert((c + 1) * chunk_size == c * chunk_size + chunk_size) by (nonlinear_arith);
        assert(chunk_size * (offset / chunk_size) == (offset / chunk_size) * chunk_size)
            by (nonlinear_arith);
    }
}

/// Cuts a range of a file at the borders of chunks.
pub fn split_chunk_spans(layout: ChunkLayout, offset: u64, len: usize) -> (spans: Vec<ChunkSpan>)
    requires
        len > 0 ==> layout.chunk_size > 0,
        offset + len <= u64::MAX,
        spans_fit(layout.chunk_size as int, offset as int, len as int),
    ensures
        spans@.len() == chunk_count(layout.chunk_size as int, offset as int, len as int),
        forall|i: int|
            0 <= i < spans@.len() ==> {
                let s = #[trigger] spans@[i];
                (s.index as int, s.offset as int, s.len as int) == span_at(
                    layout.chunk_size as int,
                    offset as int,
                    len as int,
                    i,
                )
            },
{
    let ghost size = layout.chunk_size as int;
    let ghost end = offset + len;
    let ghost first = first_chunk(size, offset as int);
    let mut spans: Vec<ChunkSpan> = Vec::new();
    if len == 0 {
        return spans;
    }
    let mut remaining: u64 = len as u64;
    let mut cursor: u64 = offset;
    proof {
        lemma_fundamental_div_mod(offset as int, size);
    }
    while remaining > 0
        invariant
            size == layout.chunk_size > 0,
            end == offset + len <= u64::MAX,
            len > 0,
            cursor + remaining == end,
            first == offset as int / size,
            spans_fit(size, offset as int, len as int),
            spans@.len() == 0 ==> cursor == offset,
            spans@.len() > 0 && remaining > 0 ==> cursor == (first + spans@.len()) * size,
            offset <= cursor,
            remaining > 0 ==> spans@.len() == cursor as int / size - first,
            remaining == 0 ==> spans@.len() == (end - 1) / size - first + 1,
            forall|i: int|
                0 <= i < spans@.len() ==> {
                    let s = #[trigger] spans@[i];
                    (s.index as int, s.offset as int, s.len as int) == span_at(
                        size,
                        offset as int,
                        len as int,
                        i,
                    )
                },
        decreases remaining,
    {
        let ghost i = spans@.len() as int;
        let ghost c = first + i;
        let ghost here = cursor as int;
        let chunk_index: u64 = layout.chunk_index_of(cursor);
        let within: u64 = layout.within_chunk_offset(cursor);
        let avail: u64 = layout.chunk_size.saturating_sub(within);
        let part: u64 = if remaining < avail {
            remaining
        } else {
            avail
        };
        proof {
            lemma_fundamental_div_mod(here, size);
            assert(size * (here / size) == c * size) by (nonlinear_arith)
                requires
                    here / size == c,
            ;
            assert((c + 1) * size == c * size + size) by (nonlinear_arith);
            lemma_div_is_ordered(here, end - 1, size);
            assert(i < chunk_count(size, offset as int, len as int));
            assert(span_at(size, offset as int, len as int, i) == (c, within as int, part as int))
                by {
                if i == 0 {
                    assert(here == offset);
                } else {
                    assert(here == c * size);
                }
            }
        }
        let chunk_offset: u32 = within as u32;
        let take: u32 = part as u32;
        spans.push(ChunkSpan::new(chunk_index, chunk_offset, take));
        remaining = remaining - take as u64;
        cursor = cursor + take as u64;
        proof {
            if remaining > 0 {
                assert(cursor == (c + 1) * size);
                lemma_fundamental_div_mod_converse(cursor as int, size, c + 1, 0);
            } else {
                assert(end - 1 == c * size + (end - 1 - c * size));
                assert(c * size == size * c) by (nonlinear_arith);
                lemma_fundamental_div_mod_converse(end - 1, size, c, end - 1 - c * size);
            }
        }
    }
    spans
}

/// The spans of a range cover it: the first starts where the range starts, each starts where the
/// one before it ends, the last ends where the range ends, and none is empty. Each lies in a chunk
/// of its own, one after the other.
pub proof fn spans_tile(chunk_size: int, offset: int, len: int, i: int)
    requires
        chunk_size > 0,
        offset >= 0,
        len > 0,
        0 <= i < chunk_count(chunk_size, offset, len),
    ensures
        ({
            let n = chunk_count(chunk_size, offset, len);
            let (c, start, part) = span_at(chunk_size, offset, len, i);
            &&& part > 0
            &&& 0 <= start
            &&& start + part <= chunk_size
            &&& i == 0 ==> c * chunk_size + start == offset
            &&& i + 1 < n ==> {
                let (next, next_start, _) = span_at(chunk_size, offset, len, i + 1);
                &&& next == c + 1
                &&& next_start == 0
                &&& start + part == chunk_size
                &&& c * chunk_size + start + part == next * chunk_size + next_start
            }
            &&& i + 1 == n ==> c * chunk_size + start + part == offset + len
        }),
{
    let first = first_chunk(chunk_size, offset);
    let last = (offset + len - 1) / chunk_size;
    let c = first + i;
    lemma_fundamental_div_mod(offset, chunk_size);
    lemma_fundamental_div_mod(offset + len - 1, chunk_size);
    assert(chunk_size * first == first * chunk_size) by (nonlinear_arith);
    assert(chunk_size * last == last * chunk_size) by (nonlinear_arith);
    assert((c + 1) * chunk_size == c * chunk_size + chunk_size) by (nonlinear_arith);
    assert(((c + 1) + 1) * chunk_size == (c + 1) * chunk_size + chunk_size) by (nonlinear_arith);
    assert(c * chunk_size == first * chunk_size + i * chunk_size) by (nonlinear_arith)
        requires
            c == first + i,
    ;
    assert(last * chunk_size == c * chunk_size + (last - c) * chunk_size) by (nonlinear_arith);
    assert(i > 0 ==> i * chunk_size >= chunk_size) by (nonlinear_arith)
        requires
            chunk_size > 0,
    ;
    assert(last > c ==> (last - c) * chunk_size >= chunk_size) by (nonlinear_arith)
        requires
            chunk_size > 0,
    ;
    assert(i == 0 ==> i * chunk_size == 0) by (nonlinear_arith);
    assert(last == c ==> (last - c) * chunk_size == 0) by (nonlinear_arith);
}

/// What chunks are stored in: a store of blocks, and the metadata service.
#[derive(Debug)]
pub struct Backend<S, M> {
    pub store: Arc<S>,
    pub meta: Arc<M>,
}

impl<S, M> Backend<S, M> {
    pub fn new(store: Arc<S>, meta: Arc<M>) -> (b: Backend<S, M>)
        ensures
            b == (Backend { store, meta }),
    {
        Backend { store, meta }
    }
}

/// Access to one chunk for reading.
#[derive(Debug)]
pub struct DataFetcher<'a, S, M> {
    pub layout: ChunkLayout,
    pub chunk_id: u64,
    pub backend: &'a Backend<S, M>,
}

/// Access to one chunk for writing.
#[derive(Debug)]
pub struct DataUploader<'a, S, M> {
    pub layout: ChunkLayout,
    pub chunk_id: u64,
    pub backend: &'a Backend<S, M>,
}

/// Makes the readers and the writers of chunks.
#[derive(Debug)]
pub struct ChunkIoFactory<S, M> {
    pub layout: ChunkLayout,
    pub backend: Arc<Backend<S, M>>,
}

impl<S, M> ChunkIoFactory<S, M> {
    pub fn new(layout: ChunkLayout, store: Arc<S>, meta: Arc<M>) -> (f: ChunkIoFactory<S, M>)
        ensures
            f.layout == layout,
            *f.backend == (Backend { store, meta }),
    {
        ChunkIoFactory { layout, backend: Arc::new(Backend::new(store, meta)) }
    }

    pub fn layout(&self) -> (r: ChunkLayout)
        ensures
            r == self.layout,
    {
        self.layout
    }

    pub fn backend(&self) -> (r: &Arc<Backend<S, M>>)
        ensures
            r == self.backend,
    {
        &self.backend
    }

    pub fn reader(&self, chunk_id: u64) -> (r: DataFetcher<'_, S, M>)
        ensures
            r.layout == self.layout,
            r.chunk_id == chunk_id,
            *r.backend == *self.backend,
    {
        DataFetcher { layout: self.layout, chunk_id, backend: &self.backend }
    }

    pub fn writer(&self, chunk_id: u64) -> (r: DataUploader<'_, S, M>)
        ensures
            r.layout == self.layout,
            r.chunk_id == chunk_id,
            *r.backend == *self.backend,
    {
        DataUploader { layout: self.layout, chunk_id, backend: &self.backend }
    }
}

} // verus!
