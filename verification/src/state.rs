//! The chunk holder record and its chunks.

use crate::error::{ChunkLoaderError, ChunkLoaderErrorView};
use crate::reassembly::{chunk_views, lemma_join_below_same, lemma_join_len, lemma_sorted_join, sort_by_index, sorted_by_index, spec_concat, spec_join, spec_total_len};
use vstd::bytes::{lemma_auto_spec_u32_to_from_le_bytes, spec_u32_from_le_bytes, spec_u32_to_le_bytes, u32_from_le_bytes, u32_to_le_bytes};
use vstd::prelude::*;
use vstd::slice::{slice_subrange, slice_to_vec};

verus! {

/// One piece of the payload.
#[derive(Clone, Debug, PartialEq, Eq)]
pub struct Chunk {
    /// Position of this piece in the payload.
    pub index: u8,
    /// The bytes of this piece.
    pub data: Vec<u8>,
}

/// A chunk as a mathematical value.
pub struct ChunkView {
    pub index: u8,
    pub data: Seq<u8>,
}

impl View for Chunk {
    type V = ChunkView;

    open spec fn view(&self) -> ChunkView {
        ChunkView { index: self.index, data: self.data@ }
    }
}

/// The record that collects the chunks of one payload.
#[derive(Clone, Debug, PartialEq, Eq)]
pub struct ChunkHolder {
    /// Identity of the caller who created the record.
    pub owner: [u8; 32],
    /// The chunks, in the order in which they arrived.
    pub chunks: Vec<Chunk>,
}

/// A chunk holder as a mathematical value.
pub struct ChunkHolderView {
    pub owner: Seq<u8>,
    pub chunks: Seq<ChunkView>,
}

impl View for ChunkHolder {
    type V = ChunkHolderView;

    open spec fn view(&self) -> ChunkHolderView {
        ChunkHolderView { owner: self.owner@, chunks: chunk_views(self.chunks@) }
    }
}

impl Chunk {
    /// Bytes that a chunk without data takes in a record: the index and the
    /// length prefix of the data.
    pub const INIT_SPACE: usize = 5;

    /// Bytes that this chunk takes in a record.
    pub open spec fn spec_self_space(self) -> int {
        Self::INIT_SPACE + self.data@.len()
    }

    /// Bytes that this chunk takes in a record.
    pub fn self_space(&self) -> (space: usize)
        requires
            self.spec_self_space() <= usize::MAX,
        ensures
            space == self.spec_self_space(),
    {
        Self::INIT_SPACE + self.data.len()
    }
}


/// The bytes of one chunk in a record: the index, the length of the data in
/// four bytes, least significant first, and the data.
pub open spec fn spec_chunk_bytes(c: ChunkView) -> Seq<u8> {
    seq![c.index] + spec_u32_to_le_bytes(c.data.len() as u32) + c.data
}

/// The bytes of some chunks in a record, one after the other.
pub open spec fn spec_chunks_bytes(s: Seq<ChunkView>) -> Seq<u8>
    decreases s.len(),
{
    if s.len() == 0 {
        Seq::empty()
    } else {
        spec_chunks_bytes(s.drop_last()) + spec_chunk_bytes(s.last())
    }
}

/// Reads one chunk at `pos`: the chunk and the position behind it, or `None`
/// where the bytes end too early.
pub open spec fn spec_parse_chunk(b: Seq<u8>, pos: int) -> Option<(ChunkView, int)> {
    if pos + 5 > b.len() {
        None
    } else {
        let n = spec_u32_from_le_bytes(b.subrange(pos + 1, pos + 5)) as int;
        if pos + 5 + n > b.len() {
            None
        } else {
            Some((ChunkView { index: b[pos], data: b.subrange(pos + 5, pos + 5 + n) }, pos + 5 + n))
        }
    }
}

/// Reads `count` chunks from `pos` on: the chunks and the position behind the
/// last of them.
pub open spec fn spec_parse_chunks(b: Seq<u8>, pos: int, count: nat) -> Option<(Seq<ChunkView>, int)>
    decreases count,
{
    if count == 0 {
        Some((Seq::empty(), pos))
    } else {
        match spec_parse_chunk(b, pos) {
            None => None,
            Some((c, next)) => match spec_parse_chunks(b, next, (count - 1) as nat) {
                None => None,
                Some((rest, end)) => Some((seq![c] + rest, end)),
            },
        }
    }
}

impl ChunkHolderView {
    /// Whether the record can be written down: the owner has 32 bytes, and the
    /// number of chunks and the length of each fit the four bytes of a length
    /// prefix.
    pub open spec fn serializable(self) -> bool {
        &&& self.owner.len() == 32
        &&& self.chunks.len() <= u32::MAX
        &&& forall|i: int| 0 <= i < self.chunks.len() ==> (#[trigger] self.chunks[i]).data.len() <= u32::MAX
    }

    /// The record's bytes behind the type tag: the owner, the number of chunks
    /// in four bytes, least significant first, and the chunks.
    pub open spec fn spec_serialize(self) -> Seq<u8> {
        self.owner + spec_u32_to_le_bytes(self.chunks.len() as u32) + spec_chunks_bytes(self.chunks)
    }

    /// Reads a record from the start of `b`: the record and the number of
    /// bytes it took. Bytes behind the record are left alone.
    pub open spec fn spec_deserialize(b: Seq<u8>) -> Option<(ChunkHolderView, int)> {
        if b.len() < 36 {
            None
        } else {
            let count = spec_u32_from_le_bytes(b.subrange(32, 36)) as nat;
            match spec_parse_chunks(b, 36, count) {
                None => None,
                Some((chunks, end)) => Some((ChunkHolderView { owner: b.subrange(0, 32), chunks }, end)),
            }
        }
    }

    /// The bytes of a record's storage: the type tag and the record.
    pub open spec fn spec_record_bytes(self) -> Seq<u8> {
        seq![ChunkHolder::DISCRIMINATOR] + self.spec_serialize()
    }

    /// Reads a record from storage: the type tag is tested first, and only
    /// then are the bytes behind it read as a record.
    pub open spec fn spec_try_deserialize(data: Seq<u8>) -> Result<ChunkHolderView, ChunkLoaderErrorView> {
        if data.len() == 0 || data[0] != ChunkHolder::DISCRIMINATOR {
            Err(ChunkLoaderErrorView::AccountDiscriminatorMismatch)
        } else {
            match Self::spec_deserialize(data.subrange(1, data.len() as int)) {
                None => Err(ChunkLoaderErrorView::AccountDidNotDeserialize),
                Some((h, _)) => Ok(h),
            }
        }
    }

    /// The record with one more chunk behind the others.
    pub open spec fn push(self, c: ChunkView) -> ChunkHolderView {
        ChunkHolderView { owner: self.owner, chunks: self.chunks.push(c) }
    }
}

/// Puts chunks already read in front of what reading the rest gives.
pub open spec fn spec_prepend(done: Seq<ChunkView>, rest: Option<(Seq<ChunkView>, int)>) -> Option<(Seq<ChunkView>, int)> {
    match rest {
        None => None,
        Some((more, end)) => Some((done + more, end)),
    }
}

/// Reading `count` chunks is reading one and then the others.
pub proof fn lemma_parse_chunks_step(b: Seq<u8>, done: Seq<ChunkView>, pos: int, count: nat)
    requires
        count > 0,
    ensures
        spec_prepend(done, spec_parse_chunks(b, pos, count)) == match spec_parse_chunk(b, pos) {
            None => None,
            Some((c, next)) => spec_prepend(done.push(c), spec_parse_chunks(b, next, (count - 1) as nat)),
        },
{
    match spec_parse_chunk(b, pos) {
        None => {},
        Some((c, next)) => {
            match spec_parse_chunks(b, next, (count - 1) as nat) {
                None => {},
                Some((rest, end)) => {
                    assert(done + (seq![c] + rest) =~= done.push(c) + rest);
                },
            }
        },
    }
}

/// Bytes that some chunks take in a record: for each, five and its data.
pub open spec fn spec_chunks_space(s: Seq<ChunkView>) -> nat
    decreases s.len(),
{
    if s.len() == 0 {
        0
    } else {
        spec_chunks_space(s.drop_last()) + 5 + s.last().data.len()
    }
}

/// A chunk takes five bytes and its data.
pub proof fn lemma_chunk_bytes_len(c: ChunkView)
    ensures
        spec_chunk_bytes(c).len() == 5 + c.data.len(),
{
    lemma_auto_spec_u32_to_from_le_bytes();
}

/// Chunks take what each of them takes.
pub proof fn lemma_chunks_bytes_len(s: Seq<ChunkView>)
    ensures
        spec_chunks_bytes(s).len() == spec_chunks_space(s),
    decreases s.len(),
{
    if s.len() > 0 {
        lemma_chunks_bytes_len(s.drop_last());
        lemma_chunk_bytes_len(s.last());
    }
}

/// A record takes 36 bytes behind its type tag, and what its chunks take.
pub proof fn lemma_serialize_len(h: ChunkHolderView)
    requires
        h.owner.len() == 32,
    ensures
        h.spec_serialize().len() == 36 + spec_chunks_space(h.chunks),
{
    lemma_auto_spec_u32_to_from_le_bytes();
    lemma_chunks_bytes_len(h.chunks);
}

/// A single chunk is written down by its own bytes.
pub proof fn lemma_chunks_bytes_one(c: ChunkView)
    ensures
        spec_chunks_bytes(seq![c]) == spec_chunk_bytes(c),
{
    let one = seq![c];
    assert(one.drop_last().len() == 0);
    assert(spec_chunks_bytes(one.drop_last()) =~= Seq::<u8>::empty());
    assert(one.last() == c);
    assert(spec_chunks_bytes(one) =~= spec_chunk_bytes(c));
}

/// The bytes of `a + b` are the bytes of `a`, then those of `b`.
pub proof fn lemma_chunks_bytes_add(a: Seq<ChunkView>, b: Seq<ChunkView>)
    ensures
        spec_chunks_bytes(a + b) == spec_chunks_bytes(a) + spec_chunks_bytes(b),
    decreases b.len(),
{
    if b.len() == 0 {
        assert(a + b =~= a);
        assert(spec_chunks_bytes(a) + spec_chunks_bytes(b) =~= spec_chunks_bytes(a));
    } else {
        assert((a + b).drop_last() =~= a + b.drop_last());
        lemma_chunks_bytes_add(a, b.drop_last());
        assert(spec_chunks_bytes(a) + (spec_chunks_bytes(b.drop_last()) + spec_chunk_bytes(b.last()))
            =~= (spec_chunks_bytes(a) + spec_chunks_bytes(b.drop_last())) + spec_chunk_bytes(b.last()));
    }
}

/// Reading where the bytes of a chunk stand gives that chunk.
pub proof fn lemma_parse_chunk_at(b: Seq<u8>, pos: int, c: ChunkView)
    requires
        0 <= pos,
        c.data.len() <= u32::MAX,
        pos + 5 + c.data.len() <= b.len(),
        b.subrange(pos, pos + 5 + c.data.len()) == spec_chunk_bytes(c),
    ensures
        spec_parse_chunk(b, pos) == Some((c, pos + 5 + c.data.len())),
{
    lemma_auto_spec_u32_to_from_le_bytes();
    let n = c.data.len() as int;
    let w = b.subrange(pos, pos + 5 + n);
    let prefix = spec_u32_to_le_bytes(n as u32);
    assert(w[0] == c.index);
    assert(b[pos] == w[0]);
    assert(b.subrange(pos + 1, pos + 5) =~= w.subrange(1, 5));
    assert(w.subrange(1, 5) =~= prefix);
    assert(b.subrange(pos + 5, pos + 5 + n) =~= w.subrange(5, 5 + n));
    assert(w.subrange(5, 5 + n) =~= c.data);
}

/// Reading where the bytes of some chunks stand gives those chunks.
pub proof fn lemma_parse_chunks_at(b: Seq<u8>, pos: int, s: Seq<ChunkView>)
    requires
        0 <= pos,
        forall|i: int| 0 <= i < s.len() ==> (#[trigger] s[i]).data.len() <= u32::MAX,
        pos + spec_chunks_bytes(s).len() <= b.len(),
        b.subrange(pos, pos + spec_chunks_bytes(s).len()) == spec_chunks_bytes(s),
    ensures
        spec_parse_chunks(b, pos, s.len()) == Some((s, pos + spec_chunks_bytes(s).len())),
    decreases s.len(),
{
    if s.len() == 0 {
        assert(s =~= Seq::<ChunkView>::empty());
    } else {
        let c = s[0];
        let rest = s.subrange(1, s.len() as int);
        let one = seq![c];
        let all = spec_chunks_bytes(s);
        assert(s =~= one + rest);
        lemma_chunks_bytes_add(one, rest);
        lemma_chunks_bytes_one(c);
        lemma_chunk_bytes_len(c);
        let width = 5 + c.data.len() as int;
        let next = pos + width;
        assert(b.subrange(pos, next) =~= all.subrange(0, width));
        assert(all.subrange(0, width) =~= spec_chunk_bytes(c));
        lemma_parse_chunk_at(b, pos, c);
        assert(b.subrange(next, next + spec_chunks_bytes(rest).len()) =~= all.subrange(width, all.len() as int));
        assert(all.subrange(width, all.len() as int) =~= spec_chunks_bytes(rest));
        lemma_parse_chunks_at(b, next, rest);
    }
}

/// Reading the bytes of a record gives the record back, whatever follows
/// them.
pub proof fn lemma_deserialize_serialize(h: ChunkHolderView, tail: Seq<u8>)
    requires
        h.serializable(),
    ensures
        ChunkHolderView::spec_deserialize(h.spec_serialize() + tail) == Some((h, h.spec_serialize().len() as int)),
{
    lemma_auto_spec_u32_to_from_le_bytes();
    let count = spec_u32_to_le_bytes(h.chunks.len() as u32);
    let body = spec_chunks_bytes(h.chunks);
    let b = h.spec_serialize() + tail;
    assert(b.subrange(0, 32) =~= h.owner);
    assert(b.subrange(32, 36) =~= count);
    assert(b.subrange(36, 36 + body.len() as int) =~= body);
    lemma_parse_chunks_at(b, 36, h.chunks);
}

/// A chunk that was read stands at the place where it was read.
pub proof fn lemma_parse_chunk_bytes(b: Seq<u8>, pos: int)
    requires
        0 <= pos,
        spec_parse_chunk(b, pos) is Some,
    ensures
        ({
            let (c, next) = spec_parse_chunk(b, pos).unwrap();
            &&& c.data.len() <= u32::MAX
            &&& next == pos + 5 + c.data.len()
            &&& next <= b.len()
            &&& spec_chunk_bytes(c) == b.subrange(pos, next)
        }),
{
    lemma_auto_spec_u32_to_from_le_bytes();
    let (c, next) = spec_parse_chunk(b, pos).unwrap();
    assert(spec_u32_to_le_bytes(c.data.len() as u32) == b.subrange(pos + 1, pos + 5));
    assert(spec_chunk_bytes(c) =~= b.subrange(pos, next));
}

/// Chunks that were read stand at the place where they were read.
pub proof fn lemma_parse_chunks_bytes(b: Seq<u8>, pos: int, count: nat)
    requires
        0 <= pos <= b.len(),
        spec_parse_chunks(b, pos, count) is Some,
    ensures
        ({
            let (s, end) = spec_parse_chunks(b, pos, count).unwrap();
            &&& s.len() == count
            &&& forall|i: int| 0 <= i < s.len() ==> (#[trigger] s[i]).data.len() <= u32::MAX
            &&& pos <= end <= b.len()
            &&& spec_chunks_bytes(s) == b.subrange(pos, end)
        }),
    decreases count,
{
    let (s, end) = spec_parse_chunks(b, pos, count).unwrap();
    if count == 0 {
        assert(b.subrange(pos, end) =~= Seq::<u8>::empty());
    } else {
        let (c, next) = spec_parse_chunk(b, pos).unwrap();
        lemma_parse_chunk_bytes(b, pos);
        lemma_parse_chunks_bytes(b, next, (count - 1) as nat);
        let (rest, _) = spec_parse_chunks(b, next, (count - 1) as nat).unwrap();
        let one = seq![c];
        lemma_chunks_bytes_add(one, rest);
        lemma_chunks_bytes_one(c);
        assert(b.subrange(pos, end) =~= b.subrange(pos, next) + b.subrange(next, end));
    }
}

/// A record that was read is written down by the bytes it was read from.
pub proof fn lemma_serialize_deserialize(b: Seq<u8>)
    requires
        ChunkHolderView::spec_deserialize(b) is Some,
    ensures
        ({
            let (h, end) = ChunkHolderView::spec_deserialize(b).unwrap();
            &&& h.serializable()
            &&& 36 <= end <= b.len()
            &&& h.spec_serialize() == b.subrange(0, end)
        }),
{
    lemma_auto_spec_u32_to_from_le_bytes();
    let (h, end) = ChunkHolderView::spec_deserialize(b).unwrap();
    let count = spec_u32_from_le_bytes(b.subrange(32, 36));
    lemma_parse_chunks_bytes(b, 36, count as nat);
    assert(h.spec_serialize() =~= b.subrange(0, 32) + b.subrange(32, 36) + b.subrange(36, end));
    assert(b.subrange(0, 32) + b.subrange(32, 36) + b.subrange(36, end) =~= b.subrange(0, end));
}

/// The first chunks are together no longer than all of them.
pub proof fn lemma_total_len_grows(s: Seq<ChunkView>, n: int)
    requires
        0 <= n <= s.len(),
    ensures
        spec_total_len(s.take(n)) <= spec_total_len(s),
    decreases s.len() - n,
{
    if n < s.len() {
        lemma_total_len_grows(s, n + 1);
        assert(s.take(n + 1).drop_last() =~= s.take(n));
    } else {
        assert(s.take(n) =~= s);
    }
}

impl ChunkHolder {
    /// Bytes that a record without chunks takes behind its type tag: the owner
    /// and the number of chunks.
    pub const INIT_SPACE: usize = 36;

    /// The type tag that a record's storage starts with.
    pub const DISCRIMINATOR: u8 = 1;

    /// Puts the chunks in the order of their indices and returns the payload
    /// that they make up: their data by ascending index, chunks of one index
    /// in the order in which they arrived.
    pub fn join_chunks(&mut self) -> (res: Vec<u8>)
        ensures
            res@ == spec_join(old(self)@.chunks),
            res@ == spec_concat(final(self)@.chunks),
            res@.len() == spec_total_len(old(self)@.chunks),
            sorted_by_index(final(self)@.chunks),
            final(self)@.chunks.to_multiset() == old(self)@.chunks.to_multiset(),
            final(self)@.owner == old(self)@.owner,
    {
        sort_by_index(&mut self.chunks);
        let mut res: Vec<u8> = Vec::new();
        let n = self.chunks.len();
        let mut i: usize = 0;
        while i < n
            invariant
                i <= n,
                n == self.chunks@.len(),
                res@ == spec_concat(chunk_views(self.chunks@).take(i as int)),
            decreases n - i,
        {
            let ghost before = res@;
            res.extend_from_slice(self.chunks[i].data.as_slice());
            proof {
                let done = chunk_views(self.chunks@).take(i as int + 1);
                assert(done.drop_last() =~= chunk_views(self.chunks@).take(i as int));
                assert(res@ =~= before + done.last().data);
            }
            i += 1;
        }
        proof {
            assert(chunk_views(self.chunks@).take(n as int) =~= self@.chunks);
            lemma_sorted_join(self@.chunks);
            lemma_join_below_same(old(self)@.chunks, self@.chunks, 256);
            lemma_join_len(old(self)@.chunks);
        }
        res
    }

    /// The sum of the lengths of the data of all chunks, or `None` where it
    /// is more than a `usize` holds.
    pub fn data_len(&self) -> (r: Option<usize>)
        ensures
            r == if spec_total_len(self@.chunks) <= usize::MAX {
                Some(spec_total_len(self@.chunks) as usize)
            } else {
                None
            },
    {
        let n = self.chunks.len();
        let mut total: usize = 0;
        let mut i: usize = 0;
        while i < n
            invariant
                i <= n,
                n == self.chunks@.len(),
                total == spec_total_len(self@.chunks.take(i as int)),
            decreases n - i,
        {
            proof {
                let done = self@.chunks.take(i as int + 1);
                assert(done.drop_last() =~= self@.chunks.take(i as int));
                assert(done.last().data == self.chunks@[i as int].data@);
                lemma_total_len_grows(self@.chunks, i as int + 1);
            }
            match total.checked_add(self.chunks[i].data.len()) {
                Some(sum) => {
                    total = sum;
                },
                None => {
                    return None;
                },
            }
            i += 1;
        }
        assert(self@.chunks.take(n as int) =~= self@.chunks);
        Some(total)
    }

    /// Reads a record from storage. Storage that does not start with the type
    /// tag is refused with `AccountDiscriminatorMismatch` before anything else
    /// is read; bytes behind the tag that are no record are refused with
    /// `AccountDidNotDeserialize`.
    pub fn try_deserialize(data: &[u8]) -> (r: Result<ChunkHolder, ChunkLoaderError>)
        ensures
            match ChunkHolderView::spec_try_deserialize(data@) {
                Ok(h) => r matches Ok(x) && x@ == h,
                Err(e) => r matches Err(x) && x@ == e,
            },
    {
        if data.len() == 0 || data[0] != Self::DISCRIMINATOR {
            return Err(ChunkLoaderError::AccountDiscriminatorMismatch);
        }
        match Self::deserialize(slice_subrange(data, 1, data.len())) {
            Some(holder) => Ok(holder),
            None => Err(ChunkLoaderError::AccountDidNotDeserialize),
        }
    }

    /// The record's bytes behind the type tag, or `None` where a length does
    /// not fit its prefix.
    pub fn serialize(&self) -> (r: Option<Vec<u8>>)
        ensures
            r.is_some() == self@.serializable(),
            r matches Some(v) ==> v@ == self@.spec_serialize(),
    {
        let count = self.chunks.len();
        if count > u32::MAX as usize {
            return None;
        }
        let mut out: Vec<u8> = Vec::new();
        out.extend_from_slice(self.owner.as_slice());
        let prefix = u32_to_le_bytes(count as u32);
        out.extend_from_slice(prefix.as_slice());
        assert(out@ =~= self.owner@ + spec_u32_to_le_bytes(count as u32));
        let ghost head = out@;
        let mut i: usize = 0;
        while i < count
            invariant
                i <= count,
                count == self.chunks@.len(),
                count <= u32::MAX,
                self.owner@.len() == 32,
                out@ == head + spec_chunks_bytes(self@.chunks.take(i as int)),
                forall|j: int| 0 <= j < i ==> (#[trigger] self@.chunks[j]).data.len() <= u32::MAX,
            decreases count - i,
        {
            let chunk = &self.chunks[i];
            let n = chunk.data.len();
            if n > u32::MAX as usize {
                assert(self@.chunks[i as int].data.len() > u32::MAX);
                return None;
            }
            let ghost before = out@;
            out.push(chunk.index);
            let len_bytes = u32_to_le_bytes(n as u32);
            out.extend_from_slice(len_bytes.as_slice());
            out.extend_from_slice(chunk.data.as_slice());
            proof {
                let done = self@.chunks.take(i as int + 1);
                assert(done.drop_last() =~= self@.chunks.take(i as int));
                assert(done.last() == chunk@);
                assert(out@ =~= before + spec_chunk_bytes(chunk@));
                assert(out@ =~= head + spec_chunks_bytes(done));
            }
            i += 1;
        }
        assert(self@.chunks.take(count as int) =~= self@.chunks);
        Some(out)
    }

    /// Reads a record from the start of `bytes`, the type tag already taken
    /// off. Bytes behind the record are left alone.
    pub fn deserialize(bytes: &[u8]) -> (r: Option<ChunkHolder>)
        ensures
            match ChunkHolderView::spec_deserialize(bytes@) {
                Some((h, _)) => r matches Some(x) && x@ == h,
                None => r is None,
            },
    {
        if bytes.len() < 36 {
            return None;
        }
        let mut owner = [0u8; 32];
        let mut k: usize = 0;
        while k < 32
            invariant
                k <= 32,
                bytes@.len() >= 36,
                forall|j: int| 0 <= j < k ==> owner@[j] == bytes@[j],
            decreases 32 - k,
        {
            owner[k] = bytes[k];
            k += 1;
        }
        assert(owner@ =~= bytes@.subrange(0, 32));
        let count = u32_from_le_bytes(slice_subrange(bytes, 32, 36));
        let mut chunks: Vec<Chunk> = Vec::new();
        let mut pos: usize = 36;
        let mut i: u32 = 0;
        while i < count
            invariant
                i <= count,
                36 <= pos <= bytes@.len(),
                count == spec_u32_from_le_bytes(bytes@.subrange(32, 36)),
                spec_parse_chunks(bytes@, 36, count as nat) == spec_prepend(
                    chunk_views(chunks@),
                    spec_parse_chunks(bytes@, pos as int, (count - i) as nat),
                ),
            decreases count - i,
        {
            proof {
                lemma_parse_chunks_step(bytes@, chunk_views(chunks@), pos as int, (count - i) as nat);
            }
            if bytes.len() - pos < 5 {
                return None;
            }
            let index = bytes[pos];
            let n = u32_from_le_bytes(slice_subrange(bytes, pos + 1, pos + 5)) as usize;
            if bytes.len() - pos - 5 < n {
                return None;
            }
            let data = slice_to_vec(slice_subrange(bytes, pos + 5, pos + 5 + n));
            let ghost before = chunk_views(chunks@);
            let chunk = Chunk { index, data };
            chunks.push(chunk);
            assert(chunk_views(chunks@) =~= before.push(chunk@));
            pos = pos + 5 + n;
            i += 1;
        }
        assert(chunk_views(chunks@) + Seq::<ChunkView>::empty() =~= chunk_views(chunks@));
        Some(ChunkHolder { owner, chunks })
    }
}

} // verus!
