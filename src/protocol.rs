//! Transport framing: fixed-size, checksummed chunks for a small-MTU channel,
//! and a reassembler that accepts them in any order.

use vstd::bytes::*;
use vstd::prelude::*;
use vstd::slice::{slice_subrange, slice_to_vec};

use crate::encoding::{append_text, decimal_of, decimal_text, hex_encode, hex_text};

verus! {

/// Largest frame the channel carries after link-layer overhead.
pub const MAX_CHUNK_PAYLOAD: usize = 501;

/// Frame header: chunk index (u16 LE), total count (u16 LE), CRC-32 (u32 LE).
pub const CHUNK_HEADER_SIZE: usize = 8;

/// Largest number of data bytes in one chunk.
pub const MAX_CHUNK_DATA: usize = MAX_CHUNK_PAYLOAD - CHUNK_HEADER_SIZE;

/// Messages of the sync-control characteristic.
#[derive(Debug, Clone, Copy, PartialEq, Eq, Structural)]
pub enum SyncControl {
    StartSync,
    AckChunk,
    Abort,
    Complete,
}

impl SyncControl {
    /// The byte that stands for this message on the wire.
    pub open spec fn spec_byte(self) -> u8 {
        match self {
            SyncControl::StartSync => 1,
            SyncControl::AckChunk => 2,
            SyncControl::Abort => 3,
            SyncControl::Complete => 4,
        }
    }

    pub fn to_byte(self) -> (r: u8)
        ensures
            r == self.spec_byte(),
    {
        match self {
            SyncControl::StartSync => 1,
            SyncControl::AckChunk => 2,
            SyncControl::Abort => 3,
            SyncControl::Complete => 4,
        }
    }

    pub fn from_byte(b: u8) -> (r: Option<Self>)
        ensures
            r is Some <==> 1 <= b <= 4,
            r matches Some(c) ==> c.spec_byte() == b,
    {
        match b {
            1 => Some(SyncControl::StartSync),
            2 => Some(SyncControl::AckChunk),
            3 => Some(SyncControl::Abort),
            4 => Some(SyncControl::Complete),
            _ => None,
        }
    }
}


/// Transport-mode byte of the mode characteristic.
#[derive(Debug, Clone, Copy, PartialEq, Eq, Structural)]
pub enum SyncMode {
    /// This device sends its vault to the peer.
    Push,
    /// This device receives the peer's vault.
    Pull,
}

impl SyncMode {
    pub open spec fn spec_byte(self) -> u8 {
        match self {
            SyncMode::Push => 1,
            SyncMode::Pull => 2,
        }
    }

    pub fn to_byte(self) -> (r: u8)
        ensures
            r == self.spec_byte(),
    {
        match self {
            SyncMode::Push => 1,
            SyncMode::Pull => 2,
        }
    }

    pub fn from_byte(b: u8) -> (r: Option<Self>)
        ensures
            r is Some <==> 1 <= b <= 2,
            r matches Some(m) ==> m.spec_byte() == b,
    {
        match b {
            1 => Some(SyncMode::Push),
            2 => Some(SyncMode::Pull),
            _ => None,
        }
    }
}

/// Why a frame or a reassembly was refused.
#[derive(Debug, Clone, Copy, PartialEq, Eq, Structural)]
pub enum FrameError {
    /// Fewer bytes than a header.
    TooShort { len: usize },
    /// The checksum in the header does not match the data.
    ChecksumMismatch { index: u16, expected_crc: u32, computed_crc: u32 },
    /// The chunk belongs to a message with another chunk count.
    TotalMismatch { expected: u16, got: u16 },
    /// The chunk index is not below the chunk count.
    IndexOutOfRange { index: u16, total: u16 },
    /// Reassembly was asked for before every chunk arrived.
    Incomplete { received: u16, total: u16 },
}

impl FrameError {
    /// The user-facing text of the error.
    pub fn message(&self) -> (r: String)
        ensures
            *self matches FrameError::TooShort { .. } ==> r@ == "Chunk too small"@,
            *self matches FrameError::ChecksumMismatch { index, expected_crc, computed_crc } ==> r@
                == "CRC32 mismatch on chunk "@ + decimal_of(index as nat) + ": expected "@
                + hex_text(be32(expected_crc)) + ", got "@ + hex_text(be32(computed_crc)),
            *self matches FrameError::TotalMismatch { expected, got } ==> r@
                == "Chunk total mismatch: expected "@ + decimal_of(expected as nat) + ", got "@
                + decimal_of(got as nat),
            *self matches FrameError::IndexOutOfRange { index, total } ==> r@ == "Chunk index "@
                + decimal_of(index as nat) + " out of range (total "@ + decimal_of(total as nat)
                + ")"@,
            *self matches FrameError::Incomplete { received, total } ==> r@
                == "Cannot reassemble: only "@ + decimal_of(received as nat) + "/"@ + decimal_of(
                total as nat,
            ) + " chunks received"@,
    {
        match self {
            FrameError::TooShort { .. } => "Chunk too small".to_owned(),
            FrameError::ChecksumMismatch { index, expected_crc, computed_crc } => {
                let s = append_text("CRC32 mismatch on chunk ".to_owned(), decimal_text(*index as u64).as_str());
                let s = append_text(s, ": expected ");
                let s = append_text(s, hex32(*expected_crc).as_str());
                let s = append_text(s, ", got ");
                append_text(s, hex32(*computed_crc).as_str())
            },
            FrameError::TotalMismatch { expected, got } => {
                let s = append_text("Chunk total mismatch: expected ".to_owned(), decimal_text(*expected as u64).as_str());
                let s = append_text(s, ", got ");
                append_text(s, decimal_text(*got as u64).as_str())
            },
            FrameError::IndexOutOfRange { index, total } => {
                let s = append_text("Chunk index ".to_owned(), decimal_text(*index as u64).as_str());
                let s = append_text(s, " out of range (total ");
                let s = append_text(s, decimal_text(*total as u64).as_str());
                append_text(s, ")")
            },
            FrameError::Incomplete { received, total } => {
                let s = append_text("Cannot reassemble: only ".to_owned(), decimal_text(*received as u64).as_str());
                let s = append_text(s, "/");
                let s = append_text(s, decimal_text(*total as u64).as_str());
                append_text(s, " chunks received")
            },
        }
    }
}

/// The four bytes of `x`, most significant first.
pub open spec fn be32(x: u32) -> Seq<u8> {
    seq![(x / 16777216) as u8, ((x / 65536) % 256) as u8, ((x / 256) % 256) as u8, (x % 256) as u8]
}

/// `x` as eight lower-case hexadecimal digits.
fn hex32(x: u32) -> (r: String)
    ensures
        r@ == hex_text(be32(x)),
{
    let b = vec![(x / 16777216) as u8, ((x / 65536) % 256) as u8, ((x / 256) % 256) as u8, (x % 256) as u8];
    assert(b@ == be32(x));
    hex_encode(b.as_slice())
}

/// The CRC-32 (IEEE) checksum of a byte sequence.
pub uninterp spec fn crc32_of(data: Seq<u8>) -> u32;

/// Relies on crc32fast::Hasher: `finalize` returns the CRC-32 (IEEE) of the
/// bytes given to `update`, which depends on those bytes alone.
#[verifier::external_body]
fn crc32(data: &[u8]) -> (r: u32)
    ensures
        r == crc32_of(data@),
{
    let mut hasher = crc32fast::Hasher::new();
    hasher.update(data);
    hasher.finalize()
}

/// One frame of a chunked message.
#[derive(Debug, Clone)]
pub struct Chunk {
    pub index: u16,
    pub total: u16,
    pub crc32: u32,
    pub data: Vec<u8>,
}

/// The eight header bytes of a frame.
pub open spec fn frame_header(index: u16, total: u16, crc: u32) -> Seq<u8> {
    spec_u16_to_le_bytes(index) + spec_u16_to_le_bytes(total) + spec_u32_to_le_bytes(crc)
}

/// Header fields and data read back from the bytes of a frame.
pub open spec fn wire_index(b: Seq<u8>) -> u16 {
    spec_u16_from_le_bytes(b.subrange(0, 2))
}

pub open spec fn wire_total(b: Seq<u8>) -> u16 {
    spec_u16_from_le_bytes(b.subrange(2, 4))
}

pub open spec fn wire_crc(b: Seq<u8>) -> u32 {
    spec_u32_from_le_bytes(b.subrange(4, 8))
}

pub open spec fn wire_data(b: Seq<u8>) -> Seq<u8> {
    b.subrange(8, b.len() as int)
}

/// What `Chunk::from_bytes` makes of a byte sequence.
pub open spec fn frame_accepted(b: Seq<u8>) -> bool {
    b.len() >= CHUNK_HEADER_SIZE && crc32_of(wire_data(b)) == wire_crc(b)
}

impl Chunk {
    /// The bytes of this frame on the wire.
    pub open spec fn wire(&self) -> Seq<u8> {
        frame_header(self.index, self.total, self.crc32) + self.data@
    }

    /// The checksum in the header is that of the data.
    pub open spec fn is_sealed(&self) -> bool {
        self.crc32 == crc32_of(self.data@)
    }

    /// Serialise: index (LE), total (LE), CRC-32 (LE), then the data.
    pub fn to_bytes(&self) -> (r: Vec<u8>)
        ensures
            r@ == self.wire(),
    {
        let mut buf = u16_to_le_bytes(self.index);
        let mut total = u16_to_le_bytes(self.total);
        buf.append(&mut total);
        let mut crc = u32_to_le_bytes(self.crc32);
        buf.append(&mut crc);
        let mut data = slice_to_vec(self.data.as_slice());
        buf.append(&mut data);
        buf
    }

    /// Parse a frame and check its data against the header's checksum.
    pub fn from_bytes(bytes: &[u8]) -> (r: Result<Chunk, FrameError>)
        ensures
            bytes@.len() < CHUNK_HEADER_SIZE ==> r == Err::<Chunk, FrameError>(
                FrameError::TooShort { len: bytes@.len() as usize },
            ),
            bytes@.len() >= CHUNK_HEADER_SIZE && !frame_accepted(bytes@) ==> r
                == Err::<Chunk, FrameError>(
                FrameError::ChecksumMismatch {
                    index: wire_index(bytes@),
                    expected_crc: wire_crc(bytes@),
                    computed_crc: crc32_of(wire_data(bytes@)),
                },
            ),
            frame_accepted(bytes@) ==> (r matches Ok(c) && c.index == wire_index(bytes@) && c.total
                == wire_total(bytes@) && c.crc32 == wire_crc(bytes@) && c.data@ == wire_data(bytes@)),
    {
        if bytes.len() < CHUNK_HEADER_SIZE {
            return Err(FrameError::TooShort { len: bytes.len() });
        }
        let index = u16_from_le_bytes(slice_subrange(bytes, 0, 2));
        let total = u16_from_le_bytes(slice_subrange(bytes, 2, 4));
        let crc = u32_from_le_bytes(slice_subrange(bytes, 4, 8));
        let data = slice_to_vec(slice_subrange(bytes, CHUNK_HEADER_SIZE, bytes.len()));
        let computed = crc32(data.as_slice());
        if computed != crc {
            return Err(FrameError::ChecksumMismatch { index, expected_crc: crc, computed_crc: computed });
        }
        Ok(Chunk { index, total, crc32: crc, data })
    }
}

/// Reading back the bytes of a frame gives its fields again.
pub proof fn lemma_frame_round_trip(c: Chunk)
    ensures
        c.wire().len() == CHUNK_HEADER_SIZE + c.data@.len(),
        wire_index(c.wire()) == c.index,
        wire_total(c.wire()) == c.total,
        wire_crc(c.wire()) == c.crc32,
        wire_data(c.wire()) == c.data@,
        frame_accepted(c.wire()) == c.is_sealed(),
{
    lemma_auto_spec_u16_to_from_le_bytes();
    lemma_auto_spec_u32_to_from_le_bytes();
    let w = c.wire();
    assert(w.subrange(0, 2) == spec_u16_to_le_bytes(c.index));
    assert(w.subrange(2, 4) == spec_u16_to_le_bytes(c.total));
    assert(w.subrange(4, 8) == spec_u32_to_le_bytes(c.crc32));
    assert(wire_data(w) == c.data@);
}


/// Corruption is caught by the checksum: when the header of a sealed
/// chunk's frame is kept and its data replaced by bytes of another
/// checksum, the frame is refused, and the refusal names the chunk's index.
pub proof fn lemma_corrupted_data_rejected(c: Chunk, bytes: Seq<u8>)
    requires
        c.is_sealed(),
        bytes.len() == c.wire().len(),
        bytes.subrange(0, 8) == c.wire().subrange(0, 8),
        crc32_of(wire_data(bytes)) != crc32_of(c.data@),
    ensures
        bytes.len() >= CHUNK_HEADER_SIZE,
        !frame_accepted(bytes),
        wire_index(bytes) == c.index,
        wire_crc(bytes) == c.crc32,
{
    lemma_frame_round_trip(c);
    assert(bytes.subrange(0, 2) == bytes.subrange(0, 8).subrange(0, 2));
    assert(c.wire().subrange(0, 2) == c.wire().subrange(0, 8).subrange(0, 2));
    assert(bytes.subrange(4, 8) == bytes.subrange(0, 8).subrange(4, 8));
    assert(c.wire().subrange(4, 8) == c.wire().subrange(0, 8).subrange(4, 8));
}

/// Number of chunks a payload of `len` bytes is cut into.
pub open spec fn chunk_count(len: nat) -> nat {
    ((len + MAX_CHUNK_DATA - 1) as int / (MAX_CHUNK_DATA as int)) as nat
}

/// The data of chunk `i` of a payload: bytes `i*MAX_CHUNK_DATA` up to the
/// next boundary or the end.
pub open spec fn piece(payload: Seq<u8>, i: int) -> Seq<u8> {
    let start = i * MAX_CHUNK_DATA;
    let end = if start + MAX_CHUNK_DATA <= payload.len() {
        start + MAX_CHUNK_DATA
    } else {
        payload.len() as int
    };
    payload.subrange(start, end)
}

/// Largest payload whose chunk indices fit the 16-bit header fields.
pub open spec fn max_payload_len() -> nat {
    (65535 * MAX_CHUNK_DATA) as nat
}

proof fn lemma_chunk_count(len: nat, i: int)
    requires
        0 <= i,
    ensures
        i < chunk_count(len) <==> i * MAX_CHUNK_DATA < len,
        len <= max_payload_len() ==> chunk_count(len) <= 65535,
{
    let n = chunk_count(len) as int;
    vstd::arithmetic::div_mod::lemma_fundamental_div_mod(len + 492int, 493);
    vstd::arithmetic::div_mod::lemma_mod_bound(len + 492int, 493);
    if i < n {
        assert(i * 493 <= (n - 1) * 493) by (nonlinear_arith)
            requires
                i <= n - 1,
        ;
    } else {
        assert(i * 493 >= n * 493) by (nonlinear_arith)
            requires
                i >= n,
        ;
    }
}

/// Split a payload into chunks of at most `MAX_CHUNK_DATA` bytes, each with
/// its index, the chunk count and the checksum of its data.
pub fn chunk_data(data: &[u8]) -> (r: Vec<Chunk>)
    requires
        data@.len() <= max_payload_len(),
    ensures
        r@.len() == chunk_count(data@.len()),
        forall|i: int|
            0 <= i < r@.len() ==> {
                &&& (#[trigger] r@[i]).index == i
                &&& r@[i].total == r@.len()
                &&& r@[i].data@ == piece(data@, i)
                &&& r@[i].crc32 == crc32_of(piece(data@, i))
            },
{
    let n: usize = (data.len() + MAX_CHUNK_DATA - 1) / MAX_CHUNK_DATA;
    proof {
        lemma_chunk_count(data@.len(), 0);
    }
    let total: u16 = n as u16;
    let mut out: Vec<Chunk> = Vec::new();
    let mut i: usize = 0;
    while i < n
        invariant
            n == chunk_count(data@.len()),
            n <= 65535,
            total == n,
            i <= n,
            out@.len() == i,
            forall|k: int|
                0 <= k < i ==> {
                    &&& (#[trigger] out@[k]).index == k
                    &&& out@[k].total == n
                    &&& out@[k].data@ == piece(data@, k)
                    &&& out@[k].crc32 == crc32_of(piece(data@, k))
                },
        decreases n - i,
    {
        proof {
            lemma_chunk_count(data@.len(), i as int);
        }
        let start: usize = i * MAX_CHUNK_DATA;
        let end: usize = if data.len() - start > MAX_CHUNK_DATA {
            start + MAX_CHUNK_DATA
        } else {
            data.len()
        };
        let bytes = slice_to_vec(slice_subrange(data, start, end));
        let crc = crc32(bytes.as_slice());
        out.push(Chunk { index: i as u16, total, crc32: crc, data: bytes });
        i = i + 1;
    }
    out
}


/// Number of filled slots.
pub open spec fn count_filled(slots: Seq<Option<Seq<u8>>>) -> nat
    decreases slots.len(),
{
    if slots.len() == 0 {
        0
    } else {
        count_filled(slots.drop_last()) + if slots.last() is Some {
            1nat
        } else {
            0nat
        }
    }
}

/// Every slot is filled.
pub open spec fn all_filled(slots: Seq<Option<Seq<u8>>>) -> bool {
    forall|i: int| 0 <= i < slots.len() ==> (#[trigger] slots[i]) is Some
}

/// The data of the filled slots, in index order.
pub open spec fn join_slots(slots: Seq<Option<Seq<u8>>>) -> Seq<u8>
    decreases slots.len(),
{
    if slots.len() == 0 {
        Seq::empty()
    } else {
        join_slots(slots.drop_last()) + match slots.last() {
            Some(d) => d,
            None => Seq::empty(),
        }
    }
}

proof fn lemma_count_filled_bound(slots: Seq<Option<Seq<u8>>>)
    ensures
        count_filled(slots) <= slots.len(),
        count_filled(slots) == slots.len() <==> all_filled(slots),
    decreases slots.len(),
{
    if slots.len() > 0 {
        lemma_count_filled_bound(slots.drop_last());
        if all_filled(slots) {
            assert(all_filled(slots.drop_last()));
        }
        if all_filled(slots.drop_last()) && slots.last() is Some {
            assert forall|i: int| 0 <= i < slots.len() implies (#[trigger] slots[i]) is Some by {
                if i < slots.len() - 1 {
                    assert(slots.drop_last()[i] == slots[i]);
                }
            }
        }
    }
}

proof fn lemma_count_filled_update(slots: Seq<Option<Seq<u8>>>, i: int, d: Seq<u8>)
    requires
        0 <= i < slots.len(),
    ensures
        count_filled(slots.update(i, Some(d))) == count_filled(slots) + if slots[i] is None {
            1nat
        } else {
            0nat
        },
    decreases slots.len(),
{
    let u = slots.update(i, Some(d));
    if i == slots.len() - 1 {
        assert(u.drop_last() == slots.drop_last());
    } else {
        assert(u.drop_last() == slots.drop_last().update(i, Some(d)));
        lemma_count_filled_update(slots.drop_last(), i, d);
    }
}

/// `n` slots, none filled.
pub open spec fn empty_slots(n: nat) -> Seq<Option<Seq<u8>>> {
    Seq::new(n, |i: int| None::<Seq<u8>>)
}

proof fn lemma_count_filled_empty(n: nat)
    ensures
        count_filled(empty_slots(n)) == 0,
    decreases n,
{
    if n > 0 {
        let s = empty_slots(n);
        assert(s.drop_last() == empty_slots((n - 1) as nat));
        lemma_count_filled_empty((n - 1) as nat);
    }
}

spec fn slot_view(o: Option<Vec<u8>>) -> Option<Seq<u8>> {
    match o {
        Some(v) => Some(v@),
        None => None,
    }
}

/// Collects the chunks of one message, in any order, until all have come.
pub struct ChunkReassembler {
    total: u16,
    received: Vec<Option<Vec<u8>>>,
    received_count: u16,
}

impl ChunkReassembler {
    /// The chunk count that this reassembler expects.
    pub closed spec fn expected_total(&self) -> u16 {
        self.total
    }

    /// The data received for each index so far.
    pub closed spec fn slots(&self) -> Seq<Option<Seq<u8>>> {
        Seq::new(self.received@.len(), |i: int| slot_view(self.received@[i]))
    }

    pub closed spec fn wf(&self) -> bool {
        &&& self.received@.len() == self.total
        &&& self.received_count == count_filled(self.slots())
    }

    /// A well-formed reassembler has one slot per expected chunk.
    pub proof fn lemma_slot_count(&self)
        requires
            self.wf(),
        ensures
            self.slots().len() == self.expected_total(),
            count_filled(self.slots()) <= self.expected_total(),
    {
        lemma_count_filled_bound(self.slots());
    }

    /// Create a reassembler expecting `total` chunks, none received yet.
    pub fn new(total: u16) -> (r: Self)
        ensures
            r.wf(),
            r.expected_total() == total,
            r.slots() == empty_slots(total as nat),
    {
        let mut received: Vec<Option<Vec<u8>>> = Vec::new();
        let mut i: u16 = 0;
        while i < total
            invariant
                i <= total,
                received@.len() == i,
                forall|k: int| 0 <= k < i ==> (#[trigger] received@[k]) is None,
            decreases total - i,
        {
            received.push(None);
            i = i + 1;
        }
        let r = ChunkReassembler { total, received, received_count: 0 };
        proof {
            assert(r.slots() == empty_slots(total as nat));
            lemma_count_filled_empty(total as nat);
        }
        r
    }

    /// Store a chunk. Re-adding an index replaces its data and is not counted
    /// twice. Returns whether every index is now filled.
    pub fn add_chunk(&mut self, chunk: Chunk) -> (r: Result<bool, FrameError>)
        requires
            old(self).wf(),
        ensures
            final(self).wf(),
            final(self).expected_total() == old(self).expected_total(),
            old(self).slots().len() == old(self).expected_total(),
            final(self).slots().len() == final(self).expected_total(),
            chunk.total != old(self).expected_total() ==> r == Err::<bool, FrameError>(
                FrameError::TotalMismatch { expected: old(self).expected_total(), got: chunk.total },
            ) && final(self).slots() == old(self).slots(),
            chunk.total == old(self).expected_total() && chunk.index >= chunk.total ==> r == Err::<
                bool,
                FrameError,
            >(FrameError::IndexOutOfRange { index: chunk.index, total: chunk.total })
                && final(self).slots() == old(self).slots(),
            chunk.total == old(self).expected_total() && chunk.index < chunk.total ==> {
                &&& final(self).slots() == old(self).slots().update(
                    chunk.index as int,
                    Some(chunk.data@),
                )
                &&& r == Ok::<bool, FrameError>(all_filled(final(self).slots()))
            },
    {
        if chunk.total != self.total {
            return Err(FrameError::TotalMismatch { expected: self.total, got: chunk.total });
        }
        if chunk.index >= self.total {
            return Err(FrameError::IndexOutOfRange { index: chunk.index, total: self.total });
        }
        let idx = chunk.index as usize;
        let ghost before = self.slots();
        let was_empty = self.received[idx].is_none();
        proof {
            lemma_count_filled_bound(before);
            lemma_count_filled_update(before, idx as int, chunk.data@);
            if was_empty {
                assert(!all_filled(before));
            }
        }
        if was_empty {
            self.received_count = self.received_count + 1;
        }
        self.received.set(idx, Some(chunk.data));
        proof {
            assert(self.slots() == before.update(idx as int, Some(chunk.data@)));
            lemma_count_filled_bound(self.slots());
        }
        Ok(self.received_count == self.total)
    }

    /// Whether every index has been filled.
    pub fn is_complete(&self) -> (r: bool)
        requires
            self.wf(),
        ensures
            r == all_filled(self.slots()),
            self.slots().len() == self.expected_total(),
    {
        proof {
            lemma_count_filled_bound(self.slots());
        }
        self.received_count == self.total
    }

    /// `(received, total)`: the number of distinct indices filled so far and
    /// the expected chunk count.
    pub fn progress(&self) -> (r: (u16, u16))
        requires
            self.wf(),
        ensures
            r.0 == count_filled(self.slots()),
            r.1 == self.expected_total(),
            self.slots().len() == self.expected_total(),
            r.0 <= r.1,
            r.0 == r.1 <==> all_filled(self.slots()),
    {
        proof {
            lemma_count_filled_bound(self.slots());
        }
        (self.received_count, self.total)
    }

    /// Concatenate the chunks' data in index order; fails while any index is
    /// missing.
    pub fn reassemble(self) -> (r: Result<Vec<u8>, FrameError>)
        requires
            self.wf(),
        ensures
            self.slots().len() == self.expected_total(),
            all_filled(self.slots()) ==> (r matches Ok(v) && v@ == join_slots(self.slots())),
            !all_filled(self.slots()) ==> r == Err::<Vec<u8>, FrameError>(
                FrameError::Incomplete {
                    received: count_filled(self.slots()) as u16,
                    total: self.expected_total(),
                },
            ),
    {
        proof {
            lemma_count_filled_bound(self.slots());
        }
        if self.received_count != self.total {
            return Err(
                FrameError::Incomplete { received: self.received_count, total: self.total },
            );
        }
        let ghost slots = self.slots();
        let mut data: Vec<u8> = Vec::new();
        let mut i: usize = 0;
        while i < self.received.len()
            invariant
                slots == self.slots(),
                all_filled(slots),
                i <= self.received@.len(),
                data@ == join_slots(slots.take(i as int)),
            decreases self.received@.len() - i,
        {
            assert(slots[i as int] is Some);
            if let Some(d) = &self.received[i] {
                let mut part = slice_to_vec(d.as_slice());
                data.append(&mut part);
            }
            assert(slots.take(i as int + 1).drop_last() == slots.take(i as int));
            i = i + 1;
        }
        assert(slots.take(slots.len() as int) == slots);
        Ok(data)
    }
}


/// The slots of a reassembler after the chunks of `payload` arrived with
/// the indices in `order`, one after another.
pub open spec fn deliver(
    slots: Seq<Option<Seq<u8>>>,
    payload: Seq<u8>,
    order: Seq<int>,
) -> Seq<Option<Seq<u8>>>
    decreases order.len(),
{
    if order.len() == 0 {
        slots
    } else {
        deliver(slots, payload, order.drop_last()).update(
            order.last(),
            Some(piece(payload, order.last())),
        )
    }
}

/// Index `i` is among those in `order`.
pub open spec fn arrives(order: Seq<int>, i: int) -> bool {
    exists|k: int| 0 <= k < order.len() && order[k] == i
}

proof fn lemma_deliver_slots(n: nat, payload: Seq<u8>, order: Seq<int>)
    requires
        forall|k: int| 0 <= k < order.len() ==> 0 <= #[trigger] order[k] < n,
    ensures
        deliver(empty_slots(n), payload, order).len() == n,
        forall|i: int|
            0 <= i < n ==> {
                let s = #[trigger] deliver(empty_slots(n), payload, order)[i];
                &&& s is Some ==> s == Some(piece(payload, i))
                &&& arrives(order, i) ==> s is Some
            },
    decreases order.len(),
{
    if order.len() > 0 {
        let rest = order.drop_last();
        assert forall|k: int| 0 <= k < rest.len() implies 0 <= #[trigger] rest[k] < n by {
            assert(rest[k] == order[k]);
        }
        lemma_deliver_slots(n, payload, rest);
        assert forall|i: int| 0 <= i < n implies {
            let s = #[trigger] deliver(empty_slots(n), payload, order)[i];
            &&& s is Some ==> s == Some(piece(payload, i))
            &&& arrives(order, i) ==> s is Some
        } by {
            if i != order.last() {
                if arrives(order, i) {
                    let k = choose|k: int| 0 <= k < order.len() && order[k] == i;
                    assert(k < rest.len());
                    assert(rest[k] == i);
                    assert(arrives(rest, i));
                }
            }
        }
    }
}

proof fn lemma_join_pieces(payload: Seq<u8>, k: nat)
    requires
        k <= chunk_count(payload.len()),
    ensures
        join_slots(Seq::new(k, |i: int| Some(piece(payload, i)))) == payload.take(
            if k * MAX_CHUNK_DATA <= payload.len() {
                k * MAX_CHUNK_DATA
            } else {
                payload.len() as int
            },
        ),
    decreases k,
{
    let s = Seq::new(k, |i: int| Some(piece(payload, i)));
    if k == 0 {
        assert(payload.take(0) == Seq::<u8>::empty());
    } else {
        assert(s.drop_last() == Seq::new((k - 1) as nat, |i: int| Some(piece(payload, i))));
        lemma_join_pieces(payload, (k - 1) as nat);
        lemma_chunk_count(payload.len(), k - 1);
        let a = (k - 1) * MAX_CHUNK_DATA;
        let b = if k * MAX_CHUNK_DATA <= payload.len() {
            k * MAX_CHUNK_DATA
        } else {
            payload.len() as int
        };
        assert(payload.take(a) + payload.subrange(a, b) == payload.take(b));
    }
}

/// Chunking round trip in any order: when the chunks of a payload reach a
/// fresh reassembler in any order, repeats allowed, and every index arrives
/// at least once, all slots are filled and their data, joined in index
/// order, is the payload.
pub proof fn lemma_reassembly_any_order(payload: Seq<u8>, order: Seq<int>)
    requires
        payload.len() <= max_payload_len(),
        forall|k: int| 0 <= k < order.len() ==> 0 <= #[trigger] order[k] < chunk_count(
            payload.len(),
        ),
        forall|i: int| 0 <= i < chunk_count(payload.len()) ==> #[trigger] arrives(order, i),
    ensures
        all_filled(
            deliver(empty_slots(chunk_count(payload.len())), payload, order),
        ),
        join_slots(
            deliver(empty_slots(chunk_count(payload.len())), payload, order),
        ) == payload,
{
    let n = chunk_count(payload.len());
    lemma_deliver_slots(n, payload, order);
    let d = deliver(empty_slots(n), payload, order);
    assert forall|i: int| 0 <= i < d.len() implies (#[trigger] d[i]) is Some by {
        assert(arrives(order, i));
    }
    assert(d == Seq::new(n, |i: int| Some(piece(payload, i))));
    lemma_join_pieces(payload, n);
    lemma_chunk_count(payload.len(), n as int);
    assert(payload.take(payload.len() as int) == payload);
}

} // verus!
