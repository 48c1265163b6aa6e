//! The producer side of the record ring, as the memory-reader kernel module
//! runs it: session setup, target slots, and publishing records with padding
//! or an implicit wrap where a record does not fit before the end of the ring.
use vstd::prelude::*;

use crate::ring_reader::{header_at, payload_at, ranges_at, spec_locate_next_record, spec_walk};
use crate::uapi::{
    record_total_len, spec_record_total_len, MemReaderRangeResult, MemReaderRecordHeader,
    MemReaderRingLayout, RemoveTargetRequest, SubmitReadRequest, TargetSelector,
    UpsertTargetRequest, LAYOUT_HEADER_BYTES, MEMREADER_MAX_PAYLOAD_BYTES,
    MEMREADER_MAX_RANGES_PER_JOB, MEMREADER_MAX_TARGETS, MEMREADER_RECORD_KIND_DATA,
    MEMREADER_RECORD_KIND_PADDING, MEMREADER_UAPI_VERSION, RANGE_RESULT_BYTES,
    RECORD_HEADER_BYTES,
};
use crate::wire::{
    lemma_peel, lemma_write_inside, lemma_write_outside, seq_write, write_bytes_at, zero_bytes_at,
    zeros,
};

verus! {

/// One target slot of a session.
#[derive(Clone, Copy, Debug, Default)]
pub struct ThubTargetSlot {
    pub in_use: u8,
    pub reserved: [u8; 7],
    pub selector: TargetSelector,
}

/// A reader session: the shared mapping (layout header followed by the ring
/// bytes), the target slots and the producer's copy of the ring counters.
#[derive(Debug)]
pub struct ThubSession {
    pub mapping: Vec<u8>,
    pub slots: [ThubTargetSlot; MEMREADER_MAX_TARGETS],
    pub ring_capacity_bytes: usize,
    pub producer_head: u64,
    pub consumer_tail: u64,
    pub dropped_records: u64,
    pub next_seq: u64,
}

/// The error code of an invalid argument.
pub const EINVAL_RETURN: i32 = -22;

impl ThubSession {
    /// The mapping holds the layout header and the whole ring, the ring size
    /// fits the layout's 32-bit field, and head and tail lie inside the ring.
    pub open spec fn ring_wf(self) -> bool {
        &&& LAYOUT_HEADER_BYTES + self.ring_capacity_bytes <= self.mapping@.len()
        &&& self.ring_capacity_bytes <= u32::MAX
        &&& self.ring_capacity_bytes == 0 ==> self.producer_head == 0 && self.consumer_tail == 0
        &&& self.ring_capacity_bytes > 0 ==> self.producer_head < self.ring_capacity_bytes
            && self.consumer_tail < self.ring_capacity_bytes
        &&& self.layout_in_sync()
    }

    /// The layout header announces the producer's ring size, head and tail.
    pub open spec fn layout_in_sync(self) -> bool {
        let l = MemReaderRingLayout::spec_decode(self.mapping@, 0);
        &&& l.capacity_bytes == self.ring_capacity_bytes as u32
        &&& l.producer_head == self.producer_head
        &&& l.consumer_tail == self.consumer_tail
    }
}

/// The layout header after the producer copies its counters into it.
pub open spec fn synced_layout(
    m: Seq<u8>,
    cap: int,
    head: u64,
    tail: u64,
    dropped: u64,
    seq: u64,
) -> MemReaderRingLayout {
    let l = MemReaderRingLayout::spec_decode(m, 0);
    MemReaderRingLayout {
        uapi_version: l.uapi_version,
        header_bytes: l.header_bytes,
        capacity_bytes: cap as u32,
        reserved0: l.reserved0,
        producer_head: head,
        consumer_tail: tail,
        dropped_records: dropped,
        next_seq: seq,
        reserved1: l.reserved1,
    }
}

/// The mapping after the producer copies its counters into the layout header.
pub open spec fn spec_synced(
    m: Seq<u8>,
    cap: int,
    head: u64,
    tail: u64,
    dropped: u64,
    seq: u64,
) -> Seq<u8> {
    seq_write(m, 0, synced_layout(m, cap, head, tail, dropped, seq).spec_encode())
}

/// Copies the producer's counters into the layout header of the mapping.
fn sync_ring_layout(session: &mut ThubSession)
    requires
        old(session).mapping@.len() >= LAYOUT_HEADER_BYTES,
    ensures
        final(session).mapping@ == spec_synced(
            old(session).mapping@,
            old(session).ring_capacity_bytes as int,
            old(session).producer_head,
            old(session).consumer_tail,
            old(session).dropped_records,
            old(session).next_seq,
        ),
        MemReaderRingLayout::spec_decode(final(session).mapping@, 0) == synced_layout(
            old(session).mapping@,
            old(session).ring_capacity_bytes as int,
            old(session).producer_head,
            old(session).consumer_tail,
            old(session).dropped_records,
            old(session).next_seq,
        ),
        final(session).mapping@.len() == old(session).mapping@.len(),
        final(session).slots == old(session).slots,
        final(session).ring_capacity_bytes == old(session).ring_capacity_bytes,
        final(session).producer_head == old(session).producer_head,
        final(session).consumer_tail == old(session).consumer_tail,
        final(session).dropped_records == old(session).dropped_records,
        final(session).next_seq == old(session).next_seq,
{
    let l = MemReaderRingLayout::decode(session.mapping.as_slice(), 0);
    let synced = MemReaderRingLayout {
        uapi_version: l.uapi_version,
        header_bytes: l.header_bytes,
        capacity_bytes: session.ring_capacity_bytes as u32,
        reserved0: l.reserved0,
        producer_head: session.producer_head,
        consumer_tail: session.consumer_tail,
        dropped_records: session.dropped_records,
        next_seq: session.next_seq,
        reserved1: l.reserved1,
    };
    let bytes = synced.encode();
    write_bytes_at(&mut session.mapping, 0, bytes.as_slice());
    proof {
        lemma_write_inside(old(session).mapping@, 0, bytes@);
        synced.lemma_roundtrip(session.mapping@, 0);
    }
}

/// A padding record header of `len` bytes.
pub open spec fn padding_header(len: u32) -> MemReaderRecordHeader {
    MemReaderRecordHeader {
        total_len: len,
        kind: MEMREADER_RECORD_KIND_PADDING,
        seq: 0,
        timestamp_ns: 0,
        cookie: 0,
        target_slot: 0,
        status: 0,
        range_count: 0,
        reserved0: 0,
        payload_bytes: 0,
        reserved1: 0,
    }
}

/// `x + 1`, wrapping to zero past the largest `u64`.
pub open spec fn wrapping_inc(x: u64) -> u64 {
    if x == u64::MAX {
        0
    } else {
        (x + 1) as u64
    }
}

/// Free ring bytes between the producer head and the consumer tail.
pub open spec fn spec_free(cap: int, head: int, tail: int) -> int {
    if head >= tail {
        if cap >= head - tail {
            cap - (head - tail)
        } else {
            0
        }
    } else {
        tail - head
    }
}

/// Ring bytes lost at the end when a record of `total` bytes does not fit
/// before it.
pub open spec fn spec_wrap_overhead(cap: int, head: int, total: int) -> int {
    if head + total > cap {
        if cap >= head {
            cap - head
        } else {
            0
        }
    } else {
        0
    }
}

/// A record of `total` bytes is accepted: it, the bytes lost at the end and
/// eight spare bytes fit in the free space.
pub open spec fn spec_push_fits(cap: int, head: int, tail: int, total: int) -> bool {
    total + spec_wrap_overhead(cap, head, total) + 8 <= spec_free(cap, head, tail)
}

/// Where a record of `total` bytes starts: at the head, or at the start of the
/// ring when it does not fit before the end.
pub open spec fn spec_record_start(cap: int, head: int, total: int) -> int {
    if head + total > cap {
        0
    } else {
        head
    }
}

/// The encodings of a sequence of range results, one after the other.
pub open spec fn ranges_image(rs: Seq<MemReaderRangeResult>) -> Seq<u8>
    decreases rs.len(),
{
    if rs.len() == 0 {
        Seq::empty()
    } else {
        ranges_image(rs.drop_last()) + rs.last().spec_encode()
    }
}

/// The bytes a data record puts into the ring: its header, its range results
/// and its payload.
pub open spec fn record_image(
    h: MemReaderRecordHeader,
    ranges: Seq<MemReaderRangeResult>,
    payload: Seq<u8>,
) -> Seq<u8> {
    h.spec_encode() + ranges_image(ranges.take(h.range_count as int)) + payload.take(
        h.payload_bytes as int,
    )
}

/// The mapping once the end of the ring has been closed off for a record of
/// `total` bytes: with a padding record when a record header fits there,
/// with zero bytes otherwise; the head then moves to the start of the ring.
pub open spec fn spec_wrapped_mapping(
    m: Seq<u8>,
    cap: int,
    head: int,
    tail: u64,
    dropped: u64,
    seq: u64,
    total: int,
) -> Seq<u8> {
    if head + total > cap {
        let rem = cap - head;
        if rem >= RECORD_HEADER_BYTES {
            spec_synced(
                seq_write(m, LAYOUT_HEADER_BYTES + head, padding_header(rem as u32).spec_encode()),
                cap,
                0,
                tail,
                dropped,
                seq,
            )
        } else {
            spec_synced(seq_write(m, LAYOUT_HEADER_BYTES + head, zeros(rem)), cap, 0, tail, dropped, seq)
        }
    } else {
        m
    }
}

/// The mapping after a record with header `h` has been pushed, or after it
/// has been dropped because the ring is full.
pub open spec fn spec_pushed_mapping(
    m: Seq<u8>,
    cap: int,
    head: u64,
    tail: u64,
    dropped: u64,
    seq: u64,
    h: MemReaderRecordHeader,
    ranges: Seq<MemReaderRangeResult>,
    payload: Seq<u8>,
) -> Seq<u8> {
    let total = h.total_len as int;
    if !spec_push_fits(cap, head as int, tail as int, total) {
        spec_synced(m, cap, head, tail, wrapping_inc(dropped), seq)
    } else {
        let m1 = spec_wrapped_mapping(m, cap, head as int, tail, dropped, seq, total);
        let p = spec_record_start(cap, head as int, total);
        spec_synced(
            seq_write(m1, LAYOUT_HEADER_BYTES + p, record_image(h, ranges, payload)),
            cap,
            ((p + total) % cap) as u64,
            tail,
            dropped,
            wrapping_inc(seq),
        )
    }
}

/// The encodings of the first `n` range results, built in a vector.
fn encode_ranges(out: &mut Vec<u8>, ranges: &[MemReaderRangeResult], n: usize)
    requires
        n <= ranges@.len(),
    ensures
        final(out)@ == old(out)@ + ranges_image(ranges@.take(n as int)),
{
    let ghost start = out@;
    let mut i: usize = 0;
    while i < n
        invariant
            n <= ranges@.len(),
            0 <= i <= n,
            out@ == start + ranges_image(ranges@.take(i as int)),
        decreases n - i,
    {
        let mut b = ranges[i].encode();
        proof {
            let t = ranges@.take(i + 1);
            assert(t.drop_last() =~= ranges@.take(i as int));
            assert(t.last() == ranges@[i as int]);
        }
        out.append(&mut b);
        i = i + 1;
        proof {
            assert(out@ =~= start + ranges_image(ranges@.take(i as int)));
        }
    }
}

/// Writes a padding record of `padding_len` bytes at the head and moves the
/// head past it.
fn push_padding(session: &mut ThubSession, padding_len: usize)
    requires
        old(session).ring_wf(),
        old(session).ring_capacity_bytes > 0,
        padding_len <= old(session).ring_capacity_bytes - old(session).producer_head,
        RECORD_HEADER_BYTES <= padding_len,
    ensures
        final(session).producer_head == ((old(session).producer_head + padding_len)
            % old(session).ring_capacity_bytes as int) as u64,
        final(session).mapping@ == spec_synced(
            seq_write(
                old(session).mapping@,
                LAYOUT_HEADER_BYTES + old(session).producer_head,
                padding_header(padding_len as u32).spec_encode(),
            ),
            old(session).ring_capacity_bytes as int,
            final(session).producer_head,
            old(session).consumer_tail,
            old(session).dropped_records,
            old(session).next_seq,
        ),
        final(session).ring_wf(),
        final(session).slots == old(session).slots,
        final(session).ring_capacity_bytes == old(session).ring_capacity_bytes,
        final(session).consumer_tail == old(session).consumer_tail,
        final(session).dropped_records == old(session).dropped_records,
        final(session).next_seq == old(session).next_seq,
{
    let capacity = session.ring_capacity_bytes;
    let head = session.producer_head as usize;
    let _n = session.mapping.len();
    let header = MemReaderRecordHeader {
        total_len: padding_len as u32,
        kind: MEMREADER_RECORD_KIND_PADDING,
        seq: 0,
        timestamp_ns: 0,
        cookie: 0,
        target_slot: 0,
        status: 0,
        range_count: 0,
        reserved0: 0,
        payload_bytes: 0,
        reserved1: 0,
    };
    let bytes = header.encode();
    write_bytes_at(&mut session.mapping, LAYOUT_HEADER_BYTES + head, bytes.as_slice());
    session.producer_head = ((head + padding_len) % capacity) as u64;
    sync_ring_layout(session);
}

/// An encoded range result takes 24 bytes, so `n` of them take `24 * n`.
pub proof fn lemma_ranges_image_len(rs: Seq<MemReaderRangeResult>)
    ensures
        ranges_image(rs).len() == RANGE_RESULT_BYTES * rs.len(),
    decreases rs.len(),
{
    vstd::bytes::lemma_auto_spec_u32_to_from_le_bytes();
    vstd::bytes::lemma_auto_spec_u64_to_from_le_bytes();
    if rs.len() > 0 {
        lemma_ranges_image_len(rs.drop_last());
        let r = rs.last();
        assert(vstd::bytes::spec_u64_to_le_bytes(r.remote_addr).len() == 8);
        assert(vstd::bytes::spec_u32_to_le_bytes(r.requested_len).len() == 4);
        assert(vstd::bytes::spec_u32_to_le_bytes(r.bytes_read).len() == 4);
        assert(vstd::bytes::spec_u32_to_le_bytes(r.status).len() == 4);
        assert(vstd::bytes::spec_u32_to_le_bytes(r.reserved0).len() == 4);
    }
}

/// The length of a record image: header, range results and payload.
pub proof fn lemma_record_image_len(
    h: MemReaderRecordHeader,
    ranges: Seq<MemReaderRangeResult>,
    payload: Seq<u8>,
)
    requires
        h.range_count <= ranges.len(),
        h.payload_bytes <= payload.len(),
    ensures
        record_image(h, ranges, payload).len() == RECORD_HEADER_BYTES + RANGE_RESULT_BYTES
            * h.range_count + h.payload_bytes,
        h.spec_encode().len() == RECORD_HEADER_BYTES,
{
    vstd::bytes::lemma_auto_spec_u32_to_from_le_bytes();
    vstd::bytes::lemma_auto_spec_u64_to_from_le_bytes();
    lemma_ranges_image_len(ranges.take(h.range_count as int));
    assert(vstd::bytes::spec_u32_to_le_bytes(h.total_len).len() == 4);
    assert(vstd::bytes::spec_u32_to_le_bytes(h.kind).len() == 4);
    assert(vstd::bytes::spec_u64_to_le_bytes(h.seq).len() == 8);
    assert(vstd::bytes::spec_u64_to_le_bytes(h.timestamp_ns).len() == 8);
    assert(vstd::bytes::spec_u64_to_le_bytes(h.cookie).len() == 8);
    assert(vstd::bytes::spec_u32_to_le_bytes(h.target_slot).len() == 4);
    assert(vstd::bytes::spec_u32_to_le_bytes(h.status).len() == 4);
    assert(vstd::bytes::spec_u32_to_le_bytes(h.range_count).len() == 4);
    assert(vstd::bytes::spec_u32_to_le_bytes(h.reserved0).len() == 4);
    assert(vstd::bytes::spec_u32_to_le_bytes(h.payload_bytes).len() == 4);
    assert(vstd::bytes::spec_u32_to_le_bytes(h.reserved1).len() == 4);
}

/// Closes off the end of the ring for a record of `total_len` bytes that does
/// not fit before it: a padding record when a record header fits there,
/// zero bytes otherwise, and the head moves to the start of the ring.
fn close_off_ring_end(session: &mut ThubSession, total_len: u64)
    requires
        old(session).ring_wf(),
        old(session).ring_capacity_bytes > 0,
        total_len <= u32::MAX,
    ensures
        final(session).mapping@ == spec_wrapped_mapping(
            old(session).mapping@,
            old(session).ring_capacity_bytes as int,
            old(session).producer_head as int,
            old(session).consumer_tail,
            old(session).dropped_records,
            old(session).next_seq,
            total_len as int,
        ),
        final(session).producer_head == spec_record_start(
            old(session).ring_capacity_bytes as int,
            old(session).producer_head as int,
            total_len as int,
        ),
        final(session).ring_wf(),
        final(session).slots == old(session).slots,
        final(session).ring_capacity_bytes == old(session).ring_capacity_bytes,
        final(session).consumer_tail == old(session).consumer_tail,
        final(session).dropped_records == old(session).dropped_records,
        final(session).next_seq == old(session).next_seq,
{
    let _n = session.mapping.len();
    let capacity = session.ring_capacity_bytes as u64;
    let head = session.producer_head;
    if head + total_len > capacity {
        let remaining = capacity - head;
        if remaining >= RECORD_HEADER_BYTES as u64 {
            proof {
                vstd::arithmetic::div_mod::lemma_mod_self_0(capacity as int);
                assert(head + remaining == capacity);
            }
            push_padding(session, remaining as usize);
        } else {
            zero_bytes_at(
                &mut session.mapping,
                LAYOUT_HEADER_BYTES + head as usize,
                remaining as usize,
            );
            session.producer_head = 0;
            sync_ring_layout(session);
        }
    }
}

/// The producer head after a record of `total` bytes has been pushed.
pub open spec fn spec_pushed_head(cap: int, head: int, total: int) -> u64 {
    ((spec_record_start(cap, head, total) + total) % cap) as u64
}

/// Pushes a data record: drops it and counts the drop when it does not fit,
/// otherwise closes off the end of the ring if needed, copies header, range
/// results and payload, advances the head and the sequence number, and
/// publishes the counters in the layout header.
fn push_record(
    session: &mut ThubSession,
    record_header: &MemReaderRecordHeader,
    range_results: &[MemReaderRangeResult],
    payload: &[u8],
) -> (r: Result<(), ()>)
    requires
        old(session).ring_wf(),
        record_header.range_count <= range_results@.len(),
        record_header.payload_bytes <= payload@.len(),
        RECORD_HEADER_BYTES + RANGE_RESULT_BYTES * record_header.range_count
            + record_header.payload_bytes <= record_header.total_len,
    ensures
        ({
            let cap = old(session).ring_capacity_bytes as int;
            let head = old(session).producer_head;
            let tail = old(session).consumer_tail;
            let total = record_header.total_len as int;
            let fits = spec_push_fits(cap, head as int, tail as int, total);
            &&& (r is Ok <==> fits)
            &&& final(session).mapping@ == spec_pushed_mapping(
                old(session).mapping@,
                cap,
                head,
                tail,
                old(session).dropped_records,
                old(session).next_seq,
                *record_header,
                range_results@,
                payload@,
            )
            &&& final(session).producer_head == if fits {
                spec_pushed_head(cap, head as int, total)
            } else {
                head
            }
            &&& final(session).dropped_records == if fits {
                old(session).dropped_records
            } else {
                wrapping_inc(old(session).dropped_records)
            }
            &&& final(session).next_seq == if fits {
                wrapping_inc(old(session).next_seq)
            } else {
                old(session).next_seq
            }
        }),
        final(session).ring_wf(),
        final(session).slots == old(session).slots,
        final(session).ring_capacity_bytes == old(session).ring_capacity_bytes,
        final(session).consumer_tail == old(session).consumer_tail,
{
    let _n = session.mapping.len();
    let total_len = record_header.total_len as u64;
    let capacity = session.ring_capacity_bytes as u64;
    let head = session.producer_head;
    let tail = session.consumer_tail;
    let wrap_overhead = if head + total_len > capacity {
        capacity.saturating_sub(head)
    } else {
        0
    };
    let free = if head >= tail {
        capacity.saturating_sub(head - tail)
    } else {
        tail - head
    };
    if total_len + wrap_overhead + 8 > free {
        session.dropped_records = session.dropped_records.wrapping_add(1);
        sync_ring_layout(session);
        return Err(());
    }
    close_off_ring_end(session, total_len);
    proof {
        lemma_record_image_len(*record_header, range_results@, payload@);
    }
    let start = session.producer_head as usize;
    let mut image = record_header.encode();
    encode_ranges(&mut image, range_results, record_header.range_count as usize);
    let payload_part = vstd::slice::slice_subrange(
        payload,
        0,
        record_header.payload_bytes as usize,
    );
    let mut payload_copy = vstd::slice::slice_to_vec(payload_part);
    image.append(&mut payload_copy);
    proof {
        assert(payload_part@ =~= payload@.take(record_header.payload_bytes as int));
        assert(image@ =~= record_image(*record_header, range_results@, payload@));
    }
    write_bytes_at(&mut session.mapping, LAYOUT_HEADER_BYTES + start, image.as_slice());
    session.producer_head = (start as u64 + total_len) % capacity;
    session.next_seq = session.next_seq.wrapping_add(1);
    sync_ring_layout(session);
    Ok(())
}

/// The layout header a freshly set-up session writes for a mapping of
/// `mapping_bytes` bytes.
pub open spec fn initial_layout(mapping_bytes: int) -> MemReaderRingLayout {
    let cap = if mapping_bytes >= LAYOUT_HEADER_BYTES {
        mapping_bytes - LAYOUT_HEADER_BYTES
    } else {
        0
    };
    MemReaderRingLayout {
        uapi_version: MEMREADER_UAPI_VERSION,
        header_bytes: LAYOUT_HEADER_BYTES as u32,
        capacity_bytes: cap as u32,
        reserved0: 0,
        producer_head: 0,
        consumer_tail: 0,
        dropped_records: 0,
        next_seq: 0,
        reserved1: [0u64, 0u64, 0u64, 0u64],
    }
}

/// An empty target slot.
pub open spec fn empty_slot() -> ThubTargetSlot {
    ThubTargetSlot {
        in_use: 0,
        reserved: [0u8, 0u8, 0u8, 0u8, 0u8, 0u8, 0u8],
        selector: TargetSelector {
            kind: 0,
            flags: 0,
            host_pid: 0,
            pid_in_ns: 0,
            container_init_host_pid: 0,
            reserved0: 0,
            start_time_ticks: 0,
        },
    }
}

fn make_empty_slot() -> (r: ThubTargetSlot)
    ensures
        r == empty_slot(),
{
    ThubTargetSlot {
        in_use: 0,
        reserved: [0u8, 0u8, 0u8, 0u8, 0u8, 0u8, 0u8],
        selector: TargetSelector {
            kind: 0,
            flags: 0,
            host_pid: 0,
            pid_in_ns: 0,
            container_init_host_pid: 0,
            reserved0: 0,
            start_time_ticks: 0,
        },
    }
}

/// The setup of a session's ring fails only when the mapping has no room for
/// the layout header.
pub open spec fn session_init_rejects(mapping_len: int, mapping_bytes: int) -> bool {
    mapping_len < LAYOUT_HEADER_BYTES
}

/// Sets up an empty ring over the first `mapping_bytes` bytes of the session's
/// mapping and clears every target slot; returns `-22` when the mapping
/// cannot hold the layout header, `0` otherwise. The ring's size is
/// `mapping_bytes` less the header, held at zero; the layout's 32-bit size
/// field holds its low 32 bits. The ring is well formed where the mapping
/// holds the whole ring and its size fits in the layout's field.
pub fn thub_rust_session_init(session: &mut ThubSession, mapping_bytes: usize) -> (r: i32)
    ensures
        session_init_rejects(old(session).mapping@.len() as int, mapping_bytes as int) ==> r
            == EINVAL_RETURN && *final(session) == *old(session),
        !session_init_rejects(old(session).mapping@.len() as int, mapping_bytes as int) ==> {
            &&& r == 0
            &&& final(session).mapping@ == seq_write(
                old(session).mapping@,
                0,
                initial_layout(mapping_bytes as int).spec_encode(),
            )
            &&& MemReaderRingLayout::spec_decode(final(session).mapping@, 0) == initial_layout(
                mapping_bytes as int,
            )
            &&& initial_layout(mapping_bytes as int).capacity_bytes == final(session).ring_capacity_bytes as u32
            &&& final(session).ring_capacity_bytes == if mapping_bytes >= LAYOUT_HEADER_BYTES {
                mapping_bytes - LAYOUT_HEADER_BYTES
            } else {
                0
            }
            &&& final(session).producer_head == 0
            &&& final(session).consumer_tail == 0
            &&& final(session).dropped_records == 0
            &&& final(session).next_seq == 0
            &&& forall|i: int| 0 <= i < MEMREADER_MAX_TARGETS ==> #[trigger] final(session).slots[i]
                == empty_slot()
            &&& (mapping_bytes <= old(session).mapping@.len() && final(session).ring_capacity_bytes
                <= u32::MAX) ==> final(session).ring_wf()
        },
{
    let mapping_len = session.mapping.len();
    if mapping_len < LAYOUT_HEADER_BYTES {
        return EINVAL_RETURN;
    }
    let capacity = mapping_bytes.saturating_sub(LAYOUT_HEADER_BYTES);
    let layout = MemReaderRingLayout {
        uapi_version: MEMREADER_UAPI_VERSION,
        header_bytes: LAYOUT_HEADER_BYTES as u32,
        capacity_bytes: capacity as u32,
        reserved0: 0,
        producer_head: 0,
        consumer_tail: 0,
        dropped_records: 0,
        next_seq: 0,
        reserved1: [0u64, 0u64, 0u64, 0u64],
    };
    let bytes = layout.encode();
    write_bytes_at(&mut session.mapping, 0, bytes.as_slice());
    proof {
        lemma_write_inside(old(session).mapping@, 0, bytes@);
        layout.lemma_roundtrip(session.mapping@, 0);
        assert(layout == initial_layout(mapping_bytes as int));
    }
    session.ring_capacity_bytes = capacity;
    session.producer_head = 0;
    session.consumer_tail = 0;
    session.dropped_records = 0;
    session.next_seq = 0;
    let ghost written = session.mapping@;
    let mut i: usize = 0;
    while i < MEMREADER_MAX_TARGETS
        invariant
            0 <= i <= MEMREADER_MAX_TARGETS,
            forall|k: int| 0 <= k < i ==> #[trigger] session.slots[k] == empty_slot(),
            session.mapping@ == written,
            session.ring_capacity_bytes == capacity,
            session.producer_head == 0,
            session.consumer_tail == 0,
            session.dropped_records == 0,
            session.next_seq == 0,
        decreases MEMREADER_MAX_TARGETS - i,
    {
        session.slots[i] = make_empty_slot();
        i = i + 1;
    }
    0
}

/// Marks target slot `req.slot` in use with the requested selector; returns
/// `-22` for a slot number beyond the table, `0` otherwise.
pub fn thub_rust_upsert_target(session: &mut ThubSession, req: &UpsertTargetRequest) -> (r: i32)
    ensures
        req.slot >= MEMREADER_MAX_TARGETS ==> r == EINVAL_RETURN && final(session).slots
            == old(session).slots,
        req.slot < MEMREADER_MAX_TARGETS ==> r == 0 && final(session).slots@ == old(
            session,
        ).slots@.update(
            req.slot as int,
            ThubTargetSlot {
                in_use: 1,
                reserved: old(session).slots[req.slot as int].reserved,
                selector: req.selector,
            },
        ),
        final(session).mapping == old(session).mapping,
        final(session).ring_capacity_bytes == old(session).ring_capacity_bytes,
        final(session).producer_head == old(session).producer_head,
        final(session).consumer_tail == old(session).consumer_tail,
        final(session).dropped_records == old(session).dropped_records,
        final(session).next_seq == old(session).next_seq,
{
    let idx = req.slot as usize;
    if idx >= MEMREADER_MAX_TARGETS {
        return EINVAL_RETURN;
    }
    let reserved = session.slots[idx].reserved;
    session.slots[idx] = ThubTargetSlot { in_use: 1, reserved, selector: req.selector };
    0
}

/// Clears target slot `req.slot`; returns `-22` for a slot number beyond the
/// table, `0` otherwise.
pub fn thub_rust_remove_target(session: &mut ThubSession, req: &RemoveTargetRequest) -> (r: i32)
    ensures
        req.slot >= MEMREADER_MAX_TARGETS ==> r == EINVAL_RETURN && final(session).slots
            == old(session).slots,
        req.slot < MEMREADER_MAX_TARGETS ==> r == 0 && final(session).slots@ == old(
            session,
        ).slots@.update(req.slot as int, empty_slot()),
        final(session).mapping == old(session).mapping,
        final(session).ring_capacity_bytes == old(session).ring_capacity_bytes,
        final(session).producer_head == old(session).producer_head,
        final(session).consumer_tail == old(session).consumer_tail,
        final(session).dropped_records == old(session).dropped_records,
        final(session).next_seq == old(session).next_seq,
{
    let idx = req.slot as usize;
    if idx >= MEMREADER_MAX_TARGETS {
        return EINVAL_RETURN;
    }
    session.slots[idx] = make_empty_slot();
    0
}

/// The arguments of a publication are usable: the range results and the
/// payload hold as many items as announced, and the record size fits the
/// header's 32-bit length field.
pub open spec fn publish_args_ok(
    ranges_len: int,
    range_count: int,
    payload_len: int,
    payload_bytes: int,
) -> bool {
    &&& range_count <= ranges_len
    &&& payload_bytes <= payload_len
    &&& RECORD_HEADER_BYTES + RANGE_RESULT_BYTES * range_count + payload_bytes + 7 <= u32::MAX
}

/// The header of the data record published for a read request.
pub open spec fn published_header(
    next_seq: u64,
    req: SubmitReadRequest,
    status: u32,
    range_count: u32,
    payload_bytes: int,
) -> MemReaderRecordHeader {
    MemReaderRecordHeader {
        total_len: spec_record_total_len(range_count as int, payload_bytes) as u32,
        kind: MEMREADER_RECORD_KIND_DATA,
        seq: next_seq,
        timestamp_ns: 0,
        cookie: req.cookie,
        target_slot: req.target_slot,
        status,
        range_count,
        reserved0: 0,
        payload_bytes: payload_bytes as u32,
        reserved1: 0,
    }
}

/// The code that ring-full publications return.
pub const RING_FULL_RETURN: i32 = -5;

/// Publishes the outcome of read request `req` as a data record: `-22` when
/// the arguments are unusable, `-5` when the ring has no room (the drop is
/// counted), `0` when the record was written. A `0` is the cue to wake the
/// consumer; the wake itself, a call into the kernel, is left to the caller.
pub fn thub_rust_publish_record(
    session: &mut ThubSession,
    req: &SubmitReadRequest,
    status: u32,
    range_count: u32,
    range_results: &[MemReaderRangeResult],
    payload: &[u8],
    payload_bytes: usize,
) -> (r: i32)
    requires
        old(session).ring_wf(),
    ensures
        final(session).ring_wf(),
        final(session).slots == old(session).slots,
        final(session).ring_capacity_bytes == old(session).ring_capacity_bytes,
        final(session).consumer_tail == old(session).consumer_tail,
        !publish_args_ok(
            range_results@.len() as int,
            range_count as int,
            payload@.len() as int,
            payload_bytes as int,
        ) ==> r == EINVAL_RETURN && *final(session) == *old(session),
        publish_args_ok(
            range_results@.len() as int,
            range_count as int,
            payload@.len() as int,
            payload_bytes as int,
        ) ==> ({
            let h = published_header(
                old(session).next_seq,
                *req,
                status,
                range_count,
                payload_bytes as int,
            );
            let cap = old(session).ring_capacity_bytes as int;
            let head = old(session).producer_head;
            let fits = spec_push_fits(
                cap,
                head as int,
                old(session).consumer_tail as int,
                h.total_len as int,
            );
            &&& r == if fits {
                0
            } else {
                RING_FULL_RETURN
            }
            &&& final(session).mapping@ == spec_pushed_mapping(
                old(session).mapping@,
                cap,
                head,
                old(session).consumer_tail,
                old(session).dropped_records,
                old(session).next_seq,
                h,
                range_results@,
                payload@,
            )
            &&& final(session).producer_head == if fits {
                spec_pushed_head(cap, head as int, h.total_len as int)
            } else {
                head
            }
            &&& final(session).dropped_records == if fits {
                old(session).dropped_records
            } else {
                wrapping_inc(old(session).dropped_records)
            }
            &&& final(session).next_seq == if fits {
                wrapping_inc(old(session).next_seq)
            } else {
                old(session).next_seq
            }
        }),
{
    if range_results.len() < range_count as usize || payload.len() < payload_bytes {
        return EINVAL_RETURN;
    }
    if payload_bytes as u64 > u32::MAX as u64 {
        return EINVAL_RETURN;
    }
    let used: u64 = RECORD_HEADER_BYTES as u64 + RANGE_RESULT_BYTES as u64 * range_count as u64
        + payload_bytes as u64;
    if used + 7 > u32::MAX as u64 {
        return EINVAL_RETURN;
    }
    let total_len = record_total_len(range_count as usize, payload_bytes);
    let header = MemReaderRecordHeader {
        total_len: total_len as u32,
        kind: MEMREADER_RECORD_KIND_DATA,
        seq: session.next_seq,
        timestamp_ns: 0,
        cookie: req.cookie,
        target_slot: req.target_slot,
        status,
        range_count,
        reserved0: 0,
        payload_bytes: payload_bytes as u32,
        reserved1: 0,
    };
    if push_record(session, &header, range_results, payload).is_err() {
        return RING_FULL_RETURN;
    }
    0
}

} // verus!
