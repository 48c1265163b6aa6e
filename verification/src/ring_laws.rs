//! Laws that relate the producer and the consumer side of the record ring.
use vstd::prelude::*;

use crate::ring_reader::{header_at, payload_at, ranges_at, spec_locate_next_record, spec_walk};
use crate::ring_writer::{
    initial_layout, padding_header, published_header, publish_args_ok, ranges_image,
    record_image, spec_pushed_mapping, spec_push_fits, spec_record_start, spec_synced,
    spec_pushed_head, spec_wrapped_mapping, spec_free, spec_wrap_overhead, synced_layout, wrapping_inc, lemma_record_image_len,
    lemma_ranges_image_len, ThubSession,
};
use crate::uapi::{
    spec_record_total_len, MemReaderRangeResult, MemReaderRecordHeader, MemReaderRingLayout,
    SubmitReadRequest, LAYOUT_HEADER_BYTES, MEMREADER_MAX_PAYLOAD_BYTES,
    MEMREADER_MAX_RANGES_PER_JOB, MEMREADER_RECORD_KIND_PADDING, RANGE_RESULT_BYTES, RECORD_HEADER_BYTES,
};
use crate::wire::{lemma_write_inside, lemma_write_outside, lemma_write_sub, seq_write, zeros};

verus! {

proof fn lemma_layout_encode_len(l: MemReaderRingLayout)
    ensures
        l.spec_encode().len() == LAYOUT_HEADER_BYTES,
{
    vstd::bytes::lemma_auto_spec_u32_to_from_le_bytes();
    vstd::bytes::lemma_auto_spec_u64_to_from_le_bytes();
    assert(vstd::bytes::spec_u32_to_le_bytes(l.uapi_version).len() == 4);
    assert(vstd::bytes::spec_u32_to_le_bytes(l.header_bytes).len() == 4);
    assert(vstd::bytes::spec_u32_to_le_bytes(l.capacity_bytes).len() == 4);
    assert(vstd::bytes::spec_u32_to_le_bytes(l.reserved0).len() == 4);
    assert(vstd::bytes::spec_u64_to_le_bytes(l.producer_head).len() == 8);
    assert(vstd::bytes::spec_u64_to_le_bytes(l.consumer_tail).len() == 8);
    assert(vstd::bytes::spec_u64_to_le_bytes(l.dropped_records).len() == 8);
    assert(vstd::bytes::spec_u64_to_le_bytes(l.next_seq).len() == 8);
    assert(vstd::bytes::spec_u64_to_le_bytes(l.reserved1[0]).len() == 8);
    assert(vstd::bytes::spec_u64_to_le_bytes(l.reserved1[1]).len() == 8);
    assert(vstd::bytes::spec_u64_to_le_bytes(l.reserved1[2]).len() == 8);
    assert(vstd::bytes::spec_u64_to_le_bytes(l.reserved1[3]).len() == 8);
}

/// Syncing the counters keeps the length and every byte past the layout
/// header, and the layout header then decodes to the synced layout.
proof fn lemma_synced(m: Seq<u8>, cap: int, head: u64, tail: u64, d: u64, q: u64, a: int, b: int)
    requires
        m.len() >= LAYOUT_HEADER_BYTES,
        LAYOUT_HEADER_BYTES <= a <= b <= m.len(),
    ensures
        spec_synced(m, cap, head, tail, d, q).len() == m.len(),
        spec_synced(m, cap, head, tail, d, q).subrange(a, b) == m.subrange(a, b),
        MemReaderRingLayout::spec_decode(spec_synced(m, cap, head, tail, d, q), 0)
            == synced_layout(m, cap, head, tail, d, q),
{
    let l = synced_layout(m, cap, head, tail, d, q);
    lemma_layout_encode_len(l);
    lemma_write_inside(m, 0, l.spec_encode());
    lemma_write_outside(m, 0, l.spec_encode(), a, b);
    l.lemma_roundtrip(spec_synced(m, cap, head, tail, d, q), 0);
}

/// The encoding of the `i`-th range result sits at `24 * i` in the image of
/// a sequence of range results.
proof fn lemma_ranges_image_piece(rs: Seq<MemReaderRangeResult>, i: int)
    requires
        0 <= i < rs.len(),
    ensures
        ranges_image(rs).subrange(RANGE_RESULT_BYTES * i, RANGE_RESULT_BYTES * i + 24)
            == rs[i].spec_encode(),
    decreases rs.len(),
{
    let left = rs.drop_last();
    lemma_ranges_image_len(left);
    lemma_ranges_image_len(rs);
    lemma_ranges_image_len(seq![rs.last()]);
    assert(ranges_image(seq![rs.last()]) =~= ranges_image(Seq::<MemReaderRangeResult>::empty())
        + rs.last().spec_encode()) by {
        assert(seq![rs.last()].drop_last() =~= Seq::<MemReaderRangeResult>::empty());
    }
    let img = ranges_image(rs);
    assert(img == ranges_image(left) + rs.last().spec_encode());
    if i < rs.len() - 1 {
        lemma_ranges_image_piece(left, i);
        assert(img.subrange(RANGE_RESULT_BYTES * i, RANGE_RESULT_BYTES * i + 24)
            =~= ranges_image(left).subrange(RANGE_RESULT_BYTES * i, RANGE_RESULT_BYTES * i + 24));
    } else {
        assert(img.subrange(RANGE_RESULT_BYTES * i, RANGE_RESULT_BYTES * i + 24)
            =~= rs.last().spec_encode());
    }
}

/// Where the image of a data record lies in the mapping, the consumer reads
/// back its header, its range results and its payload.
proof fn lemma_read_back_at(
    m: Seq<u8>,
    p: int,
    h: MemReaderRecordHeader,
    ranges: Seq<MemReaderRangeResult>,
    payload: Seq<u8>,
)
    requires
        0 <= p,
        h.range_count <= ranges.len(),
        h.payload_bytes <= payload.len(),
        LAYOUT_HEADER_BYTES + p + record_image(h, ranges, payload).len() <= m.len(),
        m.subrange(
            LAYOUT_HEADER_BYTES + p,
            LAYOUT_HEADER_BYTES + p + record_image(h, ranges, payload).len(),
        ) == record_image(h, ranges, payload),
    ensures
        header_at(m, p) == h,
        ranges_at(m, p, h.range_count as int) == ranges.take(h.range_count as int),
        payload_at(m, p, h) == payload.take(h.payload_bytes as int),
{
    let img = record_image(h, ranges, payload);
    let base = LAYOUT_HEADER_BYTES + p;
    let rc = h.range_count as int;
    let pb = h.payload_bytes as int;
    lemma_record_image_len(h, ranges, payload);
    lemma_ranges_image_len(ranges.take(rc));
    let enc = h.spec_encode();
    let rimg = ranges_image(ranges.take(rc));
    assert(img == enc + rimg + payload.take(pb));
    assert(m.subrange(base, base + 56) =~= img.subrange(0, 56));
    assert(img.subrange(0, 56) =~= enc);
    h.lemma_roundtrip(m, base);
    assert forall|i: int| 0 <= i < rc implies #[trigger] ranges_at(m, p, rc)[i] == ranges.take(
        rc,
    )[i] by {
        let off = base + RECORD_HEADER_BYTES + RANGE_RESULT_BYTES * i;
        lemma_ranges_image_piece(ranges.take(rc), i);
        assert(m.subrange(off, off + 24) =~= img.subrange(56 + 24 * i, 56 + 24 * i + 24));
        assert(img.subrange(56 + 24 * i, 56 + 24 * i + 24) =~= rimg.subrange(24 * i, 24 * i
            + 24));
        ranges.take(rc)[i].lemma_roundtrip(m, off);
    }
    assert(ranges_at(m, p, rc) =~= ranges.take(rc));
    let pstart = base + RECORD_HEADER_BYTES + RANGE_RESULT_BYTES * rc;
    assert(m.subrange(pstart, pstart + pb) =~= img.subrange(56 + 24 * rc, 56 + 24 * rc + pb));
    assert(img.subrange(56 + 24 * rc, 56 + 24 * rc + pb) =~= payload.take(pb));
}

/// Read back what was written: when the consumer has caught up with the
/// producer and a read request's record is published into the ring (the
/// publication succeeds), the consumer's next record is exactly that record,
/// with its header, its range results and its payload, and the consumer tail
/// moves to the new producer head.
pub proof fn lemma_published_record_is_read_back(
    s: ThubSession,
    req: SubmitReadRequest,
    status: u32,
    range_count: u32,
    ranges: Seq<MemReaderRangeResult>,
    payload: Seq<u8>,
    payload_bytes: int,
)
    requires
        s.ring_wf(),
        s.consumer_tail == s.producer_head,
        publish_args_ok(ranges.len() as int, range_count as int, payload.len() as int, payload_bytes),
        0 <= payload_bytes,
        range_count <= MEMREADER_MAX_RANGES_PER_JOB,
        payload_bytes <= MEMREADER_MAX_PAYLOAD_BYTES,
        spec_push_fits(
            s.ring_capacity_bytes as int,
            s.producer_head as int,
            s.consumer_tail as int,
            published_header(s.next_seq, req, status, range_count, payload_bytes).total_len as int,
        ),
    ensures
        ({
            let h = published_header(s.next_seq, req, status, range_count, payload_bytes);
            let cap = s.ring_capacity_bytes as int;
            let total = h.total_len as int;
            let m2 = spec_pushed_mapping(
                s.mapping@,
                cap,
                s.producer_head,
                s.consumer_tail,
                s.dropped_records,
                s.next_seq,
                h,
                ranges,
                payload,
            );
            let p = spec_record_start(cap, s.producer_head as int, total);
            &&& spec_locate_next_record(m2) == Ok::<(int, int), crate::ring_reader::RingError>(
                (p, (p + total) % cap),
            )
            &&& header_at(m2, p) == h
            &&& ranges_at(m2, p, range_count as int) == ranges.take(range_count as int)
            &&& payload_at(m2, p, h) == payload.take(payload_bytes)
        }),
{
    let h = published_header(s.next_seq, req, status, range_count, payload_bytes);
    let cap = s.ring_capacity_bytes as int;
    let h0 = s.producer_head as int;
    let total = h.total_len as int;
    let m = s.mapping@;
    let rc = range_count as int;
    let used = RECORD_HEADER_BYTES + RANGE_RESULT_BYTES * rc + payload_bytes;
    assert(total == spec_record_total_len(rc, payload_bytes));
    assert(used <= total < used + 8) by {
        vstd::arithmetic::div_mod::lemma_fundamental_div_mod(used + 7, 8);
    }
    assert(cap >= total + 8);
    let img = record_image(h, ranges, payload);
    lemma_record_image_len(h, ranges, payload);
    assert(img.len() == used);
    let d = s.dropped_records;
    let q = s.next_seq;
    let m1 = spec_wrapped_mapping(m, cap, h0, s.consumer_tail, d, q, total);
    let p = spec_record_start(cap, h0, total);
    let w = seq_write(m1, LAYOUT_HEADER_BYTES + p, img);
    let new_head = ((p + total) % cap) as u64;
    let m2 = spec_synced(w, cap, new_head, s.consumer_tail, d, wrapping_inc(q));
    assert(m2 == spec_pushed_mapping(
        m,
        cap,
        s.producer_head,
        s.consumer_tail,
        d,
        q,
        h,
        ranges,
        payload,
    ));
    // the mapping keeps its length through the wrap step
    let ml = m.len() as int;
    if h0 + total > cap {
        let rem = cap - h0;
        if rem >= RECORD_HEADER_BYTES {
            let padenc = padding_header(rem as u32).spec_encode();
            lemma_record_image_len(padding_header(rem as u32), Seq::empty(), Seq::empty());
            lemma_write_inside(m, LAYOUT_HEADER_BYTES + h0, padenc);
            lemma_synced(
                seq_write(m, LAYOUT_HEADER_BYTES + h0, padenc),
                cap,
                0,
                s.consumer_tail,
                d,
                q,
                LAYOUT_HEADER_BYTES + h0,
                LAYOUT_HEADER_BYTES + h0 + 56,
            );
        } else {
            lemma_write_inside(m, LAYOUT_HEADER_BYTES + h0, zeros(rem));
            lemma_synced(
                seq_write(m, LAYOUT_HEADER_BYTES + h0, zeros(rem)),
                cap,
                0,
                s.consumer_tail,
                d,
                q,
                ml,
                ml,
            );
        }
    }
    assert(m1.len() == ml);
    lemma_write_inside(m1, LAYOUT_HEADER_BYTES + p, img);
    lemma_synced(
        w,
        cap,
        new_head,
        s.consumer_tail,
        d,
        wrapping_inc(q),
        LAYOUT_HEADER_BYTES + p,
        LAYOUT_HEADER_BYTES + p + used,
    );
    lemma_read_back_at(m2, p, h, ranges, payload);
    let layout2 = MemReaderRingLayout::spec_decode(m2, 0);
    assert(layout2.capacity_bytes as int == cap);
    assert(layout2.producer_head == new_head);
    assert(layout2.consumer_tail as int == h0);
    assert(header_at(m2, p).kind == crate::uapi::MEMREADER_RECORD_KIND_DATA);
    if h0 + total <= cap {
        assert(p == h0);
        if h0 + total == cap {
            vstd::arithmetic::div_mod::lemma_mod_self_0(cap);
        } else {
            vstd::arithmetic::div_mod::lemma_small_mod((h0 + total) as nat, cap as nat);
        }
        assert(spec_walk(m2, cap, new_head as int, h0, cap as nat) == Ok::<
            (int, int),
            crate::ring_reader::RingError,
        >((h0, (h0 + total) % cap)));
    } else {
        assert(p == 0);
        vstd::arithmetic::div_mod::lemma_small_mod(total as nat, cap as nat);
        assert(new_head as int == total);
        let rem = cap - h0;
        assert(spec_walk(m2, cap, new_head as int, 0, (cap - 1) as nat) == Ok::<
            (int, int),
            crate::ring_reader::RingError,
        >((0, total)));
        if rem >= RECORD_HEADER_BYTES {
            let padenc = padding_header(rem as u32).spec_encode();
            // the padding record survives the record write, which ends before it
            lemma_write_outside(
                m1,
                LAYOUT_HEADER_BYTES as int,
                img,
                LAYOUT_HEADER_BYTES + h0,
                LAYOUT_HEADER_BYTES + h0 + 56,
            );
            lemma_synced(
                w,
                cap,
                new_head,
                s.consumer_tail,
                d,
                wrapping_inc(q),
                LAYOUT_HEADER_BYTES + h0,
                LAYOUT_HEADER_BYTES + h0 + 56,
            );
            assert(m2.subrange(LAYOUT_HEADER_BYTES + h0, LAYOUT_HEADER_BYTES + h0 + 56) == padenc);
            padding_header(rem as u32).lemma_roundtrip(m2, LAYOUT_HEADER_BYTES + h0);
            assert(header_at(m2, h0) == padding_header(rem as u32));
            vstd::arithmetic::div_mod::lemma_mod_self_0(cap);
            assert((h0 + rem) % cap == 0);
        }
        assert(spec_walk(m2, cap, new_head as int, h0, cap as nat) == Ok::<
            (int, int),
            crate::ring_reader::RingError,
        >((0, total)));
    }
}

/// A freshly set-up ring holds no record: the consumer finds it empty (or,
/// for a mapping with no room past the layout header, of zero size).
pub proof fn lemma_fresh_ring_is_empty(m: Seq<u8>, mapping_bytes: int)
    requires
        LAYOUT_HEADER_BYTES <= mapping_bytes <= m.len(),
        mapping_bytes - LAYOUT_HEADER_BYTES <= u32::MAX,
    ensures
        spec_locate_next_record(seq_write(m, 0, initial_layout(mapping_bytes).spec_encode()))
            == if mapping_bytes == LAYOUT_HEADER_BYTES {
            Err::<(int, int), crate::ring_reader::RingError>(
                crate::ring_reader::RingError::ZeroCapacity,
            )
        } else {
            Err::<(int, int), crate::ring_reader::RingError>(crate::ring_reader::RingError::Empty)
        },
{
    let l = initial_layout(mapping_bytes);
    lemma_layout_encode_len(l);
    lemma_write_inside(m, 0, l.spec_encode());
    l.lemma_roundtrip(seq_write(m, 0, l.spec_encode()), 0);
}

/// A record that does not fit is dropped without touching the ring: every
/// byte past the layout header stays as it was, so the consumer's view of
/// the records is unchanged; only the drop counter moves.
pub proof fn lemma_dropped_record_leaves_ring(
    s: ThubSession,
    h: MemReaderRecordHeader,
    ranges: Seq<MemReaderRangeResult>,
    payload: Seq<u8>,
)
    requires
        s.ring_wf(),
        !spec_push_fits(
            s.ring_capacity_bytes as int,
            s.producer_head as int,
            s.consumer_tail as int,
            h.total_len as int,
        ),
    ensures
        ({
            let m2 = spec_pushed_mapping(
                s.mapping@,
                s.ring_capacity_bytes as int,
                s.producer_head,
                s.consumer_tail,
                s.dropped_records,
                s.next_seq,
                h,
                ranges,
                payload,
            );
            &&& m2.len() == s.mapping@.len()
            &&& m2.subrange(LAYOUT_HEADER_BYTES as int, m2.len() as int) == s.mapping@.subrange(
                LAYOUT_HEADER_BYTES as int,
                s.mapping@.len() as int,
            )
            &&& MemReaderRingLayout::spec_decode(m2, 0).dropped_records == wrapping_inc(
                s.dropped_records,
            )
            &&& MemReaderRingLayout::spec_decode(m2, 0).producer_head == s.producer_head
            &&& MemReaderRingLayout::spec_decode(m2, 0).consumer_tail == s.consumer_tail
        }),
{
    lemma_synced(
        s.mapping@,
        s.ring_capacity_bytes as int,
        s.producer_head,
        s.consumer_tail,
        wrapping_inc(s.dropped_records),
        s.next_seq,
        LAYOUT_HEADER_BYTES as int,
        s.mapping@.len() as int,
    );
}

/// The bytes of a ring of `cap` bytes that the consumer has yet to read:
/// those from the consumer tail up to the producer head, round the end.
pub open spec fn ring_used(cap: int, head: int, tail: int) -> int {
    if head >= tail {
        head - tail
    } else {
        cap - tail + head
    }
}

proof fn lemma_byte_outside_write(s: Seq<u8>, off: int, src: Seq<u8>, q: int)
    requires
        0 <= off,
        off + src.len() <= s.len(),
        0 <= q < s.len(),
        q < off || off + src.len() <= q,
    ensures
        seq_write(s, off, src)[q] == s[q],
        seq_write(s, off, src).len() == s.len(),
{
    lemma_write_outside(s, off, src, q, q + 1);
    assert(seq_write(s, off, src)[q] == seq_write(s, off, src).subrange(q, q + 1)[0]);
}

proof fn lemma_byte_synced(m: Seq<u8>, cap: int, head: u64, tail: u64, d: u64, q: u64, at: int)
    requires
        m.len() >= LAYOUT_HEADER_BYTES,
        LAYOUT_HEADER_BYTES <= at < m.len(),
    ensures
        spec_synced(m, cap, head, tail, d, q)[at] == m[at],
        spec_synced(m, cap, head, tail, d, q).len() == m.len(),
{
    lemma_synced(m, cap, head, tail, d, q, at, at + 1);
    assert(spec_synced(m, cap, head, tail, d, q)[at] == spec_synced(m, cap, head, tail, d, q).subrange(at, at + 1)[0]);
}

/// Pushing a record, accepted or dropped, writes no byte that the consumer
/// has yet to read: each of the bytes from the consumer tail up to the
/// producer head, round the end of the ring, is as it was.
pub proof fn lemma_push_keeps_unconsumed_bytes(
    m: Seq<u8>,
    cap: int,
    head: u64,
    tail: u64,
    dropped: u64,
    seq: u64,
    h: MemReaderRecordHeader,
    ranges: Seq<MemReaderRangeResult>,
    payload: Seq<u8>,
    d: int,
)
    requires
        0 < cap,
        head < cap,
        tail < cap,
        m.len() >= LAYOUT_HEADER_BYTES + cap,
        h.range_count <= ranges.len(),
        h.payload_bytes <= payload.len(),
        RECORD_HEADER_BYTES + RANGE_RESULT_BYTES * h.range_count + h.payload_bytes <= h.total_len,
        0 <= d < ring_used(cap, head as int, tail as int),
    ensures
        spec_pushed_mapping(m, cap, head, tail, dropped, seq, h, ranges, payload)[LAYOUT_HEADER_BYTES + (tail
            + d) % cap] == m[LAYOUT_HEADER_BYTES + (tail + d) % cap],
{
    let x = tail + d;
    let q: int = if x < cap { x } else { x - cap };
    if x < cap {
        vstd::arithmetic::div_mod::lemma_fundamental_div_mod_converse(x, cap, 0, x);
    } else {
        vstd::arithmetic::div_mod::lemma_fundamental_div_mod_converse(x, cap, 1, x - cap);
    }
    assert(x % cap == q);
    let at = LAYOUT_HEADER_BYTES + q;
    let total = h.total_len as int;
    if !spec_push_fits(cap, head as int, tail as int, total) {
        lemma_byte_synced(m, cap, head, tail, wrapping_inc(dropped), seq, at);
    } else {
        lemma_record_image_len(h, ranges, payload);
        let image = record_image(h, ranges, payload);
        let m1 = spec_wrapped_mapping(m, cap, head as int, tail, dropped, seq, total);
        let p = spec_record_start(cap, head as int, total);
        if head + total > cap {
            assert(head >= tail);
            assert(q < head);
            let rem = cap - head;
            if rem >= RECORD_HEADER_BYTES {
                let pad = padding_header(rem as u32).spec_encode();
                lemma_record_image_len(padding_header(rem as u32), Seq::empty(), Seq::empty());
                assert(pad.len() == RECORD_HEADER_BYTES);
                lemma_byte_outside_write(m, LAYOUT_HEADER_BYTES + head, pad, at);
                lemma_byte_synced(seq_write(m, LAYOUT_HEADER_BYTES + head, pad), cap, 0, tail, dropped, seq, at);
            } else {
                lemma_byte_outside_write(m, LAYOUT_HEADER_BYTES + head, zeros(rem), at);
                lemma_byte_synced(seq_write(m, LAYOUT_HEADER_BYTES + head, zeros(rem)), cap, 0, tail, dropped, seq, at);
            }
            assert(m1[at] == m[at]);
            assert(m1.len() == m.len());
            assert(p == 0);
            assert(q >= total);
        } else {
            assert(m1 == m);
            assert(p == head);
            assert(q < head || q >= head + total);
        }
        lemma_byte_outside_write(m1, LAYOUT_HEADER_BYTES + p, image, at);
        lemma_byte_synced(
            seq_write(m1, LAYOUT_HEADER_BYTES + p, image),
            cap,
            ((p + total) % cap) as u64,
            tail,
            dropped,
            wrapping_inc(seq),
            at,
        );
    }
}

/// Where the consumer's walk goes from ring offset `pos` without reaching a
/// record: to the start of the ring where no record header fits before the
/// end (and the producer is not at the start), or past a well-formed padding
/// record; none where the walk stops at `pos`, with a record or an error.
pub open spec fn walk_step(ring: Seq<u8>, cap: int, head: int, pos: int) -> Option<int> {
    if cap - pos < RECORD_HEADER_BYTES {
        if head == 0 {
            None
        } else {
            Some(0)
        }
    } else {
        let h = header_at(ring, pos);
        let total = h.total_len as int;
        if total == 0 || total > cap - pos || (pos + total) % cap == pos || h.kind
            != MEMREADER_RECORD_KIND_PADDING || total < RECORD_HEADER_BYTES {
            None
        } else {
            Some((pos + total) % cap)
        }
    }
}

/// A walk that never leaves the offsets of `trap`, going from padding to
/// padding and round the end, yields no record: from any of them, whatever
/// its step bound, the consumer gets an error. So a ring whose padding
/// records lead back to where the walk has been, or whose size is below a
/// record header, never hands out a record.
pub proof fn lemma_walk_trap_is_error(ring: Seq<u8>, cap: int, head: int, trap: Set<int>, pos: int, fuel: nat)
    requires
        trap.contains(pos),
        forall|p: int| #[trigger] trap.contains(p) ==> (walk_step(ring, cap, head, p) matches Some(next) && trap.contains(
            next,
        )),
    ensures
        spec_walk(ring, cap, head, pos, fuel) is Err,
    decreases fuel,
{
    if fuel > 0 {
        let next = walk_step(ring, cap, head, pos)->0;
        assert(trap.contains(next));
        lemma_walk_trap_is_error(ring, cap, head, trap, next, (fuel - 1) as nat);
    }
}

/// A walk of the ring yields a data record or an error: whatever its step
/// bound, a record it hands out sits where a data record header stands. So a
/// walk that reaches no data record ends in an error.
pub proof fn lemma_walk_yields_data_records(ring: Seq<u8>, cap: int, head: int, pos: int, fuel: nat)
    ensures
        spec_walk(ring, cap, head, pos, fuel) matches Ok((p, next)) ==> header_at(ring, p).kind
            == crate::uapi::MEMREADER_RECORD_KIND_DATA,
    decreases fuel,
{
    if fuel > 0 {
        if cap - pos < RECORD_HEADER_BYTES {
            if head != 0 {
                lemma_walk_yields_data_records(ring, cap, head, 0, (fuel - 1) as nat);
            }
        } else {
            let h = header_at(ring, pos);
            lemma_walk_yields_data_records(ring, cap, head, (pos + h.total_len as int) % cap, (fuel - 1) as nat);
        }
    }
}

/// The next record the consumer gets is a data record: a mapping whose walk
/// reaches none gives an error.
pub proof fn lemma_next_record_is_data(ring: Seq<u8>)
    ensures
        spec_locate_next_record(ring) matches Ok((p, next)) ==> header_at(ring, p).kind
            == crate::uapi::MEMREADER_RECORD_KIND_DATA,
{
    if ring.len() >= LAYOUT_HEADER_BYTES {
        let layout = MemReaderRingLayout::spec_decode(ring, 0);
        lemma_walk_yields_data_records(
            ring,
            layout.capacity_bytes as int,
            layout.producer_head as int,
            layout.consumer_tail as int,
            layout.capacity_bytes as nat,
        );
    }
}

/// An accepted push copies the record, its header, its range results and its
/// payload, one after the other, to where it starts in the ring (the head,
/// or the start of the ring when it does not fit before the end), and the
/// new producer head differs from the consumer tail.
pub proof fn lemma_push_copies_record(
    m: Seq<u8>,
    cap: int,
    head: u64,
    tail: u64,
    dropped: u64,
    seq: u64,
    h: MemReaderRecordHeader,
    ranges: Seq<MemReaderRangeResult>,
    payload: Seq<u8>,
)
    requires
        0 < cap <= u32::MAX,
        head < cap,
        tail < cap,
        m.len() >= LAYOUT_HEADER_BYTES + cap,
        h.range_count <= ranges.len(),
        h.payload_bytes <= payload.len(),
        RECORD_HEADER_BYTES + RANGE_RESULT_BYTES * h.range_count + h.payload_bytes <= h.total_len,
        spec_push_fits(cap, head as int, tail as int, h.total_len as int),
    ensures
        ({
            let total = h.total_len as int;
            let p = spec_record_start(cap, head as int, total);
            let image = record_image(h, ranges, payload);
            &&& spec_pushed_mapping(m, cap, head, tail, dropped, seq, h, ranges, payload).subrange(
                LAYOUT_HEADER_BYTES + p,
                LAYOUT_HEADER_BYTES + p + image.len(),
            ) == image
            &&& spec_pushed_head(cap, head as int, total) != tail
        }),
{
    let total = h.total_len as int;
    let p = spec_record_start(cap, head as int, total);
    lemma_record_image_len(h, ranges, payload);
    let image = record_image(h, ranges, payload);
    let m1 = spec_wrapped_mapping(m, cap, head as int, tail, dropped, seq, total);
    if head + total > cap {
        let rem = cap - head;
        if rem >= RECORD_HEADER_BYTES {
            let pad = padding_header(rem as u32).spec_encode();
            lemma_record_image_len(padding_header(rem as u32), Seq::empty(), Seq::empty());
            lemma_write_inside(m, LAYOUT_HEADER_BYTES + head, pad);
            lemma_synced(seq_write(m, LAYOUT_HEADER_BYTES + head, pad), cap, 0, tail, dropped, seq, LAYOUT_HEADER_BYTES as int, LAYOUT_HEADER_BYTES as int);
        } else {
            lemma_write_inside(m, LAYOUT_HEADER_BYTES + head, zeros(rem));
            lemma_synced(seq_write(m, LAYOUT_HEADER_BYTES + head, zeros(rem)), cap, 0, tail, dropped, seq, LAYOUT_HEADER_BYTES as int, LAYOUT_HEADER_BYTES as int);
        }
    }
    assert(m1.len() == m.len());
    let m2 = seq_write(m1, LAYOUT_HEADER_BYTES + p, image);
    lemma_write_inside(m1, LAYOUT_HEADER_BYTES + p, image);
    let next = (p + total) % cap;
    lemma_synced(
        m2,
        cap,
        next as u64,
        tail,
        dropped,
        wrapping_inc(seq),
        LAYOUT_HEADER_BYTES + p,
        LAYOUT_HEADER_BYTES + p + image.len(),
    );
    assert(spec_pushed_mapping(m, cap, head, tail, dropped, seq, h, ranges, payload) == spec_synced(
        m2,
        cap,
        next as u64,
        tail,
        dropped,
        wrapping_inc(seq),
    ));
    let x = p + total;
    assert(x <= cap);
    if x < cap {
        vstd::arithmetic::div_mod::lemma_fundamental_div_mod_converse(x, cap, 0, x);
    } else {
        vstd::arithmetic::div_mod::lemma_fundamental_div_mod_converse(x, cap, 1, 0);
    }
    assert(next != tail);
}

} // verus!
