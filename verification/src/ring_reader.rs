//! The consumer side of the record ring: locating and copying out the next
//! data record of a shared mapping, with every corruption check of the
//! original client.
use vstd::prelude::*;

use crate::uapi::{
    MemReaderRangeResult, MemReaderRecordHeader, MemReaderRingLayout, LAYOUT_HEADER_BYTES,
    MEMREADER_MAX_PAYLOAD_BYTES, MEMREADER_MAX_RANGES_PER_JOB, MEMREADER_RECORD_KIND_DATA,
    MEMREADER_RECORD_KIND_PADDING, RANGE_RESULT_BYTES, RECORD_HEADER_BYTES,
};

verus! {

/// Why no record could be taken from the ring.
#[derive(Clone, Copy, Debug, PartialEq, Eq, Structural)]
pub enum RingError {
    /// The mapping is shorter than the layout header.
    MappingTooShort,
    /// The layout announces a ring of zero bytes.
    ZeroCapacity,
    /// The layout announces more ring bytes than the mapping holds.
    CapacityExceedsMapping,
    /// The producer head or the consumer tail lies outside the ring.
    HeadTailOutOfBounds,
    /// There is no unread record.
    Empty,
    /// A record claims a length of zero.
    ZeroLengthRecord,
    /// A record runs past the end of the ring.
    RecordExceedsContiguous,
    /// A record spans the whole ring, so the tail would not move.
    RecordDoesNotAdvance,
    /// A padding record is shorter than a record header.
    PaddingTooShort,
    /// A record of a kind that is neither data nor padding.
    UnexpectedKind(u32),
    /// A data record with more range results than a job may request.
    RangeCountTooLarge,
    /// A data record with a larger payload than a job may request.
    PayloadTooLarge,
    /// A data record whose header, ranges and payload exceed its length.
    BodyExceedsTotal,
    /// Padding records lead round the ring without reaching a data record.
    Cycle,
}

/// A data record copied out of the ring.
#[derive(Debug, Clone)]
pub struct RawRecord {
    pub header: MemReaderRecordHeader,
    pub ranges: Vec<MemReaderRangeResult>,
    pub payload: Vec<u8>,
    pub next_consumer_tail: u64,
}

/// The record header stored at ring offset `pos`.
pub open spec fn header_at(ring: Seq<u8>, pos: int) -> MemReaderRecordHeader {
    MemReaderRecordHeader::spec_decode(ring, LAYOUT_HEADER_BYTES + pos)
}

/// Follows the ring from `tail`, skipping padding and wrapping where fewer
/// bytes than a record header remain, for at most `fuel` steps; on success
/// gives the ring offset of the data record and the tail after it.
pub open spec fn spec_walk(ring: Seq<u8>, cap: int, head: int, tail: int, fuel: nat) -> Result<
    (int, int),
    RingError,
>
    decreases fuel,
{
    if fuel == 0 {
        Err(RingError::Cycle)
    } else if cap - tail < RECORD_HEADER_BYTES {
        if head == 0 {
            Err(RingError::Empty)
        } else {
            spec_walk(ring, cap, head, 0, (fuel - 1) as nat)
        }
    } else {
        let h = header_at(ring, tail);
        let total = h.total_len as int;
        if total == 0 {
            Err(RingError::ZeroLengthRecord)
        } else if total > cap - tail {
            Err(RingError::RecordExceedsContiguous)
        } else if (tail + total) % cap == tail {
            Err(RingError::RecordDoesNotAdvance)
        } else if h.kind == MEMREADER_RECORD_KIND_PADDING {
            if total < RECORD_HEADER_BYTES {
                Err(RingError::PaddingTooShort)
            } else {
                spec_walk(ring, cap, head, (tail + total) % cap, (fuel - 1) as nat)
            }
        } else if h.kind != MEMREADER_RECORD_KIND_DATA {
            Err(RingError::UnexpectedKind(h.kind))
        } else if h.range_count > MEMREADER_MAX_RANGES_PER_JOB {
            Err(RingError::RangeCountTooLarge)
        } else if h.payload_bytes > MEMREADER_MAX_PAYLOAD_BYTES {
            Err(RingError::PayloadTooLarge)
        } else if RECORD_HEADER_BYTES + RANGE_RESULT_BYTES * h.range_count + h.payload_bytes
            > total {
            Err(RingError::BodyExceedsTotal)
        } else {
            Ok((tail, (tail + total) % cap))
        }
    }
}

/// Where the next data record of the mapping `ring` starts and where the
/// consumer tail goes after it, or why there is none. A walk that has not
/// found a data record after as many steps as the ring has bytes has entered
/// a cycle of padding records.
pub open spec fn spec_locate_next_record(ring: Seq<u8>) -> Result<(int, int), RingError> {
    if ring.len() < LAYOUT_HEADER_BYTES {
        Err(RingError::MappingTooShort)
    } else {
        let layout = MemReaderRingLayout::spec_decode(ring, 0);
        let cap = layout.capacity_bytes as int;
        let tail = layout.consumer_tail as int;
        let head = layout.producer_head as int;
        if cap == 0 {
            Err(RingError::ZeroCapacity)
        } else if cap > ring.len() - LAYOUT_HEADER_BYTES {
            Err(RingError::CapacityExceedsMapping)
        } else if tail >= cap || head >= cap {
            Err(RingError::HeadTailOutOfBounds)
        } else if tail == head {
            Err(RingError::Empty)
        } else {
            spec_walk(ring, cap, head, tail, cap as nat)
        }
    }
}

/// The `count` range results that follow the record header at ring offset `pos`.
pub open spec fn ranges_at(ring: Seq<u8>, pos: int, count: int) -> Seq<MemReaderRangeResult> {
    Seq::new(
        count as nat,
        |i: int|
            MemReaderRangeResult::spec_decode(
                ring,
                LAYOUT_HEADER_BYTES + pos + RECORD_HEADER_BYTES + RANGE_RESULT_BYTES * i,
            ),
    )
}

/// The payload of the data record at ring offset `pos`.
pub open spec fn payload_at(ring: Seq<u8>, pos: int, h: MemReaderRecordHeader) -> Seq<u8> {
    let start = LAYOUT_HEADER_BYTES + pos + RECORD_HEADER_BYTES + RANGE_RESULT_BYTES
        * h.range_count;
    ring.subrange(start, start + h.payload_bytes)
}

/// `rec` is the copy of the data record at ring offset `pos`, with the
/// consumer tail `next` after it.
pub open spec fn record_matches(rec: RawRecord, ring: Seq<u8>, pos: int, next: int) -> bool {
    let h = header_at(ring, pos);
    &&& rec.header == h
    &&& rec.ranges@ == ranges_at(ring, pos, h.range_count as int)
    &&& rec.payload@ == payload_at(ring, pos, h)
    &&& rec.next_consumer_tail == next
}

/// Takes the next data record out of the shared mapping `ring` (layout
/// header followed by the ring bytes): skips padding records, wraps where
/// fewer bytes than a record header remain before the end, rejects every
/// corrupt layout or record, and copies the header, range results and
/// payload of the first data record it reaches.
pub fn decode_next_record_raw(ring: &[u8]) -> (r: Result<RawRecord, RingError>)
    ensures
        match r {
            Ok(rec) => match spec_locate_next_record(ring@) {
                Ok((pos, next)) => record_matches(rec, ring@, pos, next),
                Err(_) => false,
            },
            Err(e) => spec_locate_next_record(ring@) == Err::<(int, int), RingError>(e),
        },
{
    let mapping_bytes = ring.len();
    if mapping_bytes < LAYOUT_HEADER_BYTES {
        return Err(RingError::MappingTooShort);
    }
    let layout = MemReaderRingLayout::decode(ring, 0);
    let capacity = layout.capacity_bytes as usize;
    if capacity == 0 {
        return Err(RingError::ZeroCapacity);
    }
    if capacity > mapping_bytes - LAYOUT_HEADER_BYTES {
        return Err(RingError::CapacityExceedsMapping);
    }
    let tail_raw = layout.consumer_tail;
    let head_raw = layout.producer_head;
    if tail_raw >= capacity as u64 || head_raw >= capacity as u64 {
        return Err(RingError::HeadTailOutOfBounds);
    }
    let mut tail = tail_raw as usize;
    let head = head_raw as usize;
    if tail == head {
        return Err(RingError::Empty);
    }
    let ghost cap = capacity as int;
    let mut fuel = capacity;
    while fuel > 0
        invariant
            mapping_bytes == ring@.len(),
            0 < capacity <= mapping_bytes - LAYOUT_HEADER_BYTES,
            cap == capacity,
            tail < capacity,
            head < capacity,
            fuel <= capacity,
            spec_locate_next_record(ring@) == spec_walk(
                ring@,
                cap,
                head as int,
                tail as int,
                fuel as nat,
            ),
        decreases fuel,
    {
        let contiguous = capacity - tail;
        if contiguous < RECORD_HEADER_BYTES {
            tail = 0;
            if tail == head {
                return Err(RingError::Empty);
            }
            fuel = fuel - 1;
            continue;
        }
        let header = MemReaderRecordHeader::decode(ring, LAYOUT_HEADER_BYTES + tail);
        let total_len = header.total_len as usize;
        if total_len == 0 {
            return Err(RingError::ZeroLengthRecord);
        }
        if total_len > contiguous {
            return Err(RingError::RecordExceedsContiguous);
        }
        let next_tail = (tail + total_len) % capacity;
        if next_tail == tail {
            return Err(RingError::RecordDoesNotAdvance);
        }
        if header.kind == MEMREADER_RECORD_KIND_PADDING {
            if total_len < RECORD_HEADER_BYTES {
                return Err(RingError::PaddingTooShort);
            }
            tail = next_tail;
            fuel = fuel - 1;
            continue;
        }
        if header.kind != MEMREADER_RECORD_KIND_DATA {
            return Err(RingError::UnexpectedKind(header.kind));
        }
        let range_count = header.range_count as usize;
        if range_count > MEMREADER_MAX_RANGES_PER_JOB {
            return Err(RingError::RangeCountTooLarge);
        }
        let payload_bytes = header.payload_bytes as usize;
        if payload_bytes > MEMREADER_MAX_PAYLOAD_BYTES {
            return Err(RingError::PayloadTooLarge);
        }
        let ranges_len = RANGE_RESULT_BYTES * range_count;
        let used_len = RECORD_HEADER_BYTES + ranges_len + payload_bytes;
        if used_len > total_len {
            return Err(RingError::BodyExceedsTotal);
        }
        let ranges_start = LAYOUT_HEADER_BYTES + tail + RECORD_HEADER_BYTES;
        let mut ranges: Vec<MemReaderRangeResult> = Vec::new();
        let mut i: usize = 0;
        while i < range_count
            invariant
                mapping_bytes == ring@.len(),
                ranges_start == LAYOUT_HEADER_BYTES + tail + RECORD_HEADER_BYTES,
                ranges_start + RANGE_RESULT_BYTES * range_count <= mapping_bytes,
                range_count <= MEMREADER_MAX_RANGES_PER_JOB,
                0 <= i <= range_count,
                ranges@ =~= ranges_at(ring@, tail as int, range_count as int).take(i as int),
            decreases range_count - i,
        {
            let item = MemReaderRangeResult::decode(ring, ranges_start + RANGE_RESULT_BYTES * i);
            ranges.push(item);
            i = i + 1;
        }
        let payload_start = ranges_start + ranges_len;
        let payload = vstd::slice::slice_to_vec(
            vstd::slice::slice_subrange(ring, payload_start, payload_start + payload_bytes),
        );
        assert(ranges@ =~= ranges_at(ring@, tail as int, range_count as int));
        return Ok(
            RawRecord { header, ranges, payload, next_consumer_tail: next_tail as u64 },
        );
    }
    Err(RingError::Cycle)
}

} // verus!
