//! Byte encodings of the ring layout, record headers and range results, with
//! the proof that each decoding reads back what the encoding wrote.
use vstd::prelude::*;
use vstd::bytes::*;

use crate::uapi::{MemReaderRangeResult, MemReaderRecordHeader, MemReaderRingLayout};
use crate::wire::{
    le_u32_at, le_u64_at, lemma_peel, lemma_u32_roundtrip, lemma_u64_roundtrip, push_u32_le, push_u64_le,
    read_u32_le, read_u64_le,
};

verus! {

impl MemReaderRecordHeader {
    /// The 56 bytes of this header.
    pub open spec fn spec_encode(self) -> Seq<u8> {
        spec_u32_to_le_bytes(self.total_len) + spec_u32_to_le_bytes(self.kind)
            + spec_u64_to_le_bytes(self.seq) + spec_u64_to_le_bytes(self.timestamp_ns)
            + spec_u64_to_le_bytes(self.cookie) + spec_u32_to_le_bytes(self.target_slot)
            + spec_u32_to_le_bytes(self.status) + spec_u32_to_le_bytes(self.range_count)
            + spec_u32_to_le_bytes(self.reserved0) + spec_u32_to_le_bytes(self.payload_bytes)
            + spec_u32_to_le_bytes(self.reserved1)
    }

    /// The header stored in the 56 bytes at `off`.
    pub open spec fn spec_decode(s: Seq<u8>, off: int) -> Self {
        MemReaderRecordHeader {
            total_len: le_u32_at(s, off),
            kind: le_u32_at(s, off + 4),
            seq: le_u64_at(s, off + 8),
            timestamp_ns: le_u64_at(s, off + 16),
            cookie: le_u64_at(s, off + 24),
            target_slot: le_u32_at(s, off + 32),
            status: le_u32_at(s, off + 36),
            range_count: le_u32_at(s, off + 40),
            reserved0: le_u32_at(s, off + 44),
            payload_bytes: le_u32_at(s, off + 48),
            reserved1: le_u32_at(s, off + 52),
        }
    }

    /// Encodes this header.
    pub fn encode(&self) -> (out: Vec<u8>)
        ensures
            out@ == self.spec_encode(),
            out@.len() == 56,
    {
        let mut out: Vec<u8> = Vec::new();
        push_u32_le(&mut out, self.total_len);
        push_u32_le(&mut out, self.kind);
        push_u64_le(&mut out, self.seq);
        push_u64_le(&mut out, self.timestamp_ns);
        push_u64_le(&mut out, self.cookie);
        push_u32_le(&mut out, self.target_slot);
        push_u32_le(&mut out, self.status);
        push_u32_le(&mut out, self.range_count);
        push_u32_le(&mut out, self.reserved0);
        push_u32_le(&mut out, self.payload_bytes);
        push_u32_le(&mut out, self.reserved1);
        assert(out@ =~= self.spec_encode());
        out
    }

    /// Decodes the header stored at `off`.
    pub fn decode(s: &[u8], off: usize) -> (h: Self)
        requires
            off + 56 <= s@.len(),
        ensures
            h == Self::spec_decode(s@, off as int),
    {
        let _n = s.len();
        MemReaderRecordHeader {
            total_len: read_u32_le(s, off),
            kind: read_u32_le(s, off + 4),
            seq: read_u64_le(s, off + 8),
            timestamp_ns: read_u64_le(s, off + 16),
            cookie: read_u64_le(s, off + 24),
            target_slot: read_u32_le(s, off + 32),
            status: read_u32_le(s, off + 36),
            range_count: read_u32_le(s, off + 40),
            reserved0: read_u32_le(s, off + 44),
            payload_bytes: read_u32_le(s, off + 48),
            reserved1: read_u32_le(s, off + 52),
        }
    }

    /// A header decoded from its own encoding is the same header.
    pub proof fn lemma_roundtrip(self, s: Seq<u8>, off: int)
        requires
            0 <= off,
            off + 56 <= s.len(),
            s.subrange(off, off + 56) == self.spec_encode(),
        ensures
            Self::spec_decode(s, off) == self,
    {
        lemma_auto_spec_u32_to_from_le_bytes();
        lemma_auto_spec_u64_to_from_le_bytes();
        let x0 = spec_u32_to_le_bytes(self.total_len);
        let x1 = spec_u32_to_le_bytes(self.kind);
        let x2 = spec_u64_to_le_bytes(self.seq);
        let x3 = spec_u64_to_le_bytes(self.timestamp_ns);
        let x4 = spec_u64_to_le_bytes(self.cookie);
        let x5 = spec_u32_to_le_bytes(self.target_slot);
        let x6 = spec_u32_to_le_bytes(self.status);
        let x7 = spec_u32_to_le_bytes(self.range_count);
        let x8 = spec_u32_to_le_bytes(self.reserved0);
        let x9 = spec_u32_to_le_bytes(self.payload_bytes);
        let x10 = spec_u32_to_le_bytes(self.reserved1);
        assert(x0.len() == 4 && x1.len() == 4 && x5.len() == 4 && x6.len() == 4 && x7.len() == 4
            && x8.len() == 4 && x9.len() == 4 && x10.len() == 4);
        assert(x2.len() == 8 && x3.len() == 8 && x4.len() == 8);
        let p1 = x0 + x1;
        let p2 = p1 + x2;
        let p3 = p2 + x3;
        let p4 = p3 + x4;
        let p5 = p4 + x5;
        let p6 = p5 + x6;
        let p7 = p6 + x7;
        let p8 = p7 + x8;
        let p9 = p8 + x9;
        lemma_peel(s, off, p9, x10);
        lemma_peel(s, off, p8, x9);
        lemma_peel(s, off, p7, x8);
        lemma_peel(s, off, p6, x7);
        lemma_peel(s, off, p5, x6);
        lemma_peel(s, off, p4, x5);
        lemma_peel(s, off, p3, x4);
        lemma_peel(s, off, p2, x3);
        lemma_peel(s, off, p1, x2);
        lemma_peel(s, off, x0, x1);
        lemma_u32_roundtrip(s, off, self.total_len);
        lemma_u32_roundtrip(s, off + 4, self.kind);
        lemma_u64_roundtrip(s, off + 8, self.seq);
        lemma_u64_roundtrip(s, off + 16, self.timestamp_ns);
        lemma_u64_roundtrip(s, off + 24, self.cookie);
        lemma_u32_roundtrip(s, off + 32, self.target_slot);
        lemma_u32_roundtrip(s, off + 36, self.status);
        lemma_u32_roundtrip(s, off + 40, self.range_count);
        lemma_u32_roundtrip(s, off + 44, self.reserved0);
        lemma_u32_roundtrip(s, off + 48, self.payload_bytes);
        lemma_u32_roundtrip(s, off + 52, self.reserved1);
    }
}

impl MemReaderRangeResult {
    /// The 24 bytes of this range result.
    pub open spec fn spec_encode(self) -> Seq<u8> {
        spec_u64_to_le_bytes(self.remote_addr) + spec_u32_to_le_bytes(self.requested_len)
            + spec_u32_to_le_bytes(self.bytes_read) + spec_u32_to_le_bytes(self.status)
            + spec_u32_to_le_bytes(self.reserved0)
    }

    /// The range result stored in the 24 bytes at `off`.
    pub open spec fn spec_decode(s: Seq<u8>, off: int) -> Self {
        MemReaderRangeResult {
            remote_addr: le_u64_at(s, off),
            requested_len: le_u32_at(s, off + 8),
            bytes_read: le_u32_at(s, off + 12),
            status: le_u32_at(s, off + 16),
            reserved0: le_u32_at(s, off + 20),
        }
    }

    /// Encodes this range result.
    pub fn encode(&self) -> (out: Vec<u8>)
        ensures
            out@ == self.spec_encode(),
            out@.len() == 24,
    {
        let mut out: Vec<u8> = Vec::new();
        push_u64_le(&mut out, self.remote_addr);
        push_u32_le(&mut out, self.requested_len);
        push_u32_le(&mut out, self.bytes_read);
        push_u32_le(&mut out, self.status);
        push_u32_le(&mut out, self.reserved0);
        assert(out@ =~= self.spec_encode());
        out
    }

    /// Decodes the range result stored at `off`.
    pub fn decode(s: &[u8], off: usize) -> (r: Self)
        requires
            off + 24 <= s@.len(),
        ensures
            r == Self::spec_decode(s@, off as int),
    {
        let _n = s.len();
        MemReaderRangeResult {
            remote_addr: read_u64_le(s, off),
            requested_len: read_u32_le(s, off + 8),
            bytes_read: read_u32_le(s, off + 12),
            status: read_u32_le(s, off + 16),
            reserved0: read_u32_le(s, off + 20),
        }
    }

    /// A range result decoded from its own encoding is the same range result.
    pub proof fn lemma_roundtrip(self, s: Seq<u8>, off: int)
        requires
            0 <= off,
            off + 24 <= s.len(),
            s.subrange(off, off + 24) == self.spec_encode(),
        ensures
            Self::spec_decode(s, off) == self,
    {
        lemma_auto_spec_u32_to_from_le_bytes();
        lemma_auto_spec_u64_to_from_le_bytes();
        let x0 = spec_u64_to_le_bytes(self.remote_addr);
        let x1 = spec_u32_to_le_bytes(self.requested_len);
        let x2 = spec_u32_to_le_bytes(self.bytes_read);
        let x3 = spec_u32_to_le_bytes(self.status);
        let x4 = spec_u32_to_le_bytes(self.reserved0);
        assert(x0.len() == 8 && x1.len() == 4 && x2.len() == 4 && x3.len() == 4 && x4.len()
            == 4);
        let p1 = x0 + x1;
        let p2 = p1 + x2;
        let p3 = p2 + x3;
        lemma_peel(s, off, p3, x4);
        lemma_peel(s, off, p2, x3);
        lemma_peel(s, off, p1, x2);
        lemma_peel(s, off, x0, x1);
        lemma_u64_roundtrip(s, off, self.remote_addr);
        lemma_u32_roundtrip(s, off + 8, self.requested_len);
        lemma_u32_roundtrip(s, off + 12, self.bytes_read);
        lemma_u32_roundtrip(s, off + 16, self.status);
        lemma_u32_roundtrip(s, off + 20, self.reserved0);
    }
}

impl MemReaderRingLayout {
    /// The 80 bytes of this layout header.
    pub open spec fn spec_encode(self) -> Seq<u8> {
        spec_u32_to_le_bytes(self.uapi_version) + spec_u32_to_le_bytes(self.header_bytes)
            + spec_u32_to_le_bytes(self.capacity_bytes) + spec_u32_to_le_bytes(self.reserved0)
            + spec_u64_to_le_bytes(self.producer_head) + spec_u64_to_le_bytes(self.consumer_tail)
            + spec_u64_to_le_bytes(self.dropped_records) + spec_u64_to_le_bytes(self.next_seq)
            + spec_u64_to_le_bytes(self.reserved1[0]) + spec_u64_to_le_bytes(self.reserved1[1])
            + spec_u64_to_le_bytes(self.reserved1[2]) + spec_u64_to_le_bytes(self.reserved1[3])
    }

    /// The layout header stored in the 80 bytes at `off`.
    pub open spec fn spec_decode(s: Seq<u8>, off: int) -> Self {
        MemReaderRingLayout {
            uapi_version: le_u32_at(s, off),
            header_bytes: le_u32_at(s, off + 4),
            capacity_bytes: le_u32_at(s, off + 8),
            reserved0: le_u32_at(s, off + 12),
            producer_head: le_u64_at(s, off + 16),
            consumer_tail: le_u64_at(s, off + 24),
            dropped_records: le_u64_at(s, off + 32),
            next_seq: le_u64_at(s, off + 40),
            reserved1: [
                le_u64_at(s, off + 48),
                le_u64_at(s, off + 56),
                le_u64_at(s, off + 64),
                le_u64_at(s, off + 72),
            ],
        }
    }

    /// Encodes this layout header.
    pub fn encode(&self) -> (out: Vec<u8>)
        ensures
            out@ == self.spec_encode(),
            out@.len() == 80,
    {
        let mut out: Vec<u8> = Vec::new();
        push_u32_le(&mut out, self.uapi_version);
        push_u32_le(&mut out, self.header_bytes);
        push_u32_le(&mut out, self.capacity_bytes);
        push_u32_le(&mut out, self.reserved0);
        push_u64_le(&mut out, self.producer_head);
        push_u64_le(&mut out, self.consumer_tail);
        push_u64_le(&mut out, self.dropped_records);
        push_u64_le(&mut out, self.next_seq);
        push_u64_le(&mut out, self.reserved1[0]);
        push_u64_le(&mut out, self.reserved1[1]);
        push_u64_le(&mut out, self.reserved1[2]);
        push_u64_le(&mut out, self.reserved1[3]);
        assert(out@ =~= self.spec_encode());
        out
    }

    /// Decodes the layout header stored at `off`.
    pub fn decode(s: &[u8], off: usize) -> (r: Self)
        requires
            off + 80 <= s@.len(),
        ensures
            r == Self::spec_decode(s@, off as int),
    {
        let _n = s.len();
        MemReaderRingLayout {
            uapi_version: read_u32_le(s, off),
            header_bytes: read_u32_le(s, off + 4),
            capacity_bytes: read_u32_le(s, off + 8),
            reserved0: read_u32_le(s, off + 12),
            producer_head: read_u64_le(s, off + 16),
            consumer_tail: read_u64_le(s, off + 24),
            dropped_records: read_u64_le(s, off + 32),
            next_seq: read_u64_le(s, off + 40),
            reserved1: [
                read_u64_le(s, off + 48),
                read_u64_le(s, off + 56),
                read_u64_le(s, off + 64),
                read_u64_le(s, off + 72),
            ],
        }
    }

    /// A layout header decoded from its own encoding has the same fields.
    pub proof fn lemma_roundtrip(self, s: Seq<u8>, off: int)
        requires
            0 <= off,
            off + 80 <= s.len(),
            s.subrange(off, off + 80) == self.spec_encode(),
        ensures
            Self::spec_decode(s, off) == self,
    {
        lemma_auto_spec_u32_to_from_le_bytes();
        lemma_auto_spec_u64_to_from_le_bytes();
        let x0 = spec_u32_to_le_bytes(self.uapi_version);
        let x1 = spec_u32_to_le_bytes(self.header_bytes);
        let x2 = spec_u32_to_le_bytes(self.capacity_bytes);
        let x3 = spec_u32_to_le_bytes(self.reserved0);
        let x4 = spec_u64_to_le_bytes(self.producer_head);
        let x5 = spec_u64_to_le_bytes(self.consumer_tail);
        let x6 = spec_u64_to_le_bytes(self.dropped_records);
        let x7 = spec_u64_to_le_bytes(self.next_seq);
        let x8 = spec_u64_to_le_bytes(self.reserved1[0]);
        let x9 = spec_u64_to_le_bytes(self.reserved1[1]);
        let x10 = spec_u64_to_le_bytes(self.reserved1[2]);
        let x11 = spec_u64_to_le_bytes(self.reserved1[3]);
        assert(x0.len() == 4 && x1.len() == 4 && x2.len() == 4 && x3.len() == 4);
        assert(x4.len() == 8 && x5.len() == 8 && x6.len() == 8 && x7.len() == 8 && x8.len() == 8
            && x9.len() == 8 && x10.len() == 8 && x11.len() == 8);
        let p1 = x0 + x1;
        let p2 = p1 + x2;
        let p3 = p2 + x3;
        let p4 = p3 + x4;
        let p5 = p4 + x5;
        let p6 = p5 + x6;
        let p7 = p6 + x7;
        let p8 = p7 + x8;
        let p9 = p8 + x9;
        let p10 = p9 + x10;
        lemma_peel(s, off, p10, x11);
        lemma_peel(s, off, p9, x10);
        lemma_peel(s, off, p8, x9);
        lemma_peel(s, off, p7, x8);
        lemma_peel(s, off, p6, x7);
        lemma_peel(s, off, p5, x6);
        lemma_peel(s, off, p4, x5);
        lemma_peel(s, off, p3, x4);
        lemma_peel(s, off, p2, x3);
        lemma_peel(s, off, p1, x2);
        lemma_peel(s, off, x0, x1);
        lemma_u32_roundtrip(s, off, self.uapi_version);
        lemma_u32_roundtrip(s, off + 4, self.header_bytes);
        lemma_u32_roundtrip(s, off + 8, self.capacity_bytes);
        lemma_u32_roundtrip(s, off + 12, self.reserved0);
        lemma_u64_roundtrip(s, off + 16, self.producer_head);
        lemma_u64_roundtrip(s, off + 24, self.consumer_tail);
        lemma_u64_roundtrip(s, off + 32, self.dropped_records);
        lemma_u64_roundtrip(s, off + 40, self.next_seq);
        lemma_u64_roundtrip(s, off + 48, self.reserved1[0]);
        lemma_u64_roundtrip(s, off + 56, self.reserved1[1]);
        lemma_u64_roundtrip(s, off + 64, self.reserved1[2]);
        lemma_u64_roundtrip(s, off + 72, self.reserved1[3]);
        let d = Self::spec_decode(s, off);
        vstd::array::axiom_array_ext_equal(d.reserved1, self.reserved1);
        assert(d.reserved1 =~= self.reserved1);
    }
}

} // verus!
