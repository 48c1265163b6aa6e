use cs2_radar::ring_reader::{decode_next_record_raw, RingError};
use cs2_radar::ring_writer::{
    thub_rust_publish_record, thub_rust_remove_target, thub_rust_session_init,
    thub_rust_upsert_target, ThubSession, ThubTargetSlot, EINVAL_RETURN, RING_FULL_RETURN,
};
use cs2_radar::uapi::{
    MemReaderRangeResult, MemReaderRecordHeader, MemReaderRingLayout, RemoveTargetRequest,
    SubmitReadRequest, TargetSelector, UpsertTargetRequest, MEMREADER_MAX_RANGES_PER_JOB,
    MEMREADER_RECORD_KIND_DATA, MEMREADER_RECORD_KIND_PADDING,
};

fn layout(capacity: usize, tail: usize, head: usize) -> MemReaderRingLayout {
    MemReaderRingLayout {
        capacity_bytes: capacity as u32,
        producer_head: head as u64,
        consumer_tail: tail as u64,
        ..MemReaderRingLayout::default()
    }
}

fn ring_with_record(
    capacity: usize,
    tail: usize,
    head: usize,
    header: MemReaderRecordHeader,
) -> Vec<u8> {
    let mut bytes = layout(capacity, tail, head).encode();
    let header_bytes = bytes.len();
    bytes.resize(header_bytes + capacity, 0);
    if tail < capacity {
        let encoded = header.encode();
        for (i, byte) in encoded.iter().enumerate() {
            if header_bytes + tail + i < bytes.len() {
                bytes[header_bytes + tail + i] = *byte;
            }
        }
    }
    bytes
}

fn data_header(total_len: u32) -> MemReaderRecordHeader {
    MemReaderRecordHeader {
        total_len,
        kind: MEMREADER_RECORD_KIND_DATA,
        ..MemReaderRecordHeader::default()
    }
}

#[test]
fn decode_record_implicitly_wraps_when_tail_has_no_room_for_header() {
    let mut bytes = ring_with_record(128, 0, 56, data_header(56));
    let header_bytes = 80;
    let moved = layout(128, 120, 56).encode();
    bytes[..header_bytes].copy_from_slice(&moved);

    let record = decode_next_record_raw(&bytes).expect("record should decode");
    assert_eq!(record.header.kind, MEMREADER_RECORD_KIND_DATA);
    assert_eq!(record.next_consumer_tail, 56);
    assert_eq!(bytes.len(), header_bytes + 128);
}

#[test]
fn decode_rejects_head_or_tail_outside_capacity() {
    let bytes = ring_with_record(128, 128, 56, data_header(56));
    assert!(decode_next_record_raw(&bytes).is_err());
}

#[test]
fn decode_rejects_zero_length_padding() {
    let bytes = ring_with_record(
        128,
        0,
        56,
        MemReaderRecordHeader {
            total_len: 0,
            kind: MEMREADER_RECORD_KIND_PADDING,
            ..MemReaderRecordHeader::default()
        },
    );
    assert!(decode_next_record_raw(&bytes).is_err());
}

#[test]
fn decode_rejects_record_shorter_than_header() {
    let bytes = ring_with_record(128, 0, 8, data_header(8));
    assert!(decode_next_record_raw(&bytes).is_err());
}

#[test]
fn decode_rejects_range_count_above_uapi_limit() {
    let bytes = ring_with_record(
        512,
        0,
        56,
        MemReaderRecordHeader {
            total_len: 56,
            kind: MEMREADER_RECORD_KIND_DATA,
            range_count: (MEMREADER_MAX_RANGES_PER_JOB + 1) as u32,
            ..MemReaderRecordHeader::default()
        },
    );
    assert!(decode_next_record_raw(&bytes).is_err());
}

#[test]
fn decode_rejects_payload_outside_record_body() {
    let bytes = ring_with_record(
        128,
        0,
        56,
        MemReaderRecordHeader {
            total_len: 56,
            kind: MEMREADER_RECORD_KIND_DATA,
            payload_bytes: 1,
            ..MemReaderRecordHeader::default()
        },
    );
    assert!(decode_next_record_raw(&bytes).is_err());
}

#[test]
fn decode_rejects_record_that_does_not_advance_tail() {
    let bytes = ring_with_record(
        128,
        0,
        56,
        MemReaderRecordHeader {
            total_len: 128,
            kind: MEMREADER_RECORD_KIND_PADDING,
            ..MemReaderRecordHeader::default()
        },
    );
    assert!(decode_next_record_raw(&bytes).is_err());
}

#[test]
fn decode_reports_each_kind_of_corruption() {
    assert_eq!(decode_next_record_raw(&[0u8; 10]).unwrap_err(), RingError::MappingTooShort);
    let empty = ring_with_record(128, 0, 0, data_header(56));
    assert_eq!(decode_next_record_raw(&empty).unwrap_err(), RingError::Empty);
    let zero = ring_with_record(0, 0, 0, data_header(56));
    assert_eq!(decode_next_record_raw(&zero).unwrap_err(), RingError::ZeroCapacity);
    let mut short = ring_with_record(128, 0, 56, data_header(56));
    short.truncate(100);
    assert_eq!(decode_next_record_raw(&short).unwrap_err(), RingError::CapacityExceedsMapping);
    let odd = ring_with_record(
        128,
        0,
        56,
        MemReaderRecordHeader { total_len: 56, kind: 9, ..MemReaderRecordHeader::default() },
    );
    assert_eq!(decode_next_record_raw(&odd).unwrap_err(), RingError::UnexpectedKind(9));
    let outside = ring_with_record(128, 64, 0, data_header(100));
    assert_eq!(
        decode_next_record_raw(&outside).unwrap_err(),
        RingError::RecordExceedsContiguous
    );
}

fn fresh_session(capacity: usize) -> ThubSession {
    let mut session = ThubSession {
        mapping: vec![0u8; 80 + capacity],
        slots: [ThubTargetSlot::default(); 64],
        ring_capacity_bytes: 0,
        producer_head: 0,
        consumer_tail: 0,
        dropped_records: 0,
        next_seq: 0,
    };
    assert_eq!(thub_rust_session_init(&mut session, 80 + capacity), 0);
    session
}

#[test]
fn session_init_rejects_short_mappings() {
    let mut session = ThubSession {
        mapping: vec![0u8; 40],
        slots: [ThubTargetSlot::default(); 64],
        ring_capacity_bytes: 0,
        producer_head: 0,
        consumer_tail: 0,
        dropped_records: 0,
        next_seq: 0,
    };
    assert_eq!(thub_rust_session_init(&mut session, 40), EINVAL_RETURN);
    let fresh = fresh_session(256);
    assert_eq!(fresh.ring_capacity_bytes, 256);
    assert_eq!(decode_next_record_raw(&fresh.mapping).unwrap_err(), RingError::Empty);
}

#[test]
fn published_record_is_read_back() {
    let mut session = fresh_session(1024);
    let mut req = SubmitReadRequest::default();
    req.target_slot = 3;
    req.cookie = 0xDEAD_BEEF;
    req.range_count = 1;
    let ranges = [MemReaderRangeResult {
        remote_addr: 0x1000,
        requested_len: 4,
        bytes_read: 4,
        status: 0,
        reserved0: 0,
    }];
    let payload = [1u8, 2, 3, 4];
    assert_eq!(thub_rust_publish_record(&mut session, &req, 0, 1, &ranges, &payload, 4), 0);

    let record = decode_next_record_raw(&session.mapping).expect("record");
    assert_eq!(record.header.kind, MEMREADER_RECORD_KIND_DATA);
    assert_eq!(record.header.cookie, 0xDEAD_BEEF);
    assert_eq!(record.header.target_slot, 3);
    assert_eq!(record.header.range_count, 1);
    assert_eq!(record.header.payload_bytes, 4);
    assert_eq!(record.ranges.len(), 1);
    assert_eq!(record.ranges[0].remote_addr, 0x1000);
    assert_eq!(record.payload, vec![1, 2, 3, 4]);
    assert_eq!(record.next_consumer_tail, 88);
    assert_eq!(session.next_seq, 1);
}

#[test]
fn publish_counts_a_drop_when_the_ring_is_full() {
    let mut session = fresh_session(64);
    let req = SubmitReadRequest::default();
    let payload = [0u8; 32];
    assert_eq!(thub_rust_publish_record(&mut session, &req, 0, 0, &[], &payload, 32), RING_FULL_RETURN);
    assert_eq!(session.dropped_records, 1);
    assert_eq!(decode_next_record_raw(&session.mapping).unwrap_err(), RingError::Empty);
    assert_eq!(thub_rust_publish_record(&mut session, &req, 0, 2, &[], &payload, 0), EINVAL_RETURN);
}

#[test]
fn target_slots_are_set_and_cleared() {
    let mut session = fresh_session(128);
    let req = UpsertTargetRequest {
        slot: 5,
        flags: 0,
        selector: TargetSelector::host_pid(77, 99),
    };
    assert_eq!(thub_rust_upsert_target(&mut session, &req), 0);
    assert_eq!(session.slots[5].in_use, 1);
    assert_eq!(session.slots[5].selector.host_pid, 77);
    assert_eq!(
        thub_rust_upsert_target(&mut session, &UpsertTargetRequest { slot: 64, ..req }),
        EINVAL_RETURN
    );
    assert_eq!(thub_rust_remove_target(&mut session, &RemoveTargetRequest { slot: 5, reserved0: 0 }), 0);
    assert_eq!(session.slots[5].in_use, 0);
    assert_eq!(
        thub_rust_remove_target(&mut session, &RemoveTargetRequest { slot: 99, reserved0: 0 }),
        EINVAL_RETURN
    );
}

#[test]
fn session_init_accepts_a_ring_larger_than_the_buffer() {
    let mut session = ThubSession {
        mapping: vec![0u8; 200],
        slots: [ThubTargetSlot::default(); 64],
        ring_capacity_bytes: 0,
        producer_head: 5,
        consumer_tail: 3,
        dropped_records: 1,
        next_seq: 9,
    };
    assert_eq!(thub_rust_session_init(&mut session, 80 + 1000), 0);
    assert_eq!(session.ring_capacity_bytes, 1000);
    assert_eq!(session.producer_head, 0);
    assert_eq!(session.consumer_tail, 0);
    assert_eq!(session.dropped_records, 0);
    assert_eq!(session.next_seq, 0);
    let capacity = u32::from_le_bytes([
        session.mapping[8],
        session.mapping[9],
        session.mapping[10],
        session.mapping[11],
    ]);
    assert_eq!(capacity, 1000);
}

#[test]
fn session_init_of_a_mapping_below_the_header_keeps_a_zero_ring() {
    let mut session = ThubSession {
        mapping: vec![0u8; 120],
        slots: [ThubTargetSlot::default(); 64],
        ring_capacity_bytes: 7,
        producer_head: 0,
        consumer_tail: 0,
        dropped_records: 0,
        next_seq: 0,
    };
    assert_eq!(thub_rust_session_init(&mut session, 40), 0);
    assert_eq!(session.ring_capacity_bytes, 0);
}

#[test]
fn padding_records_that_lead_back_give_an_error() {
    let padding = MemReaderRecordHeader {
        total_len: 64,
        kind: MEMREADER_RECORD_KIND_PADDING,
        ..MemReaderRecordHeader::default()
    };
    let mut bytes = ring_with_record(128, 0, 56, padding);
    let encoded = padding.encode();
    let header_bytes = bytes.len() - 128;
    for (i, byte) in encoded.iter().enumerate() {
        bytes[header_bytes + 64 + i] = *byte;
    }
    assert!(decode_next_record_raw(&bytes).is_err());
    let small = ring_with_record(40, 10, 20, data_header(56));
    assert!(decode_next_record_raw(&small).is_err());
}

#[test]
fn publishing_keeps_the_records_not_yet_read() {
    let mut session = fresh_session(1024);
    let mut req = SubmitReadRequest::default();
    req.cookie = 1;
    let first = [7u8; 16];
    assert_eq!(thub_rust_publish_record(&mut session, &req, 0, 0, &[], &first, 16), 0);
    let before = session.mapping[80..80 + 72].to_vec();
    req.cookie = 2;
    let second = [9u8; 16];
    assert_eq!(thub_rust_publish_record(&mut session, &req, 0, 0, &[], &second, 16), 0);
    assert_eq!(session.mapping[80..80 + 72].to_vec(), before);
    let record = decode_next_record_raw(&session.mapping).expect("record");
    assert_eq!(record.header.cookie, 1);
    assert_eq!(record.payload, first.to_vec());
}
