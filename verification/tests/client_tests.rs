use cs2_radar::client::{
    checked_payload, decode_c_string, decode_module_path, host_process_details,
    host_process_from_match, module_info_from_entry, next_module_capacity, record_status_name,
    write_comm_name, ClientError, HostProcessInfo,
};
use cs2_radar::ring_reader::RawRecord;
use cs2_radar::uapi::{
    InspectHostProcessRequest, MemReaderRecordHeader, ModuleEntry, ResolveHostProcessRequest,
};

#[test]
fn c_strings_stop_at_the_first_nul() {
    assert_eq!(decode_c_string(b"cs2\0junk").unwrap(), "cs2");
    assert_eq!(decode_c_string(b"no-nul").unwrap(), "no-nul");
    assert_eq!(decode_c_string(b"").unwrap(), "");
    assert_eq!(decode_c_string(&[0x66, 0xFF, 0x00]).unwrap(), "f\u{FFFD}");
}

#[test]
fn record_status_names() {
    assert_eq!(record_status_name(0), "ok");
    assert_eq!(record_status_name(4), "partial_read");
    assert_eq!(record_status_name(7), "bad_request");
    assert_eq!(record_status_name(99), "internal");
}

#[test]
fn process_lookup_needs_exactly_one_match() {
    let mut req = ResolveHostProcessRequest::default();
    assert_eq!(host_process_from_match(&req), Err(ClientError::ProcessNotFound));
    req.match_count = 1;
    req.pid = 4242;
    req.start_time_ticks = 99;
    assert_eq!(
        host_process_from_match(&req),
        Ok(HostProcessInfo { pid: 4242, start_time_ticks: 99 })
    );
    req.match_count = 2;
    assert_eq!(host_process_from_match(&req), Err(ClientError::MultipleProcesses));
}

#[test]
fn process_details_decode_the_name() {
    let mut req = InspectHostProcessRequest::default();
    req.process_name[..3].copy_from_slice(b"cs2");
    req.start_time_ticks = 5;
    let details = host_process_details(7, &req);
    assert_eq!(details.pid, 7);
    assert_eq!(details.process_name, "cs2");
    assert_eq!(details.start_time_ticks, 5);
}

#[test]
fn comm_names_are_checked_and_padded() {
    let mut out = [0xAAu8; 16];
    assert_eq!(write_comm_name(&mut out, ""), Err(ClientError::EmptyProcessName));
    assert_eq!(out, [0xAA; 16]);
    assert_eq!(
        write_comm_name(&mut out, "sixteen-chars-xx"),
        Err(ClientError::ProcessNameTooLong)
    );
    assert_eq!(write_comm_name(&mut out, "cs2"), Ok(()));
    let mut expected = [0u8; 16];
    expected[..3].copy_from_slice(b"cs2");
    assert_eq!(out, expected);
}

#[test]
fn module_entries_decode_their_path() {
    let mut entry = ModuleEntry::default();
    entry.base = 0x1000;
    entry.end = 0x2000;
    entry.file_offset = 0x10;
    entry.perms = *b"r-xp";
    entry.path[..12].copy_from_slice(b"/lib/x.so\0zz");
    entry.path_len = 12;
    let info = module_info_from_entry(&entry).unwrap();
    assert_eq!(info.base, 0x1000);
    assert_eq!(info.end, 0x2000);
    assert_eq!(info.file_offset, 0x10);
    assert_eq!(info.perms, "r-xp");
    assert_eq!(info.path, "/lib/x.so");
    entry.path_len = 4;
    assert_eq!(decode_module_path(&entry).unwrap(), "/lib");
    assert_eq!(next_module_capacity(64, 100), Some(100));
    assert_eq!(next_module_capacity(64, 64), None);
}

#[test]
fn payloads_are_checked() {
    let record = |status: u32, payload: Vec<u8>| RawRecord {
        header: MemReaderRecordHeader { status, ..MemReaderRecordHeader::default() },
        ranges: Vec::new(),
        payload,
        next_consumer_tail: 0,
    };
    assert_eq!(checked_payload(record(0, vec![1, 2]), 2), Ok(vec![1, 2]));
    assert_eq!(checked_payload(record(4, vec![1, 2]), 2), Err(ClientError::ReadFailed(4)));
    assert_eq!(checked_payload(record(0, vec![1]), 2), Err(ClientError::PayloadLengthMismatch));
}

#[test]
fn c_strings_stop_at_the_first_nul_and_hold_none() {
    assert_eq!(decode_c_string(b"cs2\0xyz").unwrap(), "cs2");
    assert_eq!(decode_c_string(b"").unwrap(), "");
    assert_eq!(decode_c_string(b"\0abc").unwrap(), "");
    let text = decode_c_string(b"a\xffb\0c").unwrap();
    assert!(!text.contains('\0'));
    assert_eq!(text, "a\u{fffd}b");
}
