use cs2_radar::uapi::{
    align_up, ioc, ior, iow, iowr, layout_header_bytes, range_result_bytes, record_header_bytes,
    record_total_len, MemReaderRecordHeader, MemReaderRingLayout, RecordStatus, TargetSelector,
    MEMREADER_IOCTL_GET_INFO, MEMREADER_IOCTL_INSPECT_HOST_PROCESS, MEMREADER_IOCTL_LIST_MODULES,
    MEMREADER_IOCTL_SUBMIT_READ, MEMREADER_IOC_MAGIC, MEMREADER_MAX_RANGES_PER_JOB,
};

#[test]
fn record_layout_is_stable() {
    assert_eq!(std::mem::size_of::<MemReaderRingLayout>(), 80);
    assert_eq!(std::mem::size_of::<MemReaderRecordHeader>(), 56);
}

#[test]
fn submit_request_range_count_matches_constant() {
    assert_eq!(MEMREADER_MAX_RANGES_PER_JOB, 32);
    assert_eq!(record_total_len(1, 64) % 8, 0);
}

#[test]
fn align_up_rounds_to_the_next_multiple() {
    assert_eq!(align_up(0, 8), 0);
    assert_eq!(align_up(1, 8), 8);
    assert_eq!(align_up(8, 8), 8);
    assert_eq!(align_up(145, 8), 152);
}

#[test]
fn record_total_len_counts_header_ranges_and_payload() {
    assert_eq!(layout_header_bytes(), 80);
    assert_eq!(record_header_bytes(), 56);
    assert_eq!(range_result_bytes(2), 48);
    assert_eq!(record_total_len(0, 0), 56);
    assert_eq!(record_total_len(1, 64), 144);
    assert_eq!(record_total_len(1, 65), 152);
}

#[test]
fn ioctl_numbers_follow_the_linux_encoding() {
    assert_eq!(ior(MEMREADER_IOC_MAGIC, 1, 24), MEMREADER_IOCTL_GET_INFO);
    assert_eq!(iow(MEMREADER_IOC_MAGIC, 4, 536), MEMREADER_IOCTL_SUBMIT_READ);
    assert_eq!(iowr(MEMREADER_IOC_MAGIC, 7, 32), MEMREADER_IOCTL_INSPECT_HOST_PROCESS);
    assert_eq!(iowr(MEMREADER_IOC_MAGIC, 8, 56), MEMREADER_IOCTL_LIST_MODULES);
    assert_eq!(ioc(0, 0x54, 1, 0), 0x5401);
}

#[test]
fn target_selectors_carry_their_kind() {
    let host = TargetSelector::host_pid(4242, 77);
    assert_eq!(host.kind, 1);
    assert_eq!(host.host_pid, 4242);
    assert_eq!(host.start_time_ticks, 77);
    let ns = TargetSelector::namespaced(10, 20, 30);
    assert_eq!(ns.kind, 2);
    assert_eq!(ns.host_pid, 0);
    assert_eq!(ns.container_init_host_pid, 10);
    assert_eq!(ns.pid_in_ns, 20);
    assert_eq!(RecordStatus::PartialRead.code(), 4);
}
