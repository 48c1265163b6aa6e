//! The user-space ABI of the memory-reader device: constants, request and
//! response structures, the ring layout and the ioctl request numbers.
use vstd::prelude::*;

verus! {

pub const MEMREADER_UAPI_VERSION: u32 = 3;
pub const MEMREADER_DEVICE_NAME: &'static str = "/dev/memreader";
pub const MEMREADER_MAX_TARGETS: usize = 64;
pub const MEMREADER_MAX_RANGES_PER_JOB: usize = 32;
pub const MEMREADER_DEFAULT_RING_BYTES: usize = 16777216;
pub const MEMREADER_MAX_PAYLOAD_BYTES: usize = 1048576;
pub const MEMREADER_TASK_COMM_BYTES: usize = 16;
pub const MEMREADER_MODULE_PATH_BYTES: usize = 256;
pub const MEMREADER_RECORD_KIND_DATA: u32 = 1;
pub const MEMREADER_RECORD_KIND_PADDING: u32 = 2;

/// Bytes of the ring layout header at the start of the shared mapping.
pub const LAYOUT_HEADER_BYTES: usize = 80;
/// Bytes of one record header inside the ring.
pub const RECORD_HEADER_BYTES: usize = 56;
/// Bytes of one range result inside a record.
pub const RANGE_RESULT_BYTES: usize = 24;

/// Rounds `value` up with the usual power-of-two mask trick.
pub open spec fn spec_align_up(value: int, align: int) -> int {
    ((value + (align - 1)) as usize & !((align - 1) as usize)) as int
}

/// `(value + (align - 1)) & !(align - 1)`; for an alignment of 8 this is the
/// smallest multiple of 8 that is not below `value`.
pub fn align_up(value: usize, align: usize) -> (r: usize)
    requires
        align > 0,
        value + align - 1 <= usize::MAX,
    ensures
        r == spec_align_up(value as int, align as int),
        align == 8 ==> r % 8 == 0 && value <= r < value + 8,
{
    let sum = value + (align - 1);
    let r = sum & !(align - 1);
    if align == 8 {
        assert(sum == value + 7 ==> (sum & !7usize) % 8 == 0 && value <= (sum & !7usize) && (sum
            & !7usize) < value + 8) by (bit_vector);
    }
    r
}

} // verus!

verus! {

/// `record_total_len` as a number: the aligned size of a record.
pub open spec fn spec_record_total_len(range_count: int, payload_bytes: int) -> int {
    let used = RECORD_HEADER_BYTES + RANGE_RESULT_BYTES * range_count + payload_bytes;
    ((used + 7) / 8) * 8
}

/// Total ring bytes of a data record with `range_count` range results and
/// `payload_bytes` payload bytes, rounded up to a multiple of 8.
pub fn record_total_len(range_count: usize, payload_bytes: usize) -> (r: usize)
    requires
        RECORD_HEADER_BYTES + RANGE_RESULT_BYTES * range_count + payload_bytes + 7 <= usize::MAX,
    ensures
        r == spec_record_total_len(range_count as int, payload_bytes as int),
        r % 8 == 0,
        RECORD_HEADER_BYTES + RANGE_RESULT_BYTES * range_count + payload_bytes <= r,
        r < RECORD_HEADER_BYTES + RANGE_RESULT_BYTES * range_count + payload_bytes + 8,
{
    let used = RECORD_HEADER_BYTES + RANGE_RESULT_BYTES * range_count + payload_bytes;
    let r = align_up(used, 8);
    assert(r == ((used + 7) / 8) * 8) by {
        vstd::arithmetic::div_mod::lemma_fundamental_div_mod(r as int, 8);
    }
    r
}

/// Size of the ring layout header.
pub fn layout_header_bytes() -> (r: usize)
    ensures
        r == LAYOUT_HEADER_BYTES,
{
    LAYOUT_HEADER_BYTES
}

/// Size of a record header.
pub fn record_header_bytes() -> (r: usize)
    ensures
        r == RECORD_HEADER_BYTES,
{
    RECORD_HEADER_BYTES
}

/// Size of `range_count` range results.
pub fn range_result_bytes(range_count: usize) -> (r: usize)
    requires
        RANGE_RESULT_BYTES * range_count <= usize::MAX,
    ensures
        r == RANGE_RESULT_BYTES * range_count,
{
    RANGE_RESULT_BYTES * range_count
}

/// Linux `_IOC` request encoding: direction in bits 30..32, size in bits
/// 16..30, type in bits 8..16 and number in bits 0..8.
pub open spec fn spec_ioc(dir: int, ty: int, nr: int, size: int) -> int {
    dir * 0x4000_0000 + size * 0x1_0000 + ty * 0x100 + nr
}

pub const IOC_WRITE: u32 = 1;
pub const IOC_READ: u32 = 2;
pub const MEMREADER_IOC_MAGIC: u32 = 0x54;

/// Builds an ioctl request number from its four fields.
pub fn ioc(dir: u32, ty: u32, nr: u32, size: u32) -> (r: u64)
    ensures
        dir < 4 && ty < 0x100 && nr < 0x100 && size < 0x4000 ==> r == spec_ioc(
            dir as int,
            ty as int,
            nr as int,
            size as int,
        ),
{
    let v: u32 = (dir << 30u32) | (ty << 8u32) | nr | (size << 16u32);
    if dir < 4 && ty < 0x100 && nr < 0x100 && size < 0x4000 {
        assert(dir < 4 && ty < 0x100 && nr < 0x100 && size < 0x4000 ==> ((dir << 30u32) | (ty
            << 8u32) | nr | (size << 16u32)) == dir * 0x4000_0000 + size * 0x1_0000 + ty * 0x100
            + nr) by (bit_vector);
    }
    v as u64
}

/// A read-direction request number for a structure of `size` bytes.
pub fn ior(ty: u32, nr: u32, size: u32) -> (r: u64)
    ensures
        ty < 0x100 && nr < 0x100 && size < 0x4000 ==> r == spec_ioc(
            IOC_READ as int,
            ty as int,
            nr as int,
            size as int,
        ),
{
    ioc(IOC_READ, ty, nr, size)
}

/// A write-direction request number for a structure of `size` bytes.
pub fn iow(ty: u32, nr: u32, size: u32) -> (r: u64)
    ensures
        ty < 0x100 && nr < 0x100 && size < 0x4000 ==> r == spec_ioc(
            IOC_WRITE as int,
            ty as int,
            nr as int,
            size as int,
        ),
{
    ioc(IOC_WRITE, ty, nr, size)
}

/// A read-write request number for a structure of `size` bytes.
pub fn iowr(ty: u32, nr: u32, size: u32) -> (r: u64)
    ensures
        ty < 0x100 && nr < 0x100 && size < 0x4000 ==> r == spec_ioc(
            3,
            ty as int,
            nr as int,
            size as int,
        ),
{
    let dir = IOC_READ | IOC_WRITE;
    assert(2u32 | 1u32 == 3u32) by (bit_vector);
    ioc(dir, ty, nr, size)
}

/// Wire sizes of the request structures, as the kernel side lays them out.
pub const GET_INFO_RESPONSE_BYTES: u32 = 24;
pub const UPSERT_TARGET_REQUEST_BYTES: u32 = 40;
pub const REMOVE_TARGET_REQUEST_BYTES: u32 = 8;
pub const SUBMIT_READ_REQUEST_BYTES: u32 = 536;
pub const ADVANCE_TAIL_REQUEST_BYTES: u32 = 8;
pub const RESOLVE_HOST_PROCESS_REQUEST_BYTES: u32 = 40;
pub const INSPECT_HOST_PROCESS_REQUEST_BYTES: u32 = 32;
pub const LIST_MODULES_REQUEST_BYTES: u32 = 56;

pub const MEMREADER_IOCTL_GET_INFO: u64 = 0x8018_5401;
pub const MEMREADER_IOCTL_UPSERT_TARGET: u64 = 0x4028_5402;
pub const MEMREADER_IOCTL_REMOVE_TARGET: u64 = 0x4008_5403;
pub const MEMREADER_IOCTL_SUBMIT_READ: u64 = 0x4218_5404;
pub const MEMREADER_IOCTL_ADVANCE_TAIL: u64 = 0x4008_5405;
pub const MEMREADER_IOCTL_RESOLVE_HOST_PROCESS: u64 = 0xC028_5406;
pub const MEMREADER_IOCTL_INSPECT_HOST_PROCESS: u64 = 0xC020_5407;
pub const MEMREADER_IOCTL_LIST_MODULES: u64 = 0xC038_5408;

/// Every ioctl request number is the `_IOC` encoding of its direction, the
/// magic, its number and the size of its structure.
pub proof fn ioctl_numbers_follow_ioc_encoding()
    ensures
        MEMREADER_IOCTL_GET_INFO == spec_ioc(2, 0x54, 1, GET_INFO_RESPONSE_BYTES as int),
        MEMREADER_IOCTL_UPSERT_TARGET == spec_ioc(1, 0x54, 2, UPSERT_TARGET_REQUEST_BYTES as int),
        MEMREADER_IOCTL_REMOVE_TARGET == spec_ioc(1, 0x54, 3, REMOVE_TARGET_REQUEST_BYTES as int),
        MEMREADER_IOCTL_SUBMIT_READ == spec_ioc(1, 0x54, 4, SUBMIT_READ_REQUEST_BYTES as int),
        MEMREADER_IOCTL_ADVANCE_TAIL == spec_ioc(1, 0x54, 5, ADVANCE_TAIL_REQUEST_BYTES as int),
        MEMREADER_IOCTL_RESOLVE_HOST_PROCESS == spec_ioc(
            3,
            0x54,
            6,
            RESOLVE_HOST_PROCESS_REQUEST_BYTES as int,
        ),
        MEMREADER_IOCTL_INSPECT_HOST_PROCESS == spec_ioc(
            3,
            0x54,
            7,
            INSPECT_HOST_PROCESS_REQUEST_BYTES as int,
        ),
        MEMREADER_IOCTL_LIST_MODULES == spec_ioc(3, 0x54, 8, LIST_MODULES_REQUEST_BYTES as int),
{
}

#[derive(Clone, Copy, Debug, Eq, PartialEq, Structural)]
pub enum TargetKind {
    Empty,
    HostPid,
    NamespacedPid,
}

impl TargetKind {
    pub open spec fn spec_code(self) -> u32 {
        match self {
            TargetKind::Empty => 0,
            TargetKind::HostPid => 1,
            TargetKind::NamespacedPid => 2,
        }
    }

    /// The number that stands for this kind on the wire.
    pub fn code(self) -> (r: u32)
        ensures
            r == self.spec_code(),
    {
        match self {
            TargetKind::Empty => 0,
            TargetKind::HostPid => 1,
            TargetKind::NamespacedPid => 2,
        }
    }
}

#[derive(Clone, Copy, Debug, Eq, PartialEq, Structural)]
pub enum RangeReadStatus {
    Success,
    Partial,
    Fault,
}

impl RangeReadStatus {
    pub open spec fn spec_code(self) -> u32 {
        match self {
            RangeReadStatus::Success => 0,
            RangeReadStatus::Partial => 1,
            RangeReadStatus::Fault => 2,
        }
    }

    /// The number that stands for this status on the wire.
    pub fn code(self) -> (r: u32)
        ensures
            r == self.spec_code(),
    {
        match self {
            RangeReadStatus::Success => 0,
            RangeReadStatus::Partial => 1,
            RangeReadStatus::Fault => 2,
        }
    }
}

#[derive(Clone, Copy, Debug, Eq, PartialEq, Structural)]
pub enum RecordStatus {
    Success,
    NoTask,
    StartTimeMismatch,
    NoMm,
    PartialRead,
    RingFull,
    BadTargetSlot,
    BadRequest,
    Internal,
}

impl RecordStatus {
    pub open spec fn spec_code(self) -> u32 {
        match self {
            RecordStatus::Success => 0,
            RecordStatus::NoTask => 1,
            RecordStatus::StartTimeMismatch => 2,
            RecordStatus::NoMm => 3,
            RecordStatus::PartialRead => 4,
            RecordStatus::RingFull => 5,
            RecordStatus::BadTargetSlot => 6,
            RecordStatus::BadRequest => 7,
            RecordStatus::Internal => 8,
        }
    }

    /// The number that stands for this status on the wire.
    pub fn code(self) -> (r: u32)
        ensures
            r == self.spec_code(),
    {
        match self {
            RecordStatus::Success => 0,
            RecordStatus::NoTask => 1,
            RecordStatus::StartTimeMismatch => 2,
            RecordStatus::NoMm => 3,
            RecordStatus::PartialRead => 4,
            RecordStatus::RingFull => 5,
            RecordStatus::BadTargetSlot => 6,
            RecordStatus::BadRequest => 7,
            RecordStatus::Internal => 8,
        }
    }
}

#[derive(Clone, Copy, Debug, Default)]
pub struct TargetSelector {
    pub kind: u32,
    pub flags: u32,
    pub host_pid: u32,
    pub pid_in_ns: u32,
    pub container_init_host_pid: u32,
    pub reserved0: u32,
    pub start_time_ticks: u64,
}

impl TargetSelector {
    /// Selects a process by its pid in the host namespace.
    pub fn host_pid(host_pid: u32, start_time_ticks: u64) -> (r: Self)
        ensures
            r == (TargetSelector {
                kind: 1,
                flags: 0,
                host_pid,
                pid_in_ns: 0,
                container_init_host_pid: 0,
                reserved0: 0,
                start_time_ticks,
            }),
    {
        TargetSelector {
            kind: TargetKind::HostPid.code(),
            flags: 0,
            host_pid,
            pid_in_ns: 0,
            container_init_host_pid: 0,
            reserved0: 0,
            start_time_ticks,
        }
    }

    /// Selects a process by its pid inside the namespace of a container whose
    /// init process has host pid `container_init_host_pid`.
    pub fn namespaced(container_init_host_pid: u32, pid_in_ns: u32, start_time_ticks: u64) -> (r:
        Self)
        ensures
            r == (TargetSelector {
                kind: 2,
                flags: 0,
                host_pid: 0,
                pid_in_ns,
                container_init_host_pid,
                reserved0: 0,
                start_time_ticks,
            }),
    {
        TargetSelector {
            kind: TargetKind::NamespacedPid.code(),
            flags: 0,
            host_pid: 0,
            pid_in_ns,
            container_init_host_pid,
            reserved0: 0,
            start_time_ticks,
        }
    }
}

#[derive(Clone, Copy, Debug, Default)]
pub struct UpsertTargetRequest {
    pub slot: u32,
    pub flags: u32,
    pub selector: TargetSelector,
}

#[derive(Clone, Copy, Debug, Default)]
pub struct RemoveTargetRequest {
    pub slot: u32,
    pub reserved0: u32,
}

#[derive(Clone, Copy, Debug, Default)]
pub struct AdvanceTailRequest {
    pub consumer_tail: u64,
}

#[derive(Clone, Copy, Debug, Default)]
pub struct ReadRange {
    pub remote_addr: u64,
    pub len: u32,
    pub reserved0: u32,
}

#[derive(Clone, Copy, Debug)]
pub struct SubmitReadRequest {
    pub target_slot: u32,
    pub flags: u32,
    pub cookie: u64,
    pub range_count: u32,
    pub reserved0: u32,
    pub ranges: [ReadRange; MEMREADER_MAX_RANGES_PER_JOB],
}

impl Default for SubmitReadRequest {
    fn default() -> (r: Self)
        ensures
            r.target_slot == 0 && r.flags == 0 && r.cookie == 0 && r.range_count == 0
                && r.reserved0 == 0,
            forall|i: int|
                0 <= i < 32 ==> (#[trigger] r.ranges@[i]) == (ReadRange {
                    remote_addr: 0,
                    len: 0,
                    reserved0: 0,
                }),
    {
        let empty = ReadRange { remote_addr: 0, len: 0, reserved0: 0 };
        SubmitReadRequest {
            target_slot: 0,
            flags: 0,
            cookie: 0,
            range_count: 0,
            reserved0: 0,
            ranges: [empty; MEMREADER_MAX_RANGES_PER_JOB],
        }
    }
}

#[derive(Clone, Copy, Debug, Default)]
pub struct GetInfoResponse {
    pub uapi_version: u32,
    pub ring_mapping_bytes: u32,
    pub max_targets: u32,
    pub max_ranges_per_job: u32,
    pub max_payload_bytes: u32,
    pub reserved0: u32,
}

#[derive(Clone, Copy, Debug)]
pub struct ResolveHostProcessRequest {
    pub process_name: [u8; MEMREADER_TASK_COMM_BYTES],
    pub match_count: u32,
    pub pid: u32,
    pub reserved0: u32,
    pub start_time_ticks: u64,
}

impl Default for ResolveHostProcessRequest {
    fn default() -> (r: Self)
        ensures
            r.match_count == 0 && r.pid == 0 && r.reserved0 == 0 && r.start_time_ticks == 0,
            forall|i: int| 0 <= i < 16 ==> #[trigger] r.process_name@[i] == 0,
    {
        ResolveHostProcessRequest {
            process_name: [0u8; MEMREADER_TASK_COMM_BYTES],
            match_count: 0,
            pid: 0,
            reserved0: 0,
            start_time_ticks: 0,
        }
    }
}

#[derive(Clone, Copy, Debug)]
pub struct InspectHostProcessRequest {
    pub pid: u32,
    pub reserved0: u32,
    pub process_name: [u8; MEMREADER_TASK_COMM_BYTES],
    pub start_time_ticks: u64,
}

impl Default for InspectHostProcessRequest {
    fn default() -> (r: Self)
        ensures
            r.pid == 0 && r.reserved0 == 0 && r.start_time_ticks == 0,
            forall|i: int| 0 <= i < 16 ==> #[trigger] r.process_name@[i] == 0,
    {
        InspectHostProcessRequest {
            pid: 0,
            reserved0: 0,
            process_name: [0u8; MEMREADER_TASK_COMM_BYTES],
            start_time_ticks: 0,
        }
    }
}

#[derive(Clone, Copy, Debug)]
pub struct ModuleEntry {
    pub base: u64,
    pub end: u64,
    pub file_offset: u64,
    pub perms: [u8; 4],
    pub path_len: u32,
    pub reserved0: u16,
    pub reserved1: u16,
    pub path: [u8; MEMREADER_MODULE_PATH_BYTES],
}

impl Default for ModuleEntry {
    fn default() -> (r: Self)
        ensures
            r.base == 0 && r.end == 0 && r.file_offset == 0 && r.path_len == 0 && r.reserved0
                == 0 && r.reserved1 == 0,
            forall|i: int| 0 <= i < 4 ==> #[trigger] r.perms@[i] == 0,
            forall|i: int| 0 <= i < 256 ==> #[trigger] r.path@[i] == 0,
    {
        ModuleEntry {
            base: 0,
            end: 0,
            file_offset: 0,
            perms: [0u8; 4],
            path_len: 0,
            reserved0: 0,
            reserved1: 0,
            path: [0u8; MEMREADER_MODULE_PATH_BYTES],
        }
    }
}

#[derive(Clone, Copy, Debug, Default)]
pub struct ListModulesRequest {
    pub selector: TargetSelector,
    pub entries_ptr: u64,
    pub capacity: u32,
    pub returned: u32,
    pub total_matches: u32,
    pub reserved0: u32,
}

} // verus!

verus! {

/// The header at the start of the shared ring mapping.
#[derive(Clone, Copy, Debug, Default)]
pub struct MemReaderRingLayout {
    pub uapi_version: u32,
    pub header_bytes: u32,
    pub capacity_bytes: u32,
    pub reserved0: u32,
    pub producer_head: u64,
    pub consumer_tail: u64,
    pub dropped_records: u64,
    pub next_seq: u64,
    pub reserved1: [u64; 4],
}

/// The outcome of one requested range inside a data record.
#[derive(Clone, Copy, Debug, Default)]
pub struct MemReaderRangeResult {
    pub remote_addr: u64,
    pub requested_len: u32,
    pub bytes_read: u32,
    pub status: u32,
    pub reserved0: u32,
}

/// The header of every record in the ring.
#[derive(Clone, Copy, Debug, Default)]
pub struct MemReaderRecordHeader {
    pub total_len: u32,
    pub kind: u32,
    pub seq: u64,
    pub timestamp_ns: u64,
    pub cookie: u64,
    pub target_slot: u32,
    pub status: u32,
    pub range_count: u32,
    pub reserved0: u32,
    pub payload_bytes: u32,
    pub reserved1: u32,
}

} // verus!
