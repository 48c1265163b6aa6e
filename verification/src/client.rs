//! Pure parts of the memory-reader client: decoding the fixed-size text
//! fields the kernel fills in, checking read results, and interpreting the
//! answers of the process and module queries.
use vstd::prelude::*;
use vstd::string::StringSliceAdditionalSpecFns;

use crate::ring_reader::RawRecord;
use crate::text::{all_ascii, ascii_chars, c_string_from_bytes, c_string_text, first_nul, lossy_utf8, utf8_lossy};
use crate::uapi::{
    InspectHostProcessRequest, ModuleEntry, ResolveHostProcessRequest,
    MEMREADER_MODULE_PATH_BYTES, MEMREADER_TASK_COMM_BYTES,
};

verus! {

pub const DEFAULT_TARGET_SLOT: u32 = 0;

/// A host process found by name.
#[derive(Debug, Clone, Copy, PartialEq, Eq, Structural)]
pub struct HostProcessInfo {
    pub pid: u32,
    pub start_time_ticks: u64,
}

/// A host process as the kernel describes it.
#[derive(Debug, Clone, PartialEq, Eq)]
pub struct HostProcessDetails {
    pub pid: u32,
    pub process_name: String,
    pub start_time_ticks: u64,
}

/// One mapping of a process's address space.
#[derive(Debug, Clone, PartialEq, Eq)]
pub struct MemReaderModuleInfo {
    pub base: usize,
    pub end: usize,
    pub file_offset: usize,
    pub perms: String,
    pub path: String,
}

/// Errors of the client's own checks.
#[derive(Debug, Clone, Copy, PartialEq, Eq, Structural)]
pub enum ClientError {
    /// A process name to resolve is empty.
    EmptyProcessName,
    /// A process name does not fit the kernel's command-name field.
    ProcessNameTooLong,
    /// No process of that name runs.
    ProcessNotFound,
    /// Several processes of that name run.
    MultipleProcesses,
    /// A read record carries a status other than success.
    ReadFailed(u32),
    /// A read record's payload is not as long as requested.
    PayloadLengthMismatch,
    /// A string read with a maximal length of zero.
    ZeroMaxLen,
}

/// The name of a record status.
pub open spec fn spec_record_status_name(status: u32) -> &'static str {
    if status == 0 {
        "ok"
    } else if status == 1 {
        "no_task"
    } else if status == 2 {
        "start_time_mismatch"
    } else if status == 3 {
        "no_mm"
    } else if status == 4 {
        "partial_read"
    } else if status == 5 {
        "ring_full"
    } else if status == 6 {
        "bad_target_slot"
    } else if status == 7 {
        "bad_request"
    } else {
        "internal"
    }
}

/// Names a record status; unknown numbers name the internal error.
pub fn record_status_name(status: u32) -> (r: &'static str)
    ensures
        r == spec_record_status_name(status),
{
    if status == 0 {
        "ok"
    } else if status == 1 {
        "no_task"
    } else if status == 2 {
        "start_time_mismatch"
    } else if status == 3 {
        "no_mm"
    } else if status == 4 {
        "partial_read"
    } else if status == 5 {
        "ring_full"
    } else if status == 6 {
        "bad_target_slot"
    } else if status == 7 {
        "bad_request"
    } else {
        "internal"
    }
}

/// Decodes a NUL-terminated string; never fails. The text is the lossy
/// decoding of the bytes before the first zero byte and holds no NUL; ASCII
/// bytes give their characters one for one.
pub fn decode_c_string(raw: &[u8]) -> (r: Result<String, ClientError>)
    ensures
        r matches Ok(s) && s@ == c_string_text(raw@),
        r matches Ok(s) ==> forall|j: int| 0 <= j < s@.len() ==> #[trigger] s@[j] != '\0',
        r matches Ok(s) ==> (all_ascii(raw@.take(first_nul(raw@))) ==> s@ == ascii_chars(
            raw@.take(first_nul(raw@)),
        )),
{
    Ok(c_string_from_bytes(raw))
}

/// Decodes a fixed-size, NUL-padded name field.
pub fn decode_fixed_string(raw: &[u8]) -> (s: String)
    ensures
        s@ == c_string_text(raw@),
{
    c_string_from_bytes(raw)
}

/// Decodes the four permission characters of a mapping (such as `r-xp`).
pub fn decode_perms(raw: &[u8; 4]) -> (s: String)
    ensures
        s@ == utf8_lossy(raw@),
{
    lossy_utf8(raw.as_slice())
}

/// Decodes the path of a module entry: the first `path_len` bytes of the path
/// field (all of it when `path_len` is larger), up to the first zero byte.
pub fn decode_module_path(entry: &ModuleEntry) -> (r: Result<String, ClientError>)
    ensures
        r matches Ok(s) && s@ == c_string_text(
            entry.path@.take(
                if entry.path_len <= MEMREADER_MODULE_PATH_BYTES {
                    entry.path_len as int
                } else {
                    MEMREADER_MODULE_PATH_BYTES as int
                },
            ),
        ),
{
    let len = if (entry.path_len as usize) < MEMREADER_MODULE_PATH_BYTES {
        entry.path_len as usize
    } else {
        MEMREADER_MODULE_PATH_BYTES
    };
    let part = vstd::slice::slice_subrange(entry.path.as_slice(), 0, len);
    proof {
        assert(part@ =~= entry.path@.take(len as int));
    }
    decode_c_string(part)
}

/// The mapping described by a module entry.
pub fn module_info_from_entry(entry: &ModuleEntry) -> (r: Result<MemReaderModuleInfo, ClientError>)
    ensures
        r matches Ok(info) && info.base == entry.base as usize && info.end == entry.end as usize
            && info.file_offset == entry.file_offset as usize && info.perms@ == utf8_lossy(
            entry.perms@,
        ) && info.path@ == c_string_text(
            entry.path@.take(
                if entry.path_len <= MEMREADER_MODULE_PATH_BYTES {
                    entry.path_len as int
                } else {
                    MEMREADER_MODULE_PATH_BYTES as int
                },
            ),
        ),
{
    let path = match decode_module_path(entry) {
        Ok(p) => p,
        Err(e) => return Err(e),
    };
    Ok(
        MemReaderModuleInfo {
            base: entry.base as usize,
            end: entry.end as usize,
            file_offset: entry.file_offset as usize,
            perms: decode_perms(&entry.perms),
            path,
        },
    )
}

/// When the kernel reports more matching mappings than the buffer held, the
/// size to retry with; `None` when the answer is complete.
pub fn next_module_capacity(capacity: usize, total_matches: u32) -> (r: Option<usize>)
    ensures
        r == if total_matches > capacity {
            Some(total_matches as usize)
        } else {
            None::<usize>
        },
{
    if total_matches as usize > capacity {
        Some(total_matches as usize)
    } else {
        None
    }
}

/// The answer to a lookup by process name: exactly one match is the process,
/// none or several are errors.
pub fn host_process_from_match(req: &ResolveHostProcessRequest) -> (r: Result<
    HostProcessInfo,
    ClientError,
>)
    ensures
        req.match_count == 0 ==> r == Err::<HostProcessInfo, ClientError>(
            ClientError::ProcessNotFound,
        ),
        req.match_count == 1 ==> r == Ok::<HostProcessInfo, ClientError>(
            HostProcessInfo { pid: req.pid, start_time_ticks: req.start_time_ticks },
        ),
        req.match_count > 1 ==> r == Err::<HostProcessInfo, ClientError>(
            ClientError::MultipleProcesses,
        ),
{
    if req.match_count == 0 {
        Err(ClientError::ProcessNotFound)
    } else if req.match_count == 1 {
        Ok(HostProcessInfo { pid: req.pid, start_time_ticks: req.start_time_ticks })
    } else {
        Err(ClientError::MultipleProcesses)
    }
}

/// The description of process `pid` from the kernel's answer.
pub fn host_process_details(pid: u32, req: &InspectHostProcessRequest) -> (r: HostProcessDetails)
    ensures
        r.pid == pid,
        r.process_name@ == c_string_text(req.process_name@),
        r.start_time_ticks == req.start_time_ticks,
{
    HostProcessDetails {
        pid,
        process_name: decode_fixed_string(req.process_name.as_slice()),
        start_time_ticks: req.start_time_ticks,
    }
}

/// Fills the kernel's command-name field with `process_name` followed by zero
/// bytes; an empty name, or one of 16 bytes or more, is refused and the field
/// left as it was.
pub fn write_comm_name(out: &mut [u8; MEMREADER_TASK_COMM_BYTES], process_name: &str) -> (r: Result<
    (),
    ClientError,
>)
    ensures
        process_name.spec_bytes().len() == 0 ==> r == Err::<(), ClientError>(
            ClientError::EmptyProcessName,
        ) && *final(out) == *old(out),
        process_name.spec_bytes().len() >= MEMREADER_TASK_COMM_BYTES ==> r == Err::<(), ClientError>(
            ClientError::ProcessNameTooLong,
        ) && *final(out) == *old(out),
        0 < process_name.spec_bytes().len() < MEMREADER_TASK_COMM_BYTES ==> r is Ok
            && final(out)@ == process_name.spec_bytes() + crate::wire::zeros(
            MEMREADER_TASK_COMM_BYTES - process_name.spec_bytes().len(),
        ),
{
    let bytes = process_name.as_bytes();
    let n = bytes.len();
    if n == 0 {
        return Err(ClientError::EmptyProcessName);
    }
    if n >= MEMREADER_TASK_COMM_BYTES {
        return Err(ClientError::ProcessNameTooLong);
    }
    let mut i: usize = 0;
    while i < MEMREADER_TASK_COMM_BYTES
        invariant
            0 <= i <= MEMREADER_TASK_COMM_BYTES,
            n == bytes@.len(),
            0 < n < MEMREADER_TASK_COMM_BYTES,
            forall|k: int| 0 <= k < i ==> #[trigger] out@[k] == if k < n {
                bytes@[k]
            } else {
                0u8
            },
        decreases MEMREADER_TASK_COMM_BYTES - i,
    {
        if i < n {
            out[i] = bytes[i];
        } else {
            out[i] = 0;
        }
        i = i + 1;
    }
    proof {
        assert(out@ =~= bytes@ + crate::wire::zeros(MEMREADER_TASK_COMM_BYTES - n));
    }
    Ok(())
}

/// The payload of a read record when the read succeeded in full: the record
/// status must be success and the payload exactly `len` bytes long.
pub fn checked_payload(record: RawRecord, len: u32) -> (r: Result<Vec<u8>, ClientError>)
    ensures
        record.header.status != 0 ==> r == Err::<Vec<u8>, ClientError>(
            ClientError::ReadFailed(record.header.status),
        ),
        record.header.status == 0 && record.payload@.len() != len ==> r == Err::<
            Vec<u8>,
            ClientError,
        >(ClientError::PayloadLengthMismatch),
        record.header.status == 0 && record.payload@.len() == len ==> (r matches Ok(bytes)
            && bytes@ == record.payload@),
{
    if record.header.status != 0 {
        return Err(ClientError::ReadFailed(record.header.status));
    }
    let bytes = record.payload;
    if bytes.len() != len as usize {
        return Err(ClientError::PayloadLengthMismatch);
    }
    Ok(bytes)
}

} // verus!
