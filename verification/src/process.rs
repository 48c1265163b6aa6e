//! Which process is attached to: the game's process, checked by name.
use vstd::prelude::*;

use crate::client::HostProcessInfo;

verus! {

/// The name of the game's process.
pub const PROCESS_NAME: &'static str = "cs2";

/// Why a process cannot be attached to.
#[derive(Debug, Clone, PartialEq, Eq)]
pub enum AttachError {
    /// The process under `pid` is named `actual`, not `expected`.
    WrongProcess { pid: u32, actual: String, expected: String },
}

/// Checks that the process under `pid`, named `actual`, is the one named
/// `expected`.
pub fn ensure_process_name(pid: u32, actual: &str, expected: &str) -> (r: Result<(), AttachError>)
    ensures
        r is Ok <==> actual@ == expected@,
        r matches Err(AttachError::WrongProcess { pid: p, actual: a, expected: e }) ==> p == pid
            && a@ == actual@ && e@ == expected@,
{
    let actual_text = actual.to_owned();
    let expected_text = expected.to_owned();
    if actual_text == expected_text {
        Ok(())
    } else {
        Err(AttachError::WrongProcess { pid, actual: actual_text, expected: expected_text })
    }
}

/// Whether the game's process has changed since the one at `pid`, started at
/// `start_time_ticks`, was attached: a process found by name under another
/// pid or start time has replaced it; where none is found, `if_not_found`.
pub fn process_changed(
    current: Option<HostProcessInfo>,
    pid: u32,
    start_time_ticks: u64,
    if_not_found: bool,
) -> (r: bool)
    ensures
        r == match current {
            Some(found) => found.pid != pid || found.start_time_ticks != start_time_ticks,
            None => if_not_found,
        },
{
    match current {
        Some(found) => found.pid != pid || found.start_time_ticks != start_time_ticks,
        None => if_not_found,
    }
}

} // verus!
