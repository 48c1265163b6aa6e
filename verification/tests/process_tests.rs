use cs2_radar::client::HostProcessInfo;
use cs2_radar::process::{ensure_process_name, process_changed, AttachError, PROCESS_NAME};

#[test]
fn process_name_must_match() {
    assert_eq!(ensure_process_name(10, "cs2", PROCESS_NAME), Ok(()));
    assert_eq!(
        ensure_process_name(10, "steam", "cs2"),
        Err(AttachError::WrongProcess {
            pid: 10,
            actual: "steam".to_string(),
            expected: "cs2".to_string(),
        })
    );
}

#[test]
fn a_new_pid_or_start_time_is_a_change() {
    let same = HostProcessInfo { pid: 5, start_time_ticks: 99 };
    assert!(!process_changed(Some(same.clone()), 5, 99, true));
    assert!(process_changed(Some(same.clone()), 6, 99, false));
    assert!(process_changed(Some(same), 5, 98, false));
    assert!(process_changed(None, 5, 99, true));
    assert!(!process_changed(None, 5, 99, false));
}
