use cs2_radar::snapshot::{
    classify_snapshot, derive_alive, is_gameplay_ready, is_in_map, is_in_menu, is_ready_for_bot,
    LocalVitals, SnapshotPhase, SnapshotSummary,
};

fn view_matrix() -> [f32; 16] {
    let mut matrix = [0.0f32; 16];
    matrix[0] = 1.0;
    matrix
}

fn matrix_present(matrix: Option<[f32; 16]>) -> bool {
    matrix.is_some_and(|m| m.iter().any(|v| v.is_finite() && v.abs() > f32::EPSILON))
}

fn origin_present(origin: Option<[f32; 3]>) -> bool {
    origin.is_some_and(|o| {
        o.iter().all(|v| v.is_finite()) && o.iter().any(|v| v.abs() > f32::EPSILON)
    })
}

fn snapshot(
    map_name: Option<&str>,
    view_matrix: Option<[f32; 16]>,
    health: i32,
    life_state: i32,
    team_num: i32,
    origin: [f32; 3],
) -> SnapshotSummary {
    SnapshotSummary {
        map_name: map_name.map(str::to_owned),
        has_view_matrix: matrix_present(view_matrix),
        has_origin: origin_present(Some(origin)),
        local: Some(LocalVitals {
            health: Some(health),
            life_state: Some(life_state),
            team_num: Some(team_num),
        }),
    }
}

#[test]
fn menu_snapshot_is_detected() {
    let state = classify_snapshot(&snapshot(Some("<empty>"), Some(view_matrix()), 0, 258, 0, [0.0, 0.0, 0.0]));
    assert_eq!(state.phase, SnapshotPhase::Menu);
    assert!(state.is_in_menu);
    assert!(!state.is_in_map);
    assert!(!state.is_alive);
    assert!(!state.is_ready_for_bot);
}

#[test]
fn search_or_spectator_state_is_in_map_but_not_playable() {
    let state = classify_snapshot(&snapshot(
        Some("de_cache"),
        Some(view_matrix()),
        0,
        258,
        0,
        [2456.58, 98.31, 1665.44],
    ));
    assert_eq!(state.phase, SnapshotPhase::InMapNotPlayable);
    assert!(!state.is_in_menu);
    assert!(state.is_in_map);
    assert!(!state.is_alive);
    assert!(!state.is_ready_for_bot);
}

#[test]
fn ct_snapshot_is_ready_for_bot() {
    let snapshot = snapshot(Some("de_cache"), Some(view_matrix()), 100, 256, 3, [689.50, 1060.50, 1700.03]);
    let state = classify_snapshot(&snapshot);
    assert_eq!(state.phase, SnapshotPhase::ReadyForBot);
    assert!(is_in_map(&snapshot));
    assert!(is_ready_for_bot(&snapshot));
    assert!(derive_alive(&snapshot));
}

#[test]
fn t_snapshot_is_ready_for_bot() {
    let snapshot = snapshot(Some("de_cache"), Some(view_matrix()), 100, 256, 2, [2441.50, 214.99, 1740.03]);
    let state = classify_snapshot(&snapshot);
    assert_eq!(state.phase, SnapshotPhase::ReadyForBot);
    assert!(state.is_alive);
    assert!(state.is_ready_for_bot);
}

#[test]
fn dead_or_spectator_state_is_not_alive_even_on_real_map() {
    let snapshot = snapshot(Some("de_cache"), Some(view_matrix()), 0, 258, 1, [2833.08, -105.92, 1608.03]);
    assert!(!derive_alive(&snapshot));
    assert!(is_in_map(&snapshot));
    assert!(!is_ready_for_bot(&snapshot));
    assert!(!is_in_menu(&snapshot));
}

#[test]
fn menu_names_and_missing_parts() {
    for name in [None, Some("  "), Some("maps/<empty>.vpk"), Some(" <empty> ")] {
        let state = classify_snapshot(&SnapshotSummary {
            map_name: name.map(str::to_owned),
            has_view_matrix: true,
            has_origin: true,
            local: None,
        });
        assert_eq!(state.phase, SnapshotPhase::Menu);
    }
    let no_view = SnapshotSummary {
        map_name: Some("de_dust2".to_string()),
        has_view_matrix: false,
        has_origin: true,
        local: Some(LocalVitals { health: Some(50), life_state: Some(256), team_num: Some(2) }),
    };
    let state = classify_snapshot(&no_view);
    assert_eq!(state.phase, SnapshotPhase::Unknown);
    assert!(state.is_alive);
    assert!(!is_gameplay_ready(&no_view));
    assert_eq!(SnapshotPhase::InMapNotPlayable.as_str(), "in_map_not_playable");
    assert_eq!(SnapshotPhase::ReadyForBot.as_str(), "ready_for_bot");
    assert_eq!(SnapshotPhase::Unknown.as_str(), "unknown");
    assert_eq!(SnapshotPhase::Menu.as_str(), "menu");
}
