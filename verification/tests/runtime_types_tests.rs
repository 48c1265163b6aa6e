use cs2_radar::runtime_types::{
    sanitize_semantic_life_state, sanitize_semantic_team_num, CombatMoveOverlay, FireAction,
    MoveIntent, RuntimeFault, RuntimeFaultKind, RuntimeFaultSeverity, RuntimeFaultSubsystem,
};
use cs2_radar::snapshot_reader::LivePlayerCandidate;

#[test]
fn semantic_team_num_drops_garbage_values() {
    assert_eq!(sanitize_semantic_team_num(Some(0)), Some(0));
    assert_eq!(sanitize_semantic_team_num(Some(2)), Some(2));
    assert_eq!(sanitize_semantic_team_num(Some(3)), Some(3));
    assert_eq!(sanitize_semantic_team_num(Some(100666923)), None);
    assert_eq!(sanitize_semantic_team_num(Some(-7)), None);
}

#[test]
fn semantic_life_state_drops_garbage_values() {
    assert_eq!(sanitize_semantic_life_state(Some(0)), Some(0));
    assert_eq!(sanitize_semantic_life_state(Some(256)), Some(256));
    assert_eq!(sanitize_semantic_life_state(Some(258)), Some(258));
    assert_eq!(sanitize_semantic_life_state(Some(9152)), None);
    assert_eq!(sanitize_semantic_life_state(Some(-1)), None);
}

#[test]
fn sanitizers_keep_absence_and_edges() {
    assert_eq!(sanitize_semantic_team_num(None), None);
    assert_eq!(sanitize_semantic_team_num(Some(4)), None);
    assert_eq!(sanitize_semantic_life_state(None), None);
    assert_eq!(sanitize_semantic_life_state(Some(3)), None);
    assert_eq!(sanitize_semantic_life_state(Some(257)), Some(257));
}

#[test]
fn runtime_defaults_are_the_first_variants() {
    assert_eq!(RuntimeFaultSubsystem::default(), RuntimeFaultSubsystem::Aimer);
    assert_eq!(RuntimeFaultSeverity::default(), RuntimeFaultSeverity::Info);
    assert_eq!(RuntimeFaultKind::default(), RuntimeFaultKind::AimerFireStall);
    assert_eq!(FireAction::default(), FireAction::NoAction);
    assert_eq!(CombatMoveOverlay::default(), CombatMoveOverlay::NoOverlay);
    assert!(!MoveIntent::default().jump);
}

fn candidate(gun_game_immunity: Option<bool>) -> LivePlayerCandidate {
    LivePlayerCandidate {
        health: None,
        team_num: None,
        life_state: None,
        gun_game_immunity,
        origin_bits: [0; 3],
    }
}

#[test]
fn entity_is_not_immune_when_flag_missing() {
    let entity = candidate(None);
    assert!(!entity.is_gungame_immune());
}

#[test]
fn entity_is_not_immune_when_flag_false() {
    let entity = candidate(Some(false));
    assert!(!entity.is_gungame_immune());
}

#[test]
fn entity_reports_gungame_immunity() {
    let entity = candidate(Some(true));
    assert!(entity.is_gungame_immune());
}

#[test]
fn runtime_fault_round_trips_copy_defaults() {
    let fault = RuntimeFault {
        subsystem: RuntimeFaultSubsystem::Aimer,
        severity: RuntimeFaultSeverity::Degraded,
        kind: RuntimeFaultKind::AimerFireStall,
        target_id: Some(7),
        target_idx: None,
        queue_len: None,
        tracking_age_ms: Some(320),
        shots_fired: Some(0),
        aim_punch_mag_deg_bits: Some(0.1f32.to_bits()),
        stall_ms: Some(240),
    };
    let copied = fault;

    assert_eq!(copied.subsystem, RuntimeFaultSubsystem::Aimer);
    assert_eq!(copied.severity, RuntimeFaultSeverity::Degraded);
    assert_eq!(copied.kind, RuntimeFaultKind::AimerFireStall);
    assert_eq!(copied.target_id, Some(7));
    assert_eq!(copied.stall_ms, Some(240));
    assert_eq!(fault, copied);
    assert_eq!(RuntimeFault::default().subsystem, RuntimeFaultSubsystem::Aimer);
}
