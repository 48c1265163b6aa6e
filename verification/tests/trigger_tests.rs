use cs2_radar::players::{LocalPlayerRecord, RadarPlayerRecord};
use cs2_radar::launcher::LaunchArgError;
use cs2_radar::trigger::{
    check_local, check_target, env_flag, frame_gate, parse_trigger_args, reader_hz_setting,
    tick_ms, TriggerChecks, TriggerGate, TriggerOutcome, TriggerStep, TRIGGER_USAGE,
};

fn checks() -> TriggerChecks {
    TriggerChecks {
        head_only: false,
        allow_teammates: false,
        flash_check: true,
        scope_check: false,
        velocity_check: true,
    }
}

fn local() -> LocalPlayerRecord {
    LocalPlayerRecord {
        controller: 0x1000,
        pawn: 0x2000,
        health: 100,
        team_num: 3,
        life_state: 0,
        shots_fired: 0,
        deathmatch_immunity: false,
        origin_bits: [0; 3],
        eye_offset_bits: [0; 3],
        view_angles_bits: [0; 2],
        aim_punch_angle_bits: [0; 2],
        velocity_bits: [0; 3],
        flash_duration_bits: 0,
        is_scoped: false,
        crosshair_entity_index: 5,
    }
}

fn target(pawn: usize, team_num: i32) -> RadarPlayerRecord {
    RadarPlayerRecord {
        controller: pawn + 1,
        pawn,
        name: String::from("t"),
        steam_id: 76561198000000000,
        health: 100,
        team_num,
        life_state: 0,
        origin_bits: [0; 3],
        dormant: false,
        deathmatch_immunity: false,
        is_local: false,
    }
}

fn refusal(reason: &'static str, steam: Option<u64>) -> TriggerStep {
    TriggerStep::Decided(TriggerOutcome {
        should_fire: false,
        reason,
        crosshair_entity_index: 5,
        target_steam_id: steam,
    })
}

fn local_reason(l: &LocalPlayerRecord, c: &TriggerChecks, moving: bool) -> Option<&'static str> {
    check_local(c, l, moving).map(|o| {
        assert!(!o.should_fire);
        o.reason
    })
}

#[test]
fn local_checks_come_in_order() {
    let c = checks();
    assert_eq!(local_reason(&local(), &c, false), None);
    let mut l = local();
    l.team_num = 1;
    assert_eq!(local_reason(&l, &c, false), Some("local_wrong_team"));
    let mut l = local();
    l.health = 0;
    assert_eq!(local_reason(&l, &c, false), Some("local_invalid"));
    let mut l = local();
    l.deathmatch_immunity = true;
    assert_eq!(local_reason(&l, &c, false), Some("local_invalid"));
    let mut l = local();
    l.flash_duration_bits = 1.5f32.to_bits();
    assert_eq!(local_reason(&l, &c, false), Some("local_flashed"));
    l.flash_duration_bits = (-1.0f32).to_bits();
    assert_eq!(local_reason(&l, &c, false), None);
    let scoped = TriggerChecks { scope_check: true, ..c };
    assert_eq!(local_reason(&local(), &scoped, false), Some("local_unscoped"));
    assert_eq!(local_reason(&local(), &c, true), Some("local_moving"));
    let mut l = local();
    l.crosshair_entity_index = -1;
    assert_eq!(local_reason(&l, &c, false), Some("crosshair_entity_missing"));
}

#[test]
fn target_checks_decide_fire() {
    let c = checks();
    let l = local();
    let players = vec![target(0x10, 2), target(0x20, 3), target(0x30, 1)];
    assert_eq!(check_target(&c, &l, None, &players), refusal("crosshair_entity_unresolved", None));
    assert_eq!(check_target(&c, &l, Some(0x99), &players), refusal("crosshair_target_not_found", None));
    let steam = Some(76561198000000000);
    assert_eq!(
        check_target(&c, &l, Some(0x10), &players),
        TriggerStep::Decided(TriggerOutcome {
            should_fire: true,
            reason: "fire",
            crosshair_entity_index: 5,
            target_steam_id: steam,
        })
    );
    assert_eq!(check_target(&c, &l, Some(0x20), &players), refusal("target_teammate", steam));
    assert_eq!(check_target(&c, &l, Some(0x30), &players), refusal("target_wrong_team", steam));
    let teammates = TriggerChecks { allow_teammates: true, ..c };
    assert!(matches!(
        check_target(&teammates, &l, Some(0x20), &players),
        TriggerStep::Decided(TriggerOutcome { should_fire: true, .. })
    ));
    let mut dead = players.clone();
    dead[0].health = 0;
    assert_eq!(check_target(&c, &l, Some(0x10), &dead), refusal("target_invalid", steam));
    let head = TriggerChecks { head_only: true, ..c };
    assert_eq!(
        check_target(&head, &l, Some(0x10), &players),
        TriggerStep::CheckHead {
            crosshair_entity_index: 5,
            target_steam_id: 76561198000000000,
            target_pawn: 0x10,
            target_index: 0,
        }
    );
}

#[test]
fn frame_gate_follows_menu_map_and_local() {
    assert_eq!(frame_gate(true, None, true), TriggerGate::MenuOrNoWorld);
    assert_eq!(frame_gate(true, Some(1), true), TriggerGate::MenuOrNoWorld);
    assert_eq!(frame_gate(true, Some(2), true), TriggerGate::Evaluate);
    assert_eq!(frame_gate(false, Some(3), false), TriggerGate::MissingMapName);
    assert_eq!(frame_gate(false, None, true), TriggerGate::LocalPlayerMissing);
    assert_eq!(frame_gate(false, Some(1), true), TriggerGate::Evaluate);
}

#[test]
fn tick_ms_is_the_period_of_the_rate() {
    assert_eq!(tick_ms(0), 1000);
    assert_eq!(tick_ms(1), 1000);
    assert_eq!(tick_ms(120), 8);
    assert_eq!(tick_ms(1000), 1);
    assert_eq!(tick_ms(5000), 1);
}

#[test]
fn env_flag_reads_words_in_any_case() {
    assert!(env_flag(Some("1"), false));
    assert!(env_flag(Some("TRUE"), false));
    assert!(env_flag(Some("Yes"), false));
    assert!(env_flag(Some("on"), false));
    assert!(!env_flag(Some("0"), true));
    assert!(!env_flag(Some(" on"), true));
    assert!(env_flag(None, true));
    assert!(!env_flag(None, false));
}

#[test]
fn reader_rate_is_a_u64_numeral_or_the_default() {
    assert_eq!(reader_hz_setting(None), 120);
    assert_eq!(reader_hz_setting(Some("60")), 60);
    assert_eq!(reader_hz_setting(Some("+250")), 250);
    assert_eq!(reader_hz_setting(Some("0")), 0);
    assert_eq!(reader_hz_setting(Some(" 60")), 120);
    assert_eq!(reader_hz_setting(Some("-5")), 120);
    assert_eq!(reader_hz_setting(Some("")), 120);
    assert_eq!(reader_hz_setting(Some("18446744073709551616")), 120);
    assert_eq!(reader_hz_setting(Some("18446744073709551615")), u64::MAX);
    assert_eq!(tick_ms(reader_hz_setting(Some("0"))), 1000);
}

#[test]
fn trigger_takes_no_arguments() {
    assert_eq!(parse_trigger_args(vec![]), Ok(()));
    assert_eq!(parse_trigger_args(vec!["-h".to_string()]), Err(LaunchArgError::HelpRequested));
    assert_eq!(
        parse_trigger_args(vec!["--fast".to_string(), "--help".to_string()]),
        Err(LaunchArgError::Unsupported { argument: "--fast".to_string() })
    );
    assert!(TRIGGER_USAGE.starts_with("usage:\n  fun-trigger\n"));
}
