use cs2_radar::mouse_config::{
    parse_binding, parse_mouse_button_key, Command, CommandError, LearnedBinding, MouseButton,
    PersistedConfig,
};
use cs2_radar::mouse_relay::{
    after_backend, backends, device_gone, finish_enable, is_excluded_virtual_device,
    is_keyboard_candidate, is_mouse_candidate, process_event, synthetic_fire, toggle_relay,
    BackendOutcome, ButtonBindingState, KillSwitch, PlayStep, RelayEvent, ToggleSound,
    TriggerDecision, VirtualButtons, EV_KEY, EV_REL, EV_SYN,
};

fn args(list: &[&str]) -> Vec<String> {
    list.iter().map(|a| a.to_string()).collect()
}

const DEFAULT_PATH: &str = "/home/user/.config/fun-mouse/config.toml";

#[test]
fn config_defaults_are_minimal() {
    let Command::Run(cfg) = Command::from_args(Vec::new(), DEFAULT_PATH.to_string()).expect("config")
    else {
        panic!("expected run config");
    };
    assert_eq!(cfg.device_name, "fun-mouse");
    assert!(cfg.config_path.ends_with("config.toml"));
}

#[test]
fn config_parses_device_name() {
    let Command::Run(cfg) =
        Command::from_args(args(&["--device-name", "mfc-mouse"]), DEFAULT_PATH.to_string())
            .expect("config")
    else {
        panic!("expected run config");
    };
    assert_eq!(cfg.device_name, "mfc-mouse");
}

#[test]
fn config_parses_run_config_path() {
    let Command::Run(cfg) =
        Command::from_args(args(&["--config", "/tmp/fun.toml"]), DEFAULT_PATH.to_string())
            .expect("config")
    else {
        panic!("expected run config");
    };
    assert_eq!(cfg.config_path, "/tmp/fun.toml");
}

#[test]
fn config_parses_learn_binding_mode() {
    let Command::LearnBinding(cfg) = Command::from_args(
        args(&["learn-binding", "trigger", "--config", "/tmp/fun.toml"]),
        DEFAULT_PATH.to_string(),
    )
    .expect("config") else {
        panic!("expected learn-binding config");
    };
    assert_eq!(cfg.binding, LearnedBinding::Trigger);
    assert_eq!(cfg.config_path, "/tmp/fun.toml");
}

#[test]
fn config_parses_setup_mode() {
    let Command::Setup(cfg) =
        Command::from_args(args(&["setup", "--config", "/tmp/fun.toml"]), DEFAULT_PATH.to_string())
            .expect("config")
    else {
        panic!("expected setup config");
    };
    assert_eq!(cfg.config_path, "/tmp/fun.toml");
}

#[test]
fn config_refuses_bad_command_lines() {
    let parse = |list: &[&str]| Command::from_args(args(list), DEFAULT_PATH.to_string());
    assert_eq!(parse(&["--config"]), Err(CommandError::MissingValue { flag: "--config" }));
    assert_eq!(
        parse(&["--device-name", "   "]),
        Err(CommandError::EmptyValue { flag: "--device-name" })
    );
    assert_eq!(parse(&["-h"]), Err(CommandError::HelpRequested));
    assert_eq!(
        parse(&["--verbose"]),
        Err(CommandError::UnsupportedArgument { mode: "run", argument: "--verbose".to_string() })
    );
    assert_eq!(parse(&["learn-binding"]), Err(CommandError::MissingBindingName));
    assert_eq!(
        parse(&["learn-binding", " Middle "]),
        Err(CommandError::UnsupportedBinding { name: "middle".to_string() })
    );
    assert_eq!(
        parse(&["setup", "--device-name", "x"]),
        Err(CommandError::UnsupportedArgument {
            mode: "setup",
            argument: "--device-name".to_string()
        })
    );
}

#[test]
fn config_keeps_the_last_value_and_trims_it() {
    let Command::Run(cfg) = Command::from_args(
        args(&["--config", "/a.toml", "--device-name", "  pad  ", "--config", "/b.toml"]),
        DEFAULT_PATH.to_string(),
    )
    .expect("config") else {
        panic!("expected run config");
    };
    assert_eq!(cfg.device_name, "pad");
    assert_eq!(cfg.config_path, "/b.toml");
    let Command::Setup(cfg) =
        Command::from_args(args(&["setup"]), DEFAULT_PATH.to_string()).expect("config")
    else {
        panic!("expected setup config");
    };
    assert_eq!(cfg.config_path, DEFAULT_PATH);
}

#[test]
fn binding_names_parse_in_any_case() {
    assert_eq!(parse_binding("SIDE_A"), Ok(LearnedBinding::SideA));
    assert_eq!(parse_binding(" side-b\t"), Ok(LearnedBinding::SideB));
    assert_eq!("Trigger".parse::<LearnedBinding>(), Ok(LearnedBinding::Trigger));
    assert_eq!(LearnedBinding::SideA.as_str(), "side-a");
    assert_eq!(LearnedBinding::Trigger.as_str(), "trigger");
}

#[test]
fn persisted_config_sets_binding_value() {
    let mut config = PersistedConfig::default();
    config.set_binding(LearnedBinding::Trigger, String::from("BTN_EXTRA"));
    assert_eq!(config.bindings.trigger.as_deref(), Some("BTN_EXTRA"));
    assert_eq!(config.bindings.side_a, None);
    assert_eq!(config.bindings.side_b, None);
}

#[test]
fn parse_mouse_button_key_supports_side_buttons() {
    assert_eq!(parse_mouse_button_key("BTN_SIDE").expect("parse"), MouseButton::Side);
    assert_eq!(parse_mouse_button_key("btn_extra").expect("parse"), MouseButton::Extra);
}

#[test]
fn mouse_button_names_map_to_linux_codes() {
    assert_eq!(parse_mouse_button_key(" btn_left ").expect("parse").code(), 0x110);
    assert_eq!(MouseButton::Extra.code(), 0x114);
    let err = parse_mouse_button_key("btn_forward").unwrap_err();
    assert_eq!(err.name, "BTN_FORWARD");
}

#[test]
fn mouse_candidate_needs_rel_axes_and_left_button() {
    assert!(is_mouse_candidate(true, true, true));
    assert!(!is_mouse_candidate(false, true, true));
    assert!(!is_mouse_candidate(true, false, true));
    assert!(!is_mouse_candidate(true, true, false));
}

#[test]
fn keyboard_candidate_needs_f9_and_keyboard_shape() {
    assert!(is_keyboard_candidate(true, true));
    assert!(!is_keyboard_candidate(true, false));
    assert!(!is_keyboard_candidate(false, true));
}

#[test]
fn excludes_virtual_devices_by_name() {
    assert!(is_excluded_virtual_device("fun-mouse"));
    assert!(is_excluded_virtual_device("ydotoold virtual device"));
    assert!(!is_excluded_virtual_device("Logitech USB Receiver Mouse"));
    assert!(is_excluded_virtual_device("My FUN-Mouse relay"));
}

#[test]
fn kill_switch_toggles_and_disables() {
    let mut switch = KillSwitch::new_enabled();
    assert!(switch.enabled());
    assert!(!switch.toggle());
    assert!(switch.toggle());
    switch.disable();
    assert!(!switch.enabled());
    assert_eq!(ToggleSound::Enabled.beep_count(), 3);
    assert_eq!(ToggleSound::Disabled.beep_count(), 1);
}

#[test]
fn binding_state_counts_presses_and_releases() {
    let mut state = ButtonBindingState::new(0x114);
    assert!(!state.is_down());
    state.observe(0x114, 1);
    state.observe(0x114, 1);
    state.observe(0x113, 1);
    assert_eq!(state.held_count, 2);
    state.observe(0x114, 0);
    assert!(state.is_down());
    state.observe(0x114, 0);
    state.observe(0x114, 0);
    assert_eq!(state.held_count, 0);
    state.observe(0x114, 2);
    assert!(!state.is_down());
    state.observe(0x114, 1);
    state.clear();
    assert!(!state.is_down());
}

fn key(code: u16, value: i32) -> RelayEvent {
    RelayEvent { event_type: EV_KEY, code, value }
}

#[test]
fn events_are_batched_until_the_report_ends() {
    let mut pending = Vec::new();
    let mut binding = Some(ButtonBindingState::new(0x113));
    let motion = RelayEvent { event_type: EV_REL, code: 0x00, value: 5 };
    assert_eq!(process_event(&mut pending, true, motion, &mut binding), None);
    assert_eq!(process_event(&mut pending, true, key(0x113, 1), &mut binding), None);
    assert_eq!(process_event(&mut pending, true, key(0x113, 2), &mut binding), None);
    let other_axis = RelayEvent { event_type: EV_REL, code: 0x09, value: 1 };
    assert_eq!(process_event(&mut pending, true, other_axis, &mut binding), None);
    assert_eq!(pending.len(), 2);
    assert!(binding.unwrap().is_down());
    let report = RelayEvent { event_type: EV_SYN, code: 0, value: 0 };
    let batch = process_event(&mut pending, true, report, &mut binding).expect("batch");
    assert_eq!(batch, vec![motion, key(0x113, 1)]);
    assert!(pending.is_empty());

    assert_eq!(process_event(&mut pending, false, motion, &mut binding), None);
    assert_eq!(process_event(&mut pending, false, key(0x113, 0), &mut binding), None);
    assert!(pending.is_empty());
    assert!(!binding.unwrap().is_down());
    assert_eq!(process_event(&mut pending, false, report, &mut binding), None);
}

#[test]
fn virtual_left_button_follows_physical_and_trigger() {
    let mut buttons = VirtualButtons::new();
    let out = buttons.emit_batch(&[key(0x110, 1), RelayEvent { event_type: EV_REL, code: 0, value: 3 }]);
    assert_eq!(out, vec![RelayEvent { event_type: EV_REL, code: 0, value: 3 }, key(0x110, 1)]);
    assert!(buttons.left_emitted);
    assert_eq!(buttons.set_synthetic_left(true), None);
    assert_eq!(buttons.emit_batch(&[key(0x110, 0)]), Vec::<RelayEvent>::new());
    assert!(buttons.left_emitted);
    assert_eq!(buttons.set_synthetic_left(false), Some(key(0x110, 0)));
    assert!(!buttons.left_emitted);
    assert_eq!(buttons.emit_batch(&[]), Vec::<RelayEvent>::new());

    let out = buttons.emit_batch(&[key(0x111, 1), key(0x113, 1)]);
    assert_eq!(out, vec![key(0x111, 1), key(0x113, 1)]);
    assert_eq!(buttons.set_synthetic_left(true), Some(key(0x110, 1)));
    let releases = buttons.release_pressed_buttons();
    assert_eq!(releases, vec![key(0x110, 0), key(0x111, 0), key(0x113, 0)]);
    assert_eq!(buttons, VirtualButtons::new());
}

#[test]
fn trigger_decision_follows_the_latest_frame() {
    let mut decision = TriggerDecision::disabled();
    assert!(!decision.should_fire());
    decision.record_frame(Some(true));
    assert!(decision.should_fire());
    let held = Some(ButtonBindingState { key: 0x114, held_count: 1 });
    assert!(synthetic_fire(true, &held, &decision));
    assert!(!synthetic_fire(false, &held, &decision));
    assert!(!synthetic_fire(true, &None, &decision));
    decision.record_frame(None);
    assert!(!decision.should_fire());
    assert!(!synthetic_fire(true, &held, &decision));
}

#[test]
fn toggling_off_releases_buttons_and_forgets_the_binding() {
    let mut switch = KillSwitch::new_enabled();
    let mut buttons = VirtualButtons::new();
    buttons.emit_batch(&[key(0x111, 1)]);
    let mut binding = Some(ButtonBindingState { key: 0x114, held_count: 2 });
    let released = toggle_relay(&mut switch, &mut buttons, &mut binding);
    assert_eq!(released, Some(vec![key(0x111, 0)]));
    assert!(!switch.enabled());
    assert_eq!(buttons, VirtualButtons::new());
    assert_eq!(binding, Some(ButtonBindingState { key: 0x114, held_count: 0 }));

    assert_eq!(toggle_relay(&mut switch, &mut buttons, &mut binding), None);
    assert!(!switch.enabled());
    assert_eq!(finish_enable(&mut switch, false), None);
    assert!(!switch.enabled());
    assert_eq!(finish_enable(&mut switch, true), Some(ToggleSound::Enabled));
    assert!(switch.enabled());
}

#[test]
fn sound_players_come_in_order() {
    let with_file = backends(Some("/usr/share/sounds/bell.oga".to_string()));
    let programs: Vec<&str> = with_file.iter().map(|b| b.program).collect();
    assert_eq!(programs, vec!["paplay", "pw-play", "canberra-gtk-play"]);
    assert_eq!(with_file[0].args, vec!["/usr/share/sounds/bell.oga".to_string()]);
    assert_eq!(with_file[2].args, vec!["-i".to_string(), "bell".to_string()]);
    let without = backends(None);
    assert_eq!(without.len(), 1);
    assert_eq!(without[0].program, "canberra-gtk-play");
    assert_eq!(after_backend(BackendOutcome::Played), PlayStep::Done);
    assert_eq!(after_backend(BackendOutcome::NotPlayed), PlayStep::TryNext);
    assert_eq!(after_backend(BackendOutcome::NotFound), PlayStep::TryNext);
    assert_eq!(after_backend(BackendOutcome::Failed), PlayStep::Abort);
}

#[test]
fn gone_devices_are_missing_or_enodev() {
    assert!(device_gone(true, None));
    assert!(device_gone(false, Some(19)));
    assert!(!device_gone(false, Some(5)));
    assert!(!device_gone(false, None));
}
