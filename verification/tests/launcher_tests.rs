use cs2_radar::launcher::{parse_args_from, usage, LaunchArgError};

#[test]
fn usage_no_longer_mentions_mouse_transform() {
    assert!(!usage().contains("--mouse-transform"));
}

#[test]
fn parse_args_accepts_empty() {
    assert!(parse_args_from(Vec::<String>::new()).is_ok());
}

#[test]
fn parse_args_accepts_only_the_game() {
    assert!(parse_args_from(vec!["cs2".to_string(), "cs2".to_string()]).is_ok());
    assert_eq!(parse_args_from(vec!["-h".to_string()]), Err(LaunchArgError::HelpRequested));
    assert_eq!(
        parse_args_from(vec!["cs2".to_string(), "dota2".to_string(), "--help".to_string()]),
        Err(LaunchArgError::Unsupported { argument: "dota2".to_string() })
    );
    assert!(usage().starts_with("usage:\n  fun [cs2]"));
}
