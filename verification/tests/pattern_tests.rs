use cs2_radar::pattern::{find_matches, parse_pattern, PatternError, PatternToken};

#[test]
fn parses_hex_wildcards_and_gaps() {
    let tokens = parse_pattern("48 8B ? ?? ... c3").expect("pattern");
    assert_eq!(
        tokens,
        vec![
            PatternToken::Exact(0x48),
            PatternToken::Exact(0x8B),
            PatternToken::Any,
            PatternToken::Any,
            PatternToken::Gap,
            PatternToken::Exact(0xC3),
        ]
    );
    assert_eq!(parse_pattern("  \t\n").expect("empty"), Vec::<PatternToken>::new());
    assert_eq!(parse_pattern("+F").expect("signed digit"), vec![PatternToken::Exact(0x0F)]);
}

#[test]
fn refuses_bad_tokens_with_the_first_bad_word() {
    assert_eq!(
        parse_pattern("48 123 zz"),
        Err(PatternError::InvalidToken { token: vec!['1', '2', '3'] })
    );
    assert_eq!(parse_pattern("48 zz 123"), Err(PatternError::InvalidHex { token: vec!['z', 'z'] }));
    assert_eq!(parse_pattern("-1"), Err(PatternError::InvalidHex { token: vec!['-', '1'] }));
    assert_eq!(parse_pattern("é"), Err(PatternError::InvalidHex { token: vec!['é'] }));
}

#[test]
fn finds_exact_and_wildcard_matches_in_order() {
    let bytes = [0x00, 0x48, 0x8B, 0x05, 0x48, 0x8B, 0x06, 0x48];
    let pattern = parse_pattern("48 8B ?").expect("pattern");
    assert_eq!(find_matches(&bytes, &pattern, 10), vec![1, 4]);
    assert_eq!(find_matches(&bytes, &pattern, 1), vec![1]);
    assert_eq!(find_matches(&bytes, &pattern, 0), Vec::<usize>::new());
    assert_eq!(find_matches(&[], &pattern, 5), Vec::<usize>::new());
    assert_eq!(find_matches(&bytes, &[], 5), Vec::<usize>::new());
    assert_eq!(find_matches(&bytes, &[PatternToken::Gap], 5), Vec::<usize>::new());
}

#[test]
fn gaps_allow_up_to_the_maximum_distance() {
    let pattern = parse_pattern("AA ... BB").expect("pattern");
    let mut near = vec![0u8; 200];
    near[10] = 0xAA;
    near[11 + 96] = 0xBB;
    assert_eq!(find_matches(&near, &pattern, 4), vec![10]);
    let mut far = vec![0u8; 200];
    far[10] = 0xAA;
    far[11 + 97] = 0xBB;
    assert_eq!(find_matches(&far, &pattern, 4), Vec::<usize>::new());
}

#[test]
fn interface_list_pattern_parses() {
    let tokens = parse_pattern("48 8B 1D ? ? ? ? 48 85 DB 74 ?").expect("pattern");
    assert_eq!(tokens.len(), 12);
    assert_eq!(tokens[2], PatternToken::Exact(0x1D));
    assert_eq!(tokens[11], PatternToken::Any);
}
