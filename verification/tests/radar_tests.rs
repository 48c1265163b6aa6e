use cs2_radar::players::RadarPlayerRecord;
use cs2_radar::radar::{
    compare_pawns, debug_counts, display_name_text, local_team_of, normalize_map_key,
    player_relationship, render_players, select_map, stable_id_text, MapSelection,
    PlayerRelationship,
};

fn player(pawn: usize, team_num: i32, is_local: bool) -> RadarPlayerRecord {
    RadarPlayerRecord {
        controller: pawn + 1,
        pawn,
        name: String::from("p"),
        steam_id: 7,
        health: 100,
        team_num,
        life_state: 0,
        origin_bits: [0; 3],
        dormant: false,
        deathmatch_immunity: false,
        is_local,
    }
}

#[test]
fn map_key_strips_prefix_and_extension() {
    assert_eq!(normalize_map_key("maps/de_dust2.vpk"), Some(String::from("de_dust2")));
    assert_eq!(normalize_map_key("  de_mirage  "), Some(String::from("de_mirage")));
    assert_eq!(normalize_map_key("maps/de_inferno"), Some(String::from("de_inferno")));
    assert_eq!(normalize_map_key("de_nuke.vpk"), Some(String::from("de_nuke")));
}

#[test]
fn map_key_refuses_blank_and_empty_map() {
    assert_eq!(normalize_map_key(""), None);
    assert_eq!(normalize_map_key("   "), None);
    assert_eq!(normalize_map_key("maps/<empty>.vpk"), None);
    assert_eq!(normalize_map_key(" maps/<empty>.vpk "), None);
    assert_eq!(normalize_map_key("maps/.vpk"), None);
    assert_eq!(normalize_map_key(".vpk"), None);
}

#[test]
fn select_map_reports_each_missing_piece() {
    let images = vec![
        (String::from("de_dust2"), String::from("de_dust2.png")),
        (String::from("de_cache"), String::from("de_cache.png")),
    ];
    let transforms = vec![(String::from("de_dust2"), 11u32)];
    assert_eq!(select_map(None, &images, &transforms), MapSelection::NoMapName);
    assert_eq!(select_map(Some("maps/<empty>.vpk"), &images, &transforms), MapSelection::UnsupportedMapKey);
    assert_eq!(
        select_map(Some("maps/de_nuke.vpk"), &images, &transforms),
        MapSelection::MissingImage { map_key: String::from("de_nuke") }
    );
    assert_eq!(
        select_map(Some("de_cache"), &images, &transforms),
        MapSelection::MissingTransform { map_key: String::from("de_cache") }
    );
    assert_eq!(
        select_map(Some("maps/de_dust2.vpk"), &images, &transforms),
        MapSelection::Selected {
            map_key: String::from("de_dust2"),
            map_image: String::from("de_dust2.png"),
            transform_index: 0,
        }
    );
}

#[test]
fn local_team_is_that_of_the_first_local_player() {
    assert_eq!(local_team_of(&[]), None);
    assert_eq!(local_team_of(&[player(1, 2, false), player(2, 3, false)]), None);
    assert_eq!(local_team_of(&[player(1, 2, false), player(2, 3, true), player(3, 2, true)]), Some(3));
}

#[test]
fn relationship_follows_local_team() {
    assert_eq!(player_relationship(true, 2, Some(3)), PlayerRelationship::SelfPlayer);
    assert_eq!(player_relationship(false, 3, Some(3)), PlayerRelationship::Teammate);
    assert_eq!(player_relationship(false, 2, Some(3)), PlayerRelationship::Enemy);
    assert_eq!(player_relationship(false, 2, None), PlayerRelationship::Unknown);
}

#[test]
fn compare_pawns_lines_up_both_layers_by_pawn() {
    let snapshot = [30u64, 10, 20];
    let rendered = [(Some(20u64), Some(200u64)), (None, Some(1)), (Some(40), None), (Some(10), Some(100))];
    let out = compare_pawns(&snapshot, &rendered);
    let pawns: Vec<u64> = out.iter().map(|c| c.pawn).collect();
    assert_eq!(pawns, vec![10, 20, 30, 40]);
    assert_eq!(out[0].snapshot_index, Some(1));
    assert_eq!(out[0].rendered_index, Some(3));
    assert_eq!(out[0].steam_id, Some(100));
    assert_eq!(out[1].snapshot_index, Some(2));
    assert_eq!(out[1].rendered_index, Some(0));
    assert_eq!(out[1].steam_id, Some(200));
    assert_eq!(out[2].snapshot_index, Some(0));
    assert_eq!(out[2].rendered_index, None);
    assert_eq!(out[2].steam_id, None);
    assert_eq!(out[3].snapshot_index, None);
    assert_eq!(out[3].rendered_index, Some(2));
    assert_eq!(out[3].steam_id, None);
}

#[test]
fn compare_pawns_keeps_the_last_sighting() {
    let out = compare_pawns(&[5u64, 5], &[(Some(5u64), Some(1u64)), (Some(5), Some(2))]);
    assert_eq!(out.len(), 1);
    assert_eq!(out[0].snapshot_index, Some(1));
    assert_eq!(out[0].rendered_index, Some(1));
    assert_eq!(out[0].steam_id, Some(2));
    assert!(compare_pawns(&[], &[]).is_empty());
}

#[test]
fn labels_use_steam_id_else_pawn() {
    assert_eq!(stable_id_text(76561198000000001, 0x1234), "steam-76561198000000001");
    assert_eq!(stable_id_text(0, 0x7F3A_0000_BEEF), "pawn-7F3A0000BEEF");
    assert_eq!(stable_id_text(0, 0), "pawn-0");
    assert_eq!(display_name_text("alice", 5, 0x10), "alice");
    assert_eq!(display_name_text("", 5, 0x10), "5");
    assert_eq!(display_name_text("", 0, 0xAB), "pawn-AB");
}

#[test]
fn render_players_keeps_order_and_relationships() {
    let mut nameless = player(0x20, 2, false);
    nameless.name = String::new();
    nameless.steam_id = 0;
    let players = vec![player(0x10, 3, true), nameless, player(0x30, 3, false)];
    let shown = render_players(&players, Some(3));
    assert_eq!(shown.len(), 3);
    assert_eq!(shown[0].relationship, PlayerRelationship::SelfPlayer);
    assert_eq!(shown[0].id, "steam-7");
    assert_eq!(shown[0].name, "p");
    assert_eq!(shown[1].relationship, PlayerRelationship::Enemy);
    assert_eq!(shown[1].id, "pawn-20");
    assert_eq!(shown[1].name, "pawn-20");
    assert_eq!(shown[2].relationship, PlayerRelationship::Teammate);
    assert_eq!(shown[2].pawn, 0x30);
    assert!(render_players(&players, None).iter().skip(1).all(|p| p.relationship == PlayerRelationship::Unknown));
}

#[test]
fn debug_counts_carry_the_layers() {
    let counts = debug_counts(Some((10, 9, 8)), 7, 6);
    assert_eq!(counts.low_level_server_players, Some(10));
    assert_eq!(counts.low_level_other_players, Some(9));
    assert_eq!(counts.low_level_resolved_other_players, Some(8));
    assert_eq!(counts.snapshot_other_players, Some(7));
    assert_eq!(counts.shown_players, 6);
    let none = debug_counts(None, 0, 0);
    assert_eq!(none.low_level_server_players, None);
    assert_eq!(none.snapshot_other_players, Some(0));
}
