//! The radar's decisions: which map image and transform a snapshot's map
//! name selects, how each player relates to the local player, and how the
//! snapshot's players and the rendered ones are lined up for comparison.
//!
//! Coordinates are the program's; the players are carried by their pawns.
use vstd::prelude::*;

use crate::names::{distinct_names, find_name, lookup};
use crate::players::RadarPlayerRecord;
use crate::text::{
    ascii_chars, decimal_digits, decimal_text, has_prefix, has_suffix, strip_prefix_text,
    strip_suffix_text, trim_text, trimmed, upper_hex_digits, upper_hex_text,
};

verus! {

/// The state of the radar feed.
#[derive(Debug, Clone, Copy, PartialEq, Eq, Structural)]
pub enum RadarDebugStatus {
    Booting,
    /// Players are shown on a map.
    Normal,
    NoMap,
    ReaderUnavailable,
}

/// How a player relates to the local player.
#[derive(Debug, Clone, Copy, PartialEq, Eq, Structural)]
pub enum PlayerRelationship {
    SelfPlayer,
    Enemy,
    Teammate,
    Unknown,
}

/// How many players each layer saw.
#[derive(Debug, Clone, Copy, Default, PartialEq, Eq, Structural)]
pub struct RadarDebugCounts {
    pub low_level_server_players: Option<u32>,
    pub low_level_other_players: Option<u32>,
    pub low_level_resolved_other_players: Option<u32>,
    pub snapshot_other_players: Option<u32>,
    pub shown_players: u32,
}

/// How many players each layer saw, for the comparison view.
#[derive(Debug, Clone, Copy, PartialEq, Eq, Structural)]
pub struct RadarDebugCompareCounts {
    pub low_level_server_players: Option<u32>,
    pub low_level_other_players: Option<u32>,
    pub low_level_resolved_other_players: Option<u32>,
    pub snapshot_other_players: usize,
    pub radar_record_players: usize,
    pub rendered_players: usize,
}

// ---------------------------------------------------------------------------
// Maps
// ---------------------------------------------------------------------------

/// The key of a map name: trimmed, without a leading `maps/` and a trailing
/// `.vpk`; none for a blank name, the empty map, or nothing left.
pub open spec fn map_key_of(raw: Seq<char>) -> Option<Seq<char>> {
    let t = trimmed(raw);
    if t.len() == 0 || t == "maps/<empty>.vpk"@ {
        None
    } else {
        let without_prefix = if has_prefix(t, "maps/"@) {
            t.subrange("maps/"@.len() as int, t.len() as int)
        } else {
            t
        };
        let without_ext = if has_suffix(without_prefix, ".vpk"@) {
            without_prefix.subrange(0, without_prefix.len() - ".vpk"@.len())
        } else {
            without_prefix
        };
        if without_ext.len() == 0 {
            None
        } else {
            Some(without_ext)
        }
    }
}

/// The key under which a map's image and transform are filed.
pub fn normalize_map_key(raw: &str) -> (r: Option<String>)
    ensures
        match r {
            Some(key) => map_key_of(raw@) == Some(key@),
            None => map_key_of(raw@) is None,
        },
{
    let t = trim_text(raw);
    if t.as_str().is_empty() || t == "maps/<empty>.vpk".to_owned() {
        return None;
    }
    let without_prefix = match strip_prefix_text(t.as_str(), "maps/") {
        Some(rest) => rest,
        None => t,
    };
    let without_ext = match strip_suffix_text(without_prefix.as_str(), ".vpk") {
        Some(rest) => rest,
        None => without_prefix,
    };
    if without_ext.as_str().is_empty() {
        None
    } else {
        Some(without_ext)
    }
}

/// Which map a snapshot selects.
#[derive(Debug, Clone, PartialEq, Eq)]
pub enum MapSelection {
    /// The snapshot names no map.
    NoMapName,
    /// The map name has no key.
    UnsupportedMapKey,
    /// No image is filed under the key.
    MissingImage { map_key: String },
    /// No transform is filed under the key.
    MissingTransform { map_key: String },
    /// The map's key, its image, and the position of its transform.
    Selected { map_key: String, map_image: String, transform_index: usize },
}

/// Selects the map a snapshot's map name names, with its image from `images`
/// and its transform from `transforms`, both filed by map key.
pub fn select_map<V>(
    raw_map_name: Option<&str>,
    images: &Vec<(String, String)>,
    transforms: &Vec<(String, V)>,
) -> (r: MapSelection)
    requires
        distinct_names(images@),
        distinct_names(transforms@),
    ensures
        raw_map_name is None ==> r == MapSelection::NoMapName,
        raw_map_name matches Some(raw) ==> match map_key_of(raw@) {
            None => r == MapSelection::UnsupportedMapKey,
            Some(key) => match lookup(images@, key) {
                None => r matches MapSelection::MissingImage { map_key } && map_key@ == key,
                Some(image) => match lookup(transforms@, key) {
                    None => r matches MapSelection::MissingTransform { map_key } && map_key@ == key,
                    Some(transform) => r matches MapSelection::Selected {
                        map_key,
                        map_image,
                        transform_index,
                    } && map_key@ == key && map_image == image && transform_index < transforms@.len()
                        && transforms@[transform_index as int].0@ == key
                        && transforms@[transform_index as int].1 == transform,
                },
            },
        },
{
    let raw = match raw_map_name {
        Some(raw) => raw,
        None => return MapSelection::NoMapName,
    };
    let map_key = match normalize_map_key(raw) {
        Some(key) => key,
        None => return MapSelection::UnsupportedMapKey,
    };
    let image = match find_name(images, map_key.as_str()) {
        Some(i) => images[i].1.clone(),
        None => return MapSelection::MissingImage { map_key },
    };
    match find_name(transforms, map_key.as_str()) {
        Some(t) => MapSelection::Selected { map_key, map_image: image, transform_index: t },
        None => MapSelection::MissingTransform { map_key },
    }
}

// ---------------------------------------------------------------------------
// Players
// ---------------------------------------------------------------------------

/// The team of the first local player among `players`.
pub open spec fn local_team_spec(players: Seq<RadarPlayerRecord>) -> Option<i32>
    decreases players.len(),
{
    if players.len() == 0 {
        None
    } else if players[0].is_local {
        Some(players[0].team_num)
    } else {
        local_team_spec(players.drop_first())
    }
}

/// The team of the first local player among `players`.
pub fn local_team_of(players: &[RadarPlayerRecord]) -> (r: Option<i32>)
    ensures
        r == local_team_spec(players@),
{
    let mut i: usize = 0;
    assert(players@.skip(0) =~= players@);
    while i < players.len()
        invariant
            i <= players@.len(),
            local_team_spec(players@) == local_team_spec(players@.skip(i as int)),
        decreases players.len() - i,
    {
        assert(players@.skip(i as int).drop_first() =~= players@.skip(i + 1));
        if players[i].is_local {
            return Some(players[i].team_num);
        }
        i = i + 1;
    }
    assert(players@.skip(i as int) =~= Seq::<RadarPlayerRecord>::empty());
    None
}

/// How a player relates to the local player, whose team is `local_team`.
pub open spec fn relationship(is_local: bool, team_num: i32, local_team: Option<i32>) -> PlayerRelationship {
    if is_local {
        PlayerRelationship::SelfPlayer
    } else {
        match local_team {
            Some(local) => if team_num == local {
                PlayerRelationship::Teammate
            } else {
                PlayerRelationship::Enemy
            },
            None => PlayerRelationship::Unknown,
        }
    }
}

/// A player other than the local one is a teammate exactly when its team is
/// the local team, and an enemy exactly when it is not; so being teammates,
/// like being enemies, goes both ways between two teams. The local player is
/// itself, and without a local team every other player is unknown.
pub proof fn lemma_relationship_by_team(team_num: i32, other: i32, local_team: Option<i32>)
    ensures
        relationship(true, team_num, local_team) == PlayerRelationship::SelfPlayer,
        relationship(false, team_num, None) == PlayerRelationship::Unknown,
        relationship(false, team_num, Some(other)) == PlayerRelationship::Teammate <==> team_num == other,
        relationship(false, team_num, Some(other)) == PlayerRelationship::Enemy <==> team_num != other,
        relationship(false, team_num, Some(other)) == relationship(false, other, Some(team_num)),
{
}

/// How a player relates to the local player: the local player itself, a
/// teammate, an enemy, or unknown where the local team is.
pub fn player_relationship(is_local: bool, team_num: i32, local_team: Option<i32>) -> (r:
    PlayerRelationship)
    ensures
        r == relationship(is_local, team_num, local_team),
        is_local ==> r == PlayerRelationship::SelfPlayer,
        !is_local && local_team is None ==> r == PlayerRelationship::Unknown,
        forall|local: i32|
            !is_local && local_team == Some(local) ==> (r == PlayerRelationship::Teammate <==> team_num == local),
        forall|local: i32|
            !is_local && local_team == Some(local) ==> (r == PlayerRelationship::Enemy <==> team_num != local),
{
    if is_local {
        PlayerRelationship::SelfPlayer
    } else {
        match local_team {
            Some(local) => if team_num == local {
                PlayerRelationship::Teammate
            } else {
                PlayerRelationship::Enemy
            },
            None => PlayerRelationship::Unknown,
        }
    }
}

// ---------------------------------------------------------------------------
// Labels
// ---------------------------------------------------------------------------

/// The label of a pawn: `pawn-` and its address in upper-case hexadecimal.
pub open spec fn pawn_label(pawn: usize) -> Seq<char> {
    "pawn-"@ + ascii_chars(upper_hex_digits(pawn as nat))
}

/// The identifier a player is shown under: `steam-` and its steam id, or
/// its pawn's label where the steam id is zero.
pub open spec fn stable_id(steam_id: u64, pawn: usize) -> Seq<char> {
    if steam_id == 0 {
        pawn_label(pawn)
    } else {
        "steam-"@ + ascii_chars(decimal_digits(steam_id as nat))
    }
}

/// The name a player is shown with: its own where it has one, else its steam
/// id in decimal, else its pawn's label.
pub open spec fn display_name(name: Seq<char>, steam_id: u64, pawn: usize) -> Seq<char> {
    if name.len() > 0 {
        name
    } else if steam_id == 0 {
        pawn_label(pawn)
    } else {
        ascii_chars(decimal_digits(steam_id as nat))
    }
}

proof fn lemma_ascii_chars_concat(a: Seq<u8>, b: Seq<u8>)
    ensures
        ascii_chars(a + b) == ascii_chars(a) + ascii_chars(b),
{
    assert(ascii_chars(a + b) =~= ascii_chars(a) + ascii_chars(b));
}

/// Computes `pawn_label`.
fn pawn_label_text(pawn: usize) -> (s: String)
    ensures
        s@ == pawn_label(pawn),
{
    let prefix: [u8; 5] = [0x70, 0x61, 0x77, 0x6E, 0x2D];
    let s = upper_hex_text(&prefix, pawn as u64);
    proof {
        reveal_strlit("pawn-");
        lemma_ascii_chars_concat(prefix@, upper_hex_digits(pawn as nat));
        assert(ascii_chars(prefix@) =~= "pawn-"@);
    }
    s
}

/// The identifier a player is shown under.
pub fn stable_id_text(steam_id: u64, pawn: usize) -> (s: String)
    ensures
        s@ == stable_id(steam_id, pawn),
{
    if steam_id == 0 {
        pawn_label_text(pawn)
    } else {
        let prefix: [u8; 6] = [0x73, 0x74, 0x65, 0x61, 0x6D, 0x2D];
        let s = decimal_text(&prefix, steam_id);
        proof {
            reveal_strlit("steam-");
            lemma_ascii_chars_concat(prefix@, decimal_digits(steam_id as nat));
            assert(ascii_chars(prefix@) =~= "steam-"@);
        }
        s
    }
}

/// The name a player is shown with.
pub fn display_name_text(name: &str, steam_id: u64, pawn: usize) -> (s: String)
    ensures
        s@ == display_name(name@, steam_id, pawn),
{
    if !name.is_empty() {
        name.to_owned()
    } else if steam_id == 0 {
        pawn_label_text(pawn)
    } else {
        let none: [u8; 0] = [];
        let s = decimal_text(&none, steam_id);
        proof {
            assert(none@ + decimal_digits(steam_id as nat) =~= decimal_digits(steam_id as nat));
        }
        s
    }
}

/// A player as the radar shows it, but for its place on the map, which the
/// program computes from `origin_bits` and the map's transform.
#[derive(Debug, Clone, PartialEq, Eq)]
pub struct RenderedPlayer {
    pub id: String,
    pub name: String,
    pub steam_id: u64,
    pub pawn: usize,
    pub health: i32,
    pub team_num: i32,
    pub life_state: i32,
    pub relationship: PlayerRelationship,
    pub is_local: bool,
    pub origin_bits: [u32; 3],
}

/// `shown` shows `player`, whose local team is `local_team`.
pub open spec fn renders(shown: RenderedPlayer, player: RadarPlayerRecord, local_team: Option<i32>) -> bool {
    &&& shown.id@ == stable_id(player.steam_id, player.pawn)
    &&& shown.name@ == display_name(player.name@, player.steam_id, player.pawn)
    &&& shown.steam_id == player.steam_id
    &&& shown.pawn == player.pawn
    &&& shown.health == player.health
    &&& shown.team_num == player.team_num
    &&& shown.life_state == player.life_state
    &&& shown.relationship == relationship(player.is_local, player.team_num, local_team)
    &&& shown.is_local == player.is_local
    &&& shown.origin_bits == player.origin_bits
}

/// The players the radar shows, one for each player read, in order.
pub fn render_players(players: &[RadarPlayerRecord], local_team: Option<i32>) -> (out: Vec<
    RenderedPlayer,
>)
    ensures
        out@.len() == players@.len(),
        forall|i: int| 0 <= i < out@.len() ==> renders(#[trigger] out@[i], players@[i], local_team),
{
    let mut out: Vec<RenderedPlayer> = Vec::new();
    let mut i: usize = 0;
    while i < players.len()
        invariant
            i <= players@.len(),
            out@.len() == i,
            forall|k: int| 0 <= k < i ==> renders(#[trigger] out@[k], players@[k], local_team),
        decreases players.len() - i,
    {
        let player = &players[i];
        out.push(
            RenderedPlayer {
                id: stable_id_text(player.steam_id, player.pawn),
                name: display_name_text(player.name.as_str(), player.steam_id, player.pawn),
                steam_id: player.steam_id,
                pawn: player.pawn,
                health: player.health,
                team_num: player.team_num,
                life_state: player.life_state,
                relationship: player_relationship(player.is_local, player.team_num, local_team),
                is_local: player.is_local,
                origin_bits: player.origin_bits,
            },
        );
        i = i + 1;
    }
    out
}

/// The player counts of a radar snapshot: the low-level counts where they
/// were taken, the snapshot's other players, and the players shown.
pub fn debug_counts(
    low_level: Option<(u32, u32, u32)>,
    snapshot_other_players: usize,
    shown_players: usize,
) -> (r: RadarDebugCounts)
    ensures
        r.low_level_server_players == (match low_level {
            Some(c) => Some(c.0),
            None => None::<u32>,
        }),
        r.low_level_other_players == (match low_level {
            Some(c) => Some(c.1),
            None => None::<u32>,
        }),
        r.low_level_resolved_other_players == (match low_level {
            Some(c) => Some(c.2),
            None => None::<u32>,
        }),
        r.snapshot_other_players == Some(snapshot_other_players as u32),
        r.shown_players == shown_players as u32,
{
    RadarDebugCounts {
        low_level_server_players: match low_level {
            Some(c) => Some(c.0),
            None => None,
        },
        low_level_other_players: match low_level {
            Some(c) => Some(c.1),
            None => None,
        },
        low_level_resolved_other_players: match low_level {
            Some(c) => Some(c.2),
            None => None,
        },
        snapshot_other_players: Some(snapshot_other_players as u32),
        shown_players: shown_players as u32,
    }
}

// ---------------------------------------------------------------------------
// Comparing the layers
// ---------------------------------------------------------------------------

/// A pawn seen by the snapshot, rendered on the radar, or both: where it was
/// last seen in each, and the steam id it was last rendered with.
#[derive(Debug, Clone, Copy, PartialEq, Eq, Structural)]
pub struct PawnComparison {
    pub pawn: u64,
    pub steam_id: Option<u64>,
    pub snapshot_index: Option<usize>,
    pub rendered_index: Option<usize>,
}

/// The last of the first `n` snapshot pawns that is `pawn`.
pub open spec fn last_snapshot(pawns: Seq<u64>, pawn: u64, n: int) -> Option<usize>
    decreases n,
{
    if n <= 0 {
        None
    } else if pawns[n - 1] == pawn {
        Some((n - 1) as usize)
    } else {
        last_snapshot(pawns, pawn, n - 1)
    }
}

/// The last of the first `n` rendered players whose pawn is `pawn`.
pub open spec fn last_rendered(rendered: Seq<(Option<u64>, Option<u64>)>, pawn: u64, n: int) -> Option<
    usize,
>
    decreases n,
{
    if n <= 0 {
        None
    } else if rendered[n - 1].0 == Some(pawn) {
        Some((n - 1) as usize)
    } else {
        last_rendered(rendered, pawn, n - 1)
    }
}

/// The comparison of `pawn` after the first `s` snapshot pawns and the first
/// `r` rendered players.
pub open spec fn comparison_of(
    pawns: Seq<u64>,
    rendered: Seq<(Option<u64>, Option<u64>)>,
    pawn: u64,
    s: int,
    r: int,
) -> PawnComparison {
    PawnComparison {
        pawn,
        steam_id: match last_rendered(rendered, pawn, r) {
            Some(j) => rendered[j as int].1,
            None => None,
        },
        snapshot_index: last_snapshot(pawns, pawn, s),
        rendered_index: last_rendered(rendered, pawn, r),
    }
}

/// The comparisons, ascending by pawn, are those of the pawns seen in the
/// first `s` snapshot pawns or the first `r` rendered players, each once.
pub open spec fn comparisons_complete(
    out: Seq<PawnComparison>,
    pawns: Seq<u64>,
    rendered: Seq<(Option<u64>, Option<u64>)>,
    s: int,
    r: int,
) -> bool {
    &&& forall|a: int, b: int| 0 <= a < b < out.len() ==> out[a].pawn < out[b].pawn
    &&& forall|k: int|
        0 <= k < out.len() ==> #[trigger] out[k] == comparison_of(pawns, rendered, out[k].pawn, s, r)
    &&& forall|k: int| 0 <= k < out.len() ==> ((#[trigger] out[k]).snapshot_index is Some || out[k].rendered_index is Some)
    &&& forall|p: u64|
        (#[trigger] last_snapshot(pawns, p, s) is Some || last_rendered(rendered, p, r) is Some) ==> exists|k: int|
            0 <= k < out.len() && out[k].pawn == p
}

/// Where `pawn` is or belongs in the ascending `out`.
fn position_of(out: &Vec<PawnComparison>, pawn: u64) -> (k: usize)
    requires
        forall|a: int, b: int| 0 <= a < b < out@.len() ==> out@[a].pawn < out@[b].pawn,
    ensures
        k <= out@.len(),
        forall|a: int| 0 <= a < k ==> out@[a].pawn < pawn,
        k < out@.len() ==> out@[k as int].pawn >= pawn,
{
    let mut k: usize = 0;
    while k < out.len() && out[k].pawn < pawn
        invariant
            k <= out@.len(),
            forall|a: int| 0 <= a < k ==> out@[a].pawn < pawn,
        decreases out.len() - k,
    {
        k = k + 1;
    }
    k
}

/// Lines up the pawns of the snapshot's other players and of the rendered
/// players (each given as its pawn, where it has one, and its steam id),
/// ascending by pawn.
pub fn compare_pawns(snapshot_pawns: &[u64], rendered: &[(Option<u64>, Option<u64>)]) -> (out: Vec<
    PawnComparison,
>)
    ensures
        comparisons_complete(
            out@,
            snapshot_pawns@,
            rendered@,
            snapshot_pawns@.len() as int,
            rendered@.len() as int,
        ),
{
    let mut out: Vec<PawnComparison> = Vec::new();
    let mut i: usize = 0;
    while i < snapshot_pawns.len()
        invariant
            i <= snapshot_pawns@.len(),
            comparisons_complete(out@, snapshot_pawns@, rendered@, i as int, 0),
        decreases snapshot_pawns.len() - i,
    {
        let pawn = snapshot_pawns[i];
        let ghost before = out@;
        let k = position_of(&out, pawn);
        if k < out.len() && out[k].pawn == pawn {
            let updated = PawnComparison { snapshot_index: Some(i), ..out[k] };
            out.set(k, updated);
        } else {
            out.insert(k, PawnComparison { pawn, steam_id: None, snapshot_index: Some(i), rendered_index: None });
        }
        proof {
            lemma_snapshot_step(before, out@, snapshot_pawns@, rendered@, i as int, k as int);
        }
        i = i + 1;
    }
    let mut j: usize = 0;
    while j < rendered.len()
        invariant
            j <= rendered@.len(),
            comparisons_complete(out@, snapshot_pawns@, rendered@, snapshot_pawns@.len() as int, j as int),
        decreases rendered.len() - j,
    {
        let ghost before = out@;
        match rendered[j].0 {
            Some(pawn) => {
                let k = position_of(&out, pawn);
                if k < out.len() && out[k].pawn == pawn {
                    let updated = PawnComparison {
                        steam_id: rendered[j].1,
                        rendered_index: Some(j),
                        ..out[k]
                    };
                    out.set(k, updated);
                } else {
                    out.insert(k, PawnComparison {
                        pawn,
                        steam_id: rendered[j].1,
                        snapshot_index: None,
                        rendered_index: Some(j),
                    });
                }
                proof {
                    lemma_rendered_step(before, out@, snapshot_pawns@, rendered@, j as int, k as int);
                }
            },
            None => {
                proof {
                    lemma_rendered_skip(out@, snapshot_pawns@, rendered@, j as int);
                }
            },
        }
        j = j + 1;
    }
    out
}

proof fn lemma_snapshot_step(
    before: Seq<PawnComparison>,
    after: Seq<PawnComparison>,
    pawns: Seq<u64>,
    rendered: Seq<(Option<u64>, Option<u64>)>,
    i: int,
    k: int,
)
    requires
        0 <= i < pawns.len(),
        comparisons_complete(before, pawns, rendered, i, 0),
        0 <= k <= before.len(),
        forall|a: int| 0 <= a < k ==> before[a].pawn < pawns[i],
        k < before.len() ==> before[k].pawn >= pawns[i],
        (k < before.len() && before[k].pawn == pawns[i]) ==> after == before.update(
            k,
            PawnComparison { snapshot_index: Some(i as usize), ..before[k] },
        ),
        !(k < before.len() && before[k].pawn == pawns[i]) ==> after == before.insert(
            k,
            PawnComparison {
                pawn: pawns[i],
                steam_id: None,
                snapshot_index: Some(i as usize),
                rendered_index: None,
            },
        ),
    ensures
        comparisons_complete(after, pawns, rendered, i + 1, 0),
{
    let pawn = pawns[i];
    assert forall|p: u64| #[trigger] last_snapshot(pawns, p, i + 1) == (if p == pawn {
        Some(i as usize)
    } else {
        last_snapshot(pawns, p, i)
    }) by {}
    if k < before.len() && before[k].pawn == pawn {
        assert forall|k2: int|
            0 <= k2 < after.len() implies #[trigger] after[k2] == comparison_of(
            pawns,
            rendered,
            after[k2].pawn,
            i + 1,
            0,
        ) by {
            if k2 != k {
                assert(after[k2] == before[k2]);
                assert(before[k2] == comparison_of(pawns, rendered, before[k2].pawn, i, 0));
                if k2 < k {
                    assert(before[k2].pawn < pawn);
                } else {
                    assert(before[k].pawn < before[k2].pawn);
                }
            } else {
                assert(before[k] == comparison_of(pawns, rendered, before[k].pawn, i, 0));
            }
        }
        assert forall|p: u64|
            (#[trigger] last_snapshot(pawns, p, i + 1) is Some || last_rendered(rendered, p, 0) is Some)
                implies exists|k2: int| 0 <= k2 < after.len() && after[k2].pawn == p by {
            if p == pawn {
                assert(after[k].pawn == p);
            } else {
                assert(last_snapshot(pawns, p, i) is Some);
                let k2 = choose|k2: int| 0 <= k2 < before.len() && before[k2].pawn == p;
                assert(after[k2].pawn == p);
            }
        }
        assert forall|k2: int| 0 <= k2 < after.len() implies ((#[trigger] after[k2]).snapshot_index is Some
            || after[k2].rendered_index is Some) by {
            if k2 != k {
                assert(after[k2] == before[k2]);
            }
        }
    } else {
        assert(forall|k2: int| 0 <= k2 < before.len() ==> before[k2].pawn != pawn) by {
            assert forall|k2: int| 0 <= k2 < before.len() implies before[k2].pawn != pawn by {
                if k2 < k {
                } else if k2 > k {
                    assert(before[k].pawn < before[k2].pawn);
                }
            }
        }
        assert(last_snapshot(pawns, pawn, i) is None) by {
            if last_snapshot(pawns, pawn, i) is Some {
                let w = choose|k2: int| 0 <= k2 < before.len() && before[k2].pawn == pawn;
            }
        }
        assert forall|k2: int|
            0 <= k2 < after.len() implies #[trigger] after[k2] == comparison_of(
            pawns,
            rendered,
            after[k2].pawn,
            i + 1,
            0,
        ) by {
            if k2 < k {
                assert(after[k2] == before[k2]);
                assert(before[k2] == comparison_of(pawns, rendered, before[k2].pawn, i, 0));
            } else if k2 > k {
                assert(after[k2] == before[k2 - 1]);
                assert(before[k2 - 1] == comparison_of(pawns, rendered, before[k2 - 1].pawn, i, 0));
            }
        }
        assert forall|a: int, b: int| 0 <= a < b < after.len() implies after[a].pawn < after[b].pawn by {
            if b < k {
            } else if b == k {
            } else if a < k {
                assert(after[b] == before[b - 1]);
                if k < before.len() {
                    assert(before[k].pawn <= before[b - 1].pawn);
                }
            } else if a == k {
                assert(after[b] == before[b - 1]);
                assert(before[k].pawn <= before[b - 1].pawn);
            } else {
                assert(after[a] == before[a - 1]);
                assert(after[b] == before[b - 1]);
            }
        }
        assert forall|p: u64|
            (#[trigger] last_snapshot(pawns, p, i + 1) is Some || last_rendered(rendered, p, 0) is Some)
                implies exists|k2: int| 0 <= k2 < after.len() && after[k2].pawn == p by {
            if p == pawn {
                assert(after[k].pawn == p);
            } else {
                assert(last_snapshot(pawns, p, i) is Some);
                let k2 = choose|k2: int| 0 <= k2 < before.len() && before[k2].pawn == p;
                if k2 < k {
                    assert(after[k2].pawn == p);
                } else {
                    assert(after[k2 + 1].pawn == p);
                }
            }
        }
        assert forall|k2: int| 0 <= k2 < after.len() implies ((#[trigger] after[k2]).snapshot_index is Some
            || after[k2].rendered_index is Some) by {
            if k2 < k {
                assert(after[k2] == before[k2]);
            } else if k2 > k {
                assert(after[k2] == before[k2 - 1]);
            }
        }
    }
}

proof fn lemma_rendered_skip(
    out: Seq<PawnComparison>,
    pawns: Seq<u64>,
    rendered: Seq<(Option<u64>, Option<u64>)>,
    j: int,
)
    requires
        0 <= j < rendered.len(),
        rendered.len() <= usize::MAX,
        rendered[j].0 is None,
        comparisons_complete(out, pawns, rendered, pawns.len() as int, j),
    ensures
        comparisons_complete(out, pawns, rendered, pawns.len() as int, j + 1),
{
    assert forall|p: u64| #[trigger] last_rendered(rendered, p, j + 1) == last_rendered(rendered, p, j) by {}
    assert forall|k: int|
        0 <= k < out.len() implies #[trigger] out[k] == comparison_of(
        pawns,
        rendered,
        out[k].pawn,
        pawns.len() as int,
        j + 1,
    ) by {
        assert(last_rendered(rendered, out[k].pawn, j + 1) == last_rendered(rendered, out[k].pawn, j));
    }
    assert forall|p: u64|
        (#[trigger] last_snapshot(pawns, p, pawns.len() as int) is Some || last_rendered(rendered, p, j + 1) is Some)
            implies exists|k: int| 0 <= k < out.len() && out[k].pawn == p by {
        assert(last_rendered(rendered, p, j + 1) == last_rendered(rendered, p, j));
    }
}

proof fn lemma_rendered_step(
    before: Seq<PawnComparison>,
    after: Seq<PawnComparison>,
    pawns: Seq<u64>,
    rendered: Seq<(Option<u64>, Option<u64>)>,
    j: int,
    k: int,
)
    requires
        0 <= j < rendered.len(),
        rendered.len() <= usize::MAX,
        rendered[j].0 is Some,
        comparisons_complete(before, pawns, rendered, pawns.len() as int, j),
        0 <= k <= before.len(),
        forall|a: int| 0 <= a < k ==> before[a].pawn < rendered[j].0->0,
        k < before.len() ==> before[k].pawn >= rendered[j].0->0,
        (k < before.len() && before[k].pawn == rendered[j].0->0) ==> after == before.update(
            k,
            PawnComparison {
                steam_id: rendered[j].1,
                rendered_index: Some(j as usize),
                ..before[k]
            },
        ),
        !(k < before.len() && before[k].pawn == rendered[j].0->0) ==> after == before.insert(
            k,
            PawnComparison {
                pawn: rendered[j].0->0,
                steam_id: rendered[j].1,
                snapshot_index: None,
                rendered_index: Some(j as usize),
            },
        ),
    ensures
        comparisons_complete(after, pawns, rendered, pawns.len() as int, j + 1),
{
    if k < before.len() && before[k].pawn == rendered[j].0->0 {
        lemma_rendered_update(before, after, pawns, rendered, j, k);
    } else {
        lemma_rendered_insert(before, after, pawns, rendered, j, k);
    }
}

proof fn lemma_rendered_update(
    before: Seq<PawnComparison>,
    after: Seq<PawnComparison>,
    pawns: Seq<u64>,
    rendered: Seq<(Option<u64>, Option<u64>)>,
    j: int,
    k: int,
)
    requires
        0 <= j < rendered.len(),
        rendered.len() <= usize::MAX,
        rendered[j].0 is Some,
        comparisons_complete(before, pawns, rendered, pawns.len() as int, j),
        0 <= k <= before.len(),
        forall|a: int| 0 <= a < k ==> before[a].pawn < rendered[j].0->0,
        k < before.len() ==> before[k].pawn >= rendered[j].0->0,
        k < before.len() && before[k].pawn == rendered[j].0->0,
        after == before.update(
            k,
            PawnComparison {
                steam_id: rendered[j].1,
                rendered_index: Some(j as usize),
                ..before[k]
            },
        ),
    ensures
        comparisons_complete(after, pawns, rendered, pawns.len() as int, j + 1),
{
    let pawn = rendered[j].0->0;
    let s = pawns.len() as int;
    assert forall|p: u64| #[trigger] last_rendered(rendered, p, j + 1) == (if p == pawn {
        Some(j as usize)
    } else {
        last_rendered(rendered, p, j)
    }) by {}

        assert forall|k2: int|
            0 <= k2 < after.len() implies #[trigger] after[k2] == comparison_of(
            pawns,
            rendered,
            after[k2].pawn,
            s,
            j + 1,
        ) by {
            if k2 != k {
                assert(after[k2] == before[k2]);
                assert(before[k2] == comparison_of(pawns, rendered, before[k2].pawn, s, j));
                if k2 < k {
                    assert(before[k2].pawn < pawn);
                } else {
                    assert(before[k].pawn < before[k2].pawn);
                }
            } else {
                assert(before[k] == comparison_of(pawns, rendered, before[k].pawn, s, j));
                assert(last_rendered(rendered, pawn, j + 1) == Some(j as usize));
            }
        }
        assert forall|p: u64|
            (#[trigger] last_snapshot(pawns, p, s) is Some || last_rendered(rendered, p, j + 1) is Some)
                implies exists|k2: int| 0 <= k2 < after.len() && after[k2].pawn == p by {
            if p == pawn {
                assert(after[k].pawn == p);
            } else {
                let k2 = choose|k2: int| 0 <= k2 < before.len() && before[k2].pawn == p;
                assert(after[k2].pawn == p);
            }
        }
        assert forall|k2: int| 0 <= k2 < after.len() implies ((#[trigger] after[k2]).snapshot_index is Some
            || after[k2].rendered_index is Some) by {
            if k2 != k {
                assert(after[k2] == before[k2]);
            }
        }
}

#[verifier::rlimit(40)]
proof fn lemma_rendered_insert(
    before: Seq<PawnComparison>,
    after: Seq<PawnComparison>,
    pawns: Seq<u64>,
    rendered: Seq<(Option<u64>, Option<u64>)>,
    j: int,
    k: int,
)
    requires
        0 <= j < rendered.len(),
        rendered.len() <= usize::MAX,
        rendered[j].0 is Some,
        comparisons_complete(before, pawns, rendered, pawns.len() as int, j),
        0 <= k <= before.len(),
        forall|a: int| 0 <= a < k ==> before[a].pawn < rendered[j].0->0,
        k < before.len() ==> before[k].pawn >= rendered[j].0->0,
        !(k < before.len() && before[k].pawn == rendered[j].0->0),
        after == before.insert(
            k,
            PawnComparison {
                pawn: rendered[j].0->0,
                steam_id: rendered[j].1,
                snapshot_index: None,
                rendered_index: Some(j as usize),
            },
        ),
    ensures
        comparisons_complete(after, pawns, rendered, pawns.len() as int, j + 1),
{
    let pawn = rendered[j].0->0;
    let s = pawns.len() as int;
    assert forall|p: u64| #[trigger] last_rendered(rendered, p, j + 1) == (if p == pawn {
        Some(j as usize)
    } else {
        last_rendered(rendered, p, j)
    }) by {}

        assert(forall|k2: int| 0 <= k2 < before.len() ==> before[k2].pawn != pawn) by {
            assert forall|k2: int| 0 <= k2 < before.len() implies before[k2].pawn != pawn by {
                if k2 < k {
                } else if k2 > k {
                    assert(before[k].pawn < before[k2].pawn);
                }
            }
        }
        assert(last_snapshot(pawns, pawn, s) is None && last_rendered(rendered, pawn, j) is None) by {
            if last_snapshot(pawns, pawn, s) is Some || last_rendered(rendered, pawn, j) is Some {
                let w = choose|k2: int| 0 <= k2 < before.len() && before[k2].pawn == pawn;
            }
        }
        assert forall|k2: int|
            0 <= k2 < after.len() implies #[trigger] after[k2] == comparison_of(
            pawns,
            rendered,
            after[k2].pawn,
            s,
            j + 1,
        ) by {
            if k2 < k {
                assert(after[k2] == before[k2]);
                assert(before[k2] == comparison_of(pawns, rendered, before[k2].pawn, s, j));
            } else if k2 > k {
                assert(after[k2] == before[k2 - 1]);
                assert(before[k2 - 1] == comparison_of(pawns, rendered, before[k2 - 1].pawn, s, j));
            }
        }
        assert forall|a: int, b: int| 0 <= a < b < after.len() implies after[a].pawn < after[b].pawn by {
            if b < k {
            } else if b == k {
            } else if a < k {
                assert(after[b] == before[b - 1]);
                if k < before.len() {
                    assert(before[k].pawn <= before[b - 1].pawn);
                }
            } else if a == k {
                assert(after[b] == before[b - 1]);
                assert(before[k].pawn <= before[b - 1].pawn);
            } else {
                assert(after[a] == before[a - 1]);
                assert(after[b] == before[b - 1]);
            }
        }
        assert forall|p: u64|
            (#[trigger] last_snapshot(pawns, p, s) is Some || last_rendered(rendered, p, j + 1) is Some)
                implies exists|k2: int| 0 <= k2 < after.len() && after[k2].pawn == p by {
            if p == pawn {
                assert(after[k].pawn == p);
            } else {
                let k2 = choose|k2: int| 0 <= k2 < before.len() && before[k2].pawn == p;
                if k2 < k {
                    assert(after[k2].pawn == p);
                } else {
                    assert(after[k2 + 1].pawn == p);
                }
            }
        }
        assert forall|k2: int| 0 <= k2 < after.len() implies ((#[trigger] after[k2]).snapshot_index is Some
            || after[k2].rendered_index is Some) by {
            if k2 < k {
                assert(after[k2] == before[k2]);
            } else if k2 > k {
                assert(after[k2] == before[k2 - 1]);
            }
        }
    }

} // verus!
