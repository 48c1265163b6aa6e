//! The trigger's decisions: whether the local player may fire, whether the
//! entity under the crosshair is a target, and the service's settings.
//!
//! The checks that need floating-point geometry (the local player's speed and
//! whether the crosshair is on the target's head) are the program's: the
//! speed check enters as its result, and the head check is asked for.
use vstd::prelude::*;

use crate::offsets::DeadlockedStyleOffsets;
use crate::players::{entity_at, entity_reads_ok, resolve_entity_index, LocalPlayerRecord, RadarPlayerRecord};
use crate::runtime::HeadlessRuntime;
use crate::launcher::LaunchArgError;
use crate::snapshot_reader::read_bone_position_bits;
use crate::text::{ascii_lower, ascii_lowercase, parse_u64, u64_numeral};

verus! {

/// Which optional checks the trigger makes.
#[derive(Debug, Clone, Copy, PartialEq, Eq, Structural)]
pub struct TriggerChecks {
    /// Fire only where the crosshair is on the target's head.
    pub head_only: bool,
    /// Fire at teammates too.
    pub allow_teammates: bool,
    /// Hold fire while flashed.
    pub flash_check: bool,
    /// Hold fire while not scoped.
    pub scope_check: bool,
    /// Hold fire while moving faster than the threshold.
    pub velocity_check: bool,
}

/// A fire decision and what it was made about.
#[derive(Debug, Clone, Copy, PartialEq, Eq)]
pub struct TriggerOutcome {
    pub should_fire: bool,
    pub reason: &'static str,
    pub crosshair_entity_index: i32,
    pub target_steam_id: Option<u64>,
}

/// The result of the trigger's integer checks.
#[derive(Debug, Clone, Copy, PartialEq, Eq)]
pub enum TriggerStep {
    /// The decision is made.
    Decided(TriggerOutcome),
    /// Fire only if the crosshair is on the head of the player at
    /// `target_index` of the players read.
    CheckHead {
        crosshair_entity_index: i32,
        target_steam_id: u64,
        target_pawn: usize,
        target_index: usize,
    },
}

/// On a playing team: terrorists (2) or counter-terrorists (3).
pub open spec fn playing_team(team: i32) -> bool {
    team == 2 || team == 3
}

/// The bits of an `f32` greater than zero: positive, not a NaN.
pub open spec fn f32_bits_positive(bits: u32) -> bool {
    0 < bits <= 0x7F80_0000
}

/// A refusal about the local player.
pub open spec fn local_reject(local: LocalPlayerRecord, reason: &'static str) -> TriggerOutcome {
    TriggerOutcome {
        should_fire: false,
        reason,
        crosshair_entity_index: local.crosshair_entity_index,
        target_steam_id: None,
    }
}

/// The checks of the local player, in order: team, alive and not immune,
/// not flashed, scoped, not moving, something under the crosshair. `None`
/// where all pass.
pub open spec fn local_gate(checks: TriggerChecks, local: LocalPlayerRecord, local_moving: bool) -> Option<
    TriggerOutcome,
> {
    if !playing_team(local.team_num) {
        Some(local_reject(local, "local_wrong_team"))
    } else if local.health <= 0 || local.life_state != 0 || local.deathmatch_immunity {
        Some(local_reject(local, "local_invalid"))
    } else if checks.flash_check && f32_bits_positive(local.flash_duration_bits) {
        Some(local_reject(local, "local_flashed"))
    } else if checks.scope_check && !local.is_scoped {
        Some(local_reject(local, "local_unscoped"))
    } else if checks.velocity_check && local_moving {
        Some(local_reject(local, "local_moving"))
    } else if local.crosshair_entity_index < 0 {
        Some(local_reject(local, "crosshair_entity_missing"))
    } else {
        None
    }
}

/// The player at `i` is the first whose pawn is `pawn`.
pub open spec fn is_first_with_pawn(players: Seq<RadarPlayerRecord>, pawn: usize, i: int) -> bool {
    &&& 0 <= i < players.len()
    &&& players[i].pawn == pawn
    &&& forall|j: int| 0 <= j < i ==> (#[trigger] players[j]).pawn != pawn
}

/// A refusal about a target.
pub open spec fn target_reject(
    local: LocalPlayerRecord,
    player: RadarPlayerRecord,
    reason: &'static str,
) -> TriggerStep {
    TriggerStep::Decided(
        TriggerOutcome {
            should_fire: false,
            reason,
            crosshair_entity_index: local.crosshair_entity_index,
            target_steam_id: Some(player.steam_id),
        },
    )
}

/// The checks of the player under the crosshair, the one at `i`: a living,
/// visible, vulnerable enemy on a playing team (a teammate where allowed).
pub open spec fn target_gate(
    checks: TriggerChecks,
    local: LocalPlayerRecord,
    player: RadarPlayerRecord,
    i: int,
) -> TriggerStep {
    if player.is_local || player.dormant || player.deathmatch_immunity || player.health <= 0
        || player.life_state != 0 {
        target_reject(local, player, "target_invalid")
    } else if !playing_team(player.team_num) {
        target_reject(local, player, "target_wrong_team")
    } else if !checks.allow_teammates && player.team_num == local.team_num {
        target_reject(local, player, "target_teammate")
    } else if !checks.head_only {
        TriggerStep::Decided(
            TriggerOutcome {
                should_fire: true,
                reason: "fire",
                crosshair_entity_index: local.crosshair_entity_index,
                target_steam_id: Some(player.steam_id),
            },
        )
    } else {
        TriggerStep::CheckHead {
            crosshair_entity_index: local.crosshair_entity_index,
            target_steam_id: player.steam_id,
            target_pawn: player.pawn,
            target_index: i as usize,
        }
    }
}

/// A refusal about the local player never fires.
pub proof fn lemma_local_refusal_holds_fire(checks: TriggerChecks, local: LocalPlayerRecord, local_moving: bool)
    ensures
        local_gate(checks, local, local_moving) matches Some(outcome) ==> !outcome.should_fire,
{
}

/// The trigger fires only at a living, visible, vulnerable player other
/// than the local one, on a playing team, and a teammate only where allowed;
/// and it leaves the head check only where that is asked for.
pub proof fn lemma_fire_only_at_valid_target(
    checks: TriggerChecks,
    local: LocalPlayerRecord,
    player: RadarPlayerRecord,
    i: int,
)
    ensures
        target_gate(checks, local, player, i) matches TriggerStep::Decided(outcome) && outcome.should_fire
            ==> {
            &&& !player.is_local && !player.dormant && !player.deathmatch_immunity
            &&& player.health > 0 && player.life_state == 0
            &&& playing_team(player.team_num)
            &&& (checks.allow_teammates || player.team_num != local.team_num)
            &&& !checks.head_only
        },
        target_gate(checks, local, player, i) is CheckHead ==> checks.head_only,
{
}

/// Whether the local player may fire at all; the refusal where not.
pub fn check_local(checks: &TriggerChecks, local: &LocalPlayerRecord, local_moving: bool) -> (r:
    Option<TriggerOutcome>)
    ensures
        r == local_gate(*checks, *local, local_moving),
{
    let reject = TriggerOutcome {
        should_fire: false,
        reason: "",
        crosshair_entity_index: local.crosshair_entity_index,
        target_steam_id: None,
    };
    if !(local.team_num == 2 || local.team_num == 3) {
        return Some(TriggerOutcome { reason: "local_wrong_team", ..reject });
    }
    if local.health <= 0 || local.life_state != 0 || local.deathmatch_immunity {
        return Some(TriggerOutcome { reason: "local_invalid", ..reject });
    }
    if checks.flash_check && 0 < local.flash_duration_bits && local.flash_duration_bits <= 0x7F80_0000 {
        return Some(TriggerOutcome { reason: "local_flashed", ..reject });
    }
    if checks.scope_check && !local.is_scoped {
        return Some(TriggerOutcome { reason: "local_unscoped", ..reject });
    }
    if checks.velocity_check && local_moving {
        return Some(TriggerOutcome { reason: "local_moving", ..reject });
    }
    if local.crosshair_entity_index < 0 {
        return Some(TriggerOutcome { reason: "crosshair_entity_missing", ..reject });
    }
    None
}

/// Judges the entity under the crosshair, whose pawn is `target_pawn` where
/// it resolved, among the players read.
pub fn check_target(
    checks: &TriggerChecks,
    local: &LocalPlayerRecord,
    target_pawn: Option<usize>,
    players: &[RadarPlayerRecord],
) -> (r: TriggerStep)
    ensures
        target_pawn is None ==> r == TriggerStep::Decided(
            local_reject(*local, "crosshair_entity_unresolved"),
        ),
        target_pawn matches Some(pawn) ==> {
            &&& (forall|i: int| 0 <= i < players@.len() ==> (#[trigger] players@[i]).pawn != pawn)
                ==> r == TriggerStep::Decided(local_reject(*local, "crosshair_target_not_found"))
            &&& forall|i: int|
                is_first_with_pawn(players@, pawn, i) ==> r == target_gate(
                    *checks,
                    *local,
                    #[trigger] players@[i],
                    i,
                )
        },
{
    let pawn = match target_pawn {
        Some(pawn) => pawn,
        None => {
            return TriggerStep::Decided(
                TriggerOutcome {
                    should_fire: false,
                    reason: "crosshair_entity_unresolved",
                    crosshair_entity_index: local.crosshair_entity_index,
                    target_steam_id: None,
                },
            );
        },
    };
    let mut i: usize = 0;
    while i < players.len()
        invariant
            i <= players@.len(),
            target_pawn == Some(pawn),
            forall|j: int| 0 <= j < i ==> (#[trigger] players@[j]).pawn != pawn,
        decreases players.len() - i,
    {
        if players[i].pawn == pawn {
            proof {
                assert(is_first_with_pawn(players@, pawn, i as int));
                assert forall|k: int| is_first_with_pawn(players@, pawn, k) implies k == i by {
                    if k < i {
                        assert(players@[k].pawn != pawn);
                    } else if k > i {
                        assert(players@[i as int].pawn != pawn);
                    }
                }
            }
            let player = &players[i];
            let decided = TriggerOutcome {
                should_fire: false,
                reason: "",
                crosshair_entity_index: local.crosshair_entity_index,
                target_steam_id: Some(player.steam_id),
            };
            if player.is_local || player.dormant || player.deathmatch_immunity || player.health <= 0
                || player.life_state != 0 {
                return TriggerStep::Decided(TriggerOutcome { reason: "target_invalid", ..decided });
            }
            if !(player.team_num == 2 || player.team_num == 3) {
                return TriggerStep::Decided(TriggerOutcome { reason: "target_wrong_team", ..decided });
            }
            if !checks.allow_teammates && player.team_num == local.team_num {
                return TriggerStep::Decided(TriggerOutcome { reason: "target_teammate", ..decided });
            }
            if !checks.head_only {
                return TriggerStep::Decided(
                    TriggerOutcome { should_fire: true, reason: "fire", ..decided },
                );
            }
            return TriggerStep::CheckHead {
                crosshair_entity_index: local.crosshair_entity_index,
                target_steam_id: player.steam_id,
                target_pawn: player.pawn,
                target_index: i,
            };
        }
        i = i + 1;
    }
    TriggerStep::Decided(
        TriggerOutcome {
            should_fire: false,
            reason: "crosshair_target_not_found",
            crosshair_entity_index: local.crosshair_entity_index,
            target_steam_id: None,
        },
    )
}

/// Decides whether to fire: the local player's checks, then the entity under
/// the crosshair resolved through the entity list and judged among the
/// players read. `local_moving` is whether the local player moves faster
/// than the velocity threshold.
///
/// Whatever the entity list holds, the decision is the local refusal where
/// there is one, else the judgement of the entity the crosshair index names
/// in the entity list, or of none where it cannot be read.
pub fn evaluate_trigger<R: HeadlessRuntime>(
    runtime: &mut R,
    offsets: &DeadlockedStyleOffsets,
    checks: &TriggerChecks,
    local: &LocalPlayerRecord,
    local_moving: bool,
    players: &[RadarPlayerRecord],
) -> (r: TriggerStep)
    ensures
        local_gate(*checks, *local, local_moving) matches Some(outcome) ==> r == TriggerStep::Decided(
            outcome,
        ),
        final(runtime).memory() == old(runtime).memory(),
        final(runtime).readable() == old(runtime).readable(),
        final(runtime).mappings() == old(runtime).mappings(),
        final(runtime).module_file() == old(runtime).module_file(),
        local_gate(*checks, *local, local_moving) is None ==> exists|target_pawn: Option<usize>|
            (target_pawn is None || target_pawn == entity_at(
                old(runtime).memory(),
                *offsets,
                local.crosshair_entity_index as u32,
            )) && #[trigger] check_target_outcome(*checks, *local, target_pawn, players@, r),
        local_gate(*checks, *local, local_moving) is None && entity_reads_ok(
            old(runtime).readable(),
            old(runtime).memory(),
            *offsets,
            local.crosshair_entity_index as u32,
        ) ==> check_target_outcome(
            *checks,
            *local,
            entity_at(old(runtime).memory(), *offsets, local.crosshair_entity_index as u32),
            players@,
            r,
        ),
{
    if let Some(outcome) = check_local(checks, local, local_moving) {
        return TriggerStep::Decided(outcome);
    }
    let target_pawn = match resolve_entity_index(
        runtime,
        offsets,
        local.crosshair_entity_index as u32,
    ) {
        Ok(Some(pawn)) => Some(pawn),
        _ => None,
    };
    let r = check_target(checks, local, target_pawn, players);
    assert(check_target_outcome(*checks, *local, target_pawn, players@, r));
    r
}

/// `r` is what `check_target` answers for `target_pawn`.
pub open spec fn check_target_outcome(
    checks: TriggerChecks,
    local: LocalPlayerRecord,
    target_pawn: Option<usize>,
    players: Seq<RadarPlayerRecord>,
    r: TriggerStep,
) -> bool {
    &&& target_pawn is None ==> r == TriggerStep::Decided(local_reject(local, "crosshair_entity_unresolved"))
    &&& target_pawn matches Some(pawn) ==> {
        &&& (forall|i: int| 0 <= i < players.len() ==> (#[trigger] players[i]).pawn != pawn) ==> r
            == TriggerStep::Decided(local_reject(local, "crosshair_target_not_found"))
        &&& forall|i: int|
            is_first_with_pawn(players, pawn, i) ==> r == target_gate(checks, local, #[trigger] players[i], i)
    }
}

// ---------------------------------------------------------------------------
// The head check
// ---------------------------------------------------------------------------

/// The bone whose position is the head.
pub const HEAD_BONE_INDEX: u64 = 7;

/// Where the head check stands once the head bone has been read.
#[derive(Debug, Clone, Copy, PartialEq, Eq)]
pub enum HeadCheck {
    /// The decision is made.
    Decided(TriggerOutcome),
    /// Fire only if the crosshair is within the head's radius of the head
    /// at `head_bits`, the bits of its position.
    Measure {
        crosshair_entity_index: i32,
        target_steam_id: u64,
        target_index: usize,
        head_bits: [u32; 3],
    },
}

/// Reads the head bone of the target where the head check is asked for; a
/// target whose head bone cannot be read is refused.
pub fn read_head_for_check<R: HeadlessRuntime>(
    runtime: &mut R,
    offsets: &DeadlockedStyleOffsets,
    step: TriggerStep,
) -> (r: HeadCheck)
    ensures
        step matches TriggerStep::Decided(outcome) ==> r == HeadCheck::Decided(outcome),
        step matches TriggerStep::CheckHead { crosshair_entity_index, target_steam_id, target_pawn, target_index }
            ==> match r {
            HeadCheck::Decided(outcome) => outcome == (TriggerOutcome {
                should_fire: false,
                reason: "head_bone_missing",
                crosshair_entity_index,
                target_steam_id: Some(target_steam_id),
            }),
            HeadCheck::Measure { crosshair_entity_index: c, target_steam_id: s, target_index: i, .. } => c
                == crosshair_entity_index && s == target_steam_id && i == target_index,
        },
{
    match step {
        TriggerStep::Decided(outcome) => HeadCheck::Decided(outcome),
        TriggerStep::CheckHead { crosshair_entity_index, target_steam_id, target_pawn, target_index } => {
            match read_bone_position_bits(runtime, offsets, target_pawn, HEAD_BONE_INDEX) {
                Ok(Some(head_bits)) => HeadCheck::Measure {
                    crosshair_entity_index,
                    target_steam_id,
                    target_index,
                    head_bits,
                },
                _ => HeadCheck::Decided(
                    TriggerOutcome {
                        should_fire: false,
                        reason: "head_bone_missing",
                        crosshair_entity_index,
                        target_steam_id: Some(target_steam_id),
                    },
                ),
            }
        },
    }
}

// ---------------------------------------------------------------------------
// The frame gate and the service's settings
// ---------------------------------------------------------------------------

/// What a frame of the trigger service reports before a decision is asked.
#[derive(Debug, Clone, Copy, PartialEq, Eq, Structural)]
pub enum TriggerGate {
    /// In the menu, or no local player on a playing team: nothing to do.
    MenuOrNoWorld,
    /// The snapshot names no map.
    MissingMapName,
    /// There is no local player.
    LocalPlayerMissing,
    /// Decide.
    Evaluate,
}

/// Whether a frame asks for a decision. It does not while the menu is open
/// and no local player is on a playing team, nor while the map name is
/// missing, nor while the local player is.
pub fn frame_gate(is_in_menu: bool, local_team: Option<i32>, has_map_name: bool) -> (r: TriggerGate)
    ensures
        r == (if is_in_menu && !(local_team matches Some(t) && playing_team(t)) {
            TriggerGate::MenuOrNoWorld
        } else if !has_map_name {
            TriggerGate::MissingMapName
        } else if local_team is None {
            TriggerGate::LocalPlayerMissing
        } else {
            TriggerGate::Evaluate
        }),
{
    let has_live_local = match local_team {
        Some(team) => team == 2 || team == 3,
        None => false,
    };
    if is_in_menu && !has_live_local {
        TriggerGate::MenuOrNoWorld
    } else if !has_map_name {
        TriggerGate::MissingMapName
    } else if local_team.is_none() {
        TriggerGate::LocalPlayerMissing
    } else {
        TriggerGate::Evaluate
    }
}

/// How often the reader runs where none is set.
pub const DEFAULT_READER_HZ: u64 = 120;

/// The reader's rate: the setting where it is a `u64` numeral, else
/// [`DEFAULT_READER_HZ`].
pub fn reader_hz_setting(value: Option<&str>) -> (r: u64)
    ensures
        r == match value {
            Some(v) => match u64_numeral(v@) {
                Some(hz) => hz,
                None => DEFAULT_READER_HZ,
            },
            None => DEFAULT_READER_HZ,
        },
{
    match value {
        Some(v) => match parse_u64(v) {
            Some(hz) => hz,
            None => DEFAULT_READER_HZ,
        },
        None => DEFAULT_READER_HZ,
    }
}

/// The usage text of the trigger service.
pub const TRIGGER_USAGE: &'static str = "usage:\n  fun-trigger\n\nnotes:\n  reads gameplay state directly from the deadlocked-kmod reader lane,\n  computes trigger should_fire, and serves the latest decision over a Unix socket.\n";

/// Checks the trigger service's command line (without the program name): it
/// takes no argument; the first one asks for help or is refused.
pub fn parse_trigger_args(args: Vec<String>) -> (r: Result<(), LaunchArgError>)
    ensures
        args@.len() == 0 ==> r is Ok,
        args@.len() > 0 ==> match r {
            Err(LaunchArgError::HelpRequested) => args@[0]@ == "--help"@ || args@[0]@ == "-h"@,
            Err(LaunchArgError::Unsupported { argument }) => argument@ == args@[0]@ && args@[0]@
                != "--help"@ && args@[0]@ != "-h"@,
            Ok(()) => false,
        },
{
    if args.len() == 0 {
        return Ok(());
    }
    if args[0] == "--help".to_owned() || args[0] == "-h".to_owned() {
        return Err(LaunchArgError::HelpRequested);
    }
    Err(LaunchArgError::Unsupported { argument: args[0].clone() })
}

/// The reader's period in milliseconds: a thousand over the rate, at least
/// one, the rate taken as at least one.
pub fn tick_ms(reader_hz: u64) -> (r: u64)
    ensures
        r == (if reader_hz == 0 {
            1000u64
        } else if 1000u64 / reader_hz == 0 {
            1u64
        } else {
            1000u64 / reader_hz
        }),
        r >= 1,
{
    let hz = if reader_hz < 1 {
        1
    } else {
        reader_hz
    };
    let ms = 1000 / hz;
    if ms < 1 {
        1
    } else {
        ms
    }
}

/// The words that turn a flag on.
pub open spec fn flag_word(value: Seq<char>) -> bool {
    value == "1"@ || value == "true"@ || value == "yes"@ || value == "on"@
}

/// The value of a boolean setting: on where it is set to `1`, `true`, `yes`
/// or `on` in any ASCII case, off where it is set to anything else, and
/// `default` where it is not set.
pub fn env_flag(value: Option<&str>, default: bool) -> (r: bool)
    ensures
        r == match value {
            Some(v) => flag_word(v@.map_values(|c: char| ascii_lower(c))),
            None => default,
        },
{
    match value {
        Some(v) => {
            let lower = ascii_lowercase(v);
            lower == "1".to_owned() || lower == "true".to_owned() || lower == "yes".to_owned()
                || lower == "on".to_owned()
        },
        None => default,
    }
}

} // verus!
