//! Plain values shared between the game readers and the programs built on
//! them: sanitized semantic fields, fault reports and movement intents.
use vstd::prelude::*;

verus! {

/// A team number as the game uses it (0 to 3), or nothing for a value read
/// from memory that is not one.
pub fn sanitize_semantic_team_num(team_num: Option<i32>) -> (r: Option<i32>)
    ensures
        r == (match team_num {
            Some(team) => if 0 <= team <= 3 {
                Some(team)
            } else {
                None::<i32>
            },
            None => None::<i32>,
        }),
{
    match team_num {
        Some(team) => if 0 <= team && team <= 3 {
            Some(team)
        } else {
            None
        },
        None => None,
    }
}

/// The life states the game uses: alive, dying and dead, each with or without
/// the 256 flag.
pub open spec fn is_semantic_life_state(value: i32) -> bool {
    value == 0 || value == 1 || value == 2 || value == 256 || value == 257 || value == 258
}

/// A life state as the game uses it, or nothing for a value read from memory
/// that is not one.
pub fn sanitize_semantic_life_state(life_state: Option<i32>) -> (r: Option<i32>)
    ensures
        r == (match life_state {
            Some(value) => if is_semantic_life_state(value) {
                Some(value)
            } else {
                None::<i32>
            },
            None => None::<i32>,
        }),
{
    match life_state {
        Some(value) => if value == 0 || value == 1 || value == 2 || value == 256 || value == 257
            || value == 258 {
            life_state
        } else {
            None
        },
        None => None,
    }
}

/// The part of the program a fault report comes from.
#[derive(Debug, Default, Clone, Copy, PartialEq, Eq, Structural)]
pub enum RuntimeFaultSubsystem {
    #[default]
    Aimer,
    Walkbot,
}

/// How serious a reported fault is.
#[derive(Debug, Default, Clone, Copy, PartialEq, Eq, Structural)]
pub enum RuntimeFaultSeverity {
    #[default]
    Info,
    Warn,
    Degraded,
    Fatal,
}

/// What kind of fault was reported.
#[derive(Debug, Default, Clone, Copy, PartialEq, Eq, Structural)]
pub enum RuntimeFaultKind {
    #[default]
    AimerFireStall,
    WalkbotPlanningFailure,
    WalkbotGuidanceSync,
    WalkbotStuckDetected,
}

/// A fault report: where it comes from, how serious it is and what it was,
/// with what was known when it happened. The aim punch's magnitude, in
/// degrees, is carried as the bits of its `f32`.
#[derive(Debug, Default, Clone, Copy, PartialEq, Eq, Structural)]
pub struct RuntimeFault {
    pub subsystem: RuntimeFaultSubsystem,
    pub severity: RuntimeFaultSeverity,
    pub kind: RuntimeFaultKind,
    pub target_id: Option<u64>,
    pub target_idx: Option<u16>,
    pub queue_len: Option<u16>,
    pub tracking_age_ms: Option<u64>,
    pub shots_fired: Option<i32>,
    pub aim_punch_mag_deg_bits: Option<u32>,
    pub stall_ms: Option<u64>,
}

/// The movement keys to hold.
#[derive(Debug, Default, Clone, Copy, PartialEq, Eq, Structural)]
pub struct MoveIntent {
    pub forward: bool,
    pub back: bool,
    pub left: bool,
    pub right: bool,
    pub sprint: bool,
    pub duck: bool,
    pub jump: bool,
}

/// What to do with the fire button.
#[derive(Debug, Default, Clone, Copy, PartialEq, Eq, Structural)]
pub enum FireAction {
    #[default]
    NoAction,
    Tap,
    SetHeld(bool),
}

/// A strafe direction.
#[derive(Debug, Default, Clone, Copy, PartialEq, Eq, Structural)]
pub enum StrafeDir {
    #[default]
    Left,
    Right,
}

/// A movement laid over the route during a fight.
#[derive(Debug, Default, Clone, Copy, PartialEq, Eq, Structural)]
pub enum CombatMoveOverlay {
    #[default]
    NoOverlay,
    CounterStrafe { dir: StrafeDir, hold_ms: u16 },
    ADBait { dir: StrafeDir, hold_ms: u16 },
}

/// A mouse movement and the buttons and keys to hold with it.
#[derive(Debug, Default, Clone, Copy)]
pub struct AimIntent {
    pub dx: i32,
    pub dy: i32,
    pub hold_crouch: bool,
    pub hold_shift: bool,
    pub fire: FireAction,
}

/// How the view follows the route.
#[derive(Debug, Default, Clone, Copy, PartialEq, Eq, Structural)]
pub enum NavigationLookMode {
    #[default]
    Follow,
    Precision,
    Recovery,
}

/// What the view looks toward on the route.
#[derive(Debug, Default, Clone, Copy, PartialEq, Eq, Structural)]
pub enum NavigationLookSource {
    #[default]
    Lookahead,
    Waypoint,
    Recovery,
}

/// How the route is kept during a fight.
#[derive(Debug, Default, Clone, Copy, PartialEq, Eq, Structural)]
pub enum CombatNavIntent {
    #[default]
    KeepRoute,
    SuspendRoute,
    SoftPauseForShot,
    HoldPosition,
}

} // verus!
