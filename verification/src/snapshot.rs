//! Classifying a game snapshot: menu, on a map, alive, ready to play.
//!
//! The snapshot's floating-point parts enter as two facts computed from them:
//! whether the view matrix holds a finite non-zero value, and whether the
//! local origin is finite and not all zero.
use vstd::prelude::*;

use crate::text::{trim_text, trimmed};

verus! {

/// Where the game is.
#[derive(Debug, Clone, Copy, PartialEq, Eq, Structural)]
pub enum SnapshotPhase {
    Unknown,
    Menu,
    InMapNotPlayable,
    ReadyForBot,
}

/// The name of a phase.
pub open spec fn phase_name(phase: SnapshotPhase) -> &'static str {
    match phase {
        SnapshotPhase::Unknown => "unknown",
        SnapshotPhase::Menu => "menu",
        SnapshotPhase::InMapNotPlayable => "in_map_not_playable",
        SnapshotPhase::ReadyForBot => "ready_for_bot",
    }
}

impl SnapshotPhase {
    /// The name of the phase.
    pub fn as_str(self) -> (r: &'static str)
        ensures
            r == phase_name(self),
    {
        match self {
            SnapshotPhase::Unknown => "unknown",
            SnapshotPhase::Menu => "menu",
            SnapshotPhase::InMapNotPlayable => "in_map_not_playable",
            SnapshotPhase::ReadyForBot => "ready_for_bot",
        }
    }
}

/// The classification of a snapshot.
#[derive(Debug, Clone, Copy, PartialEq, Eq, Structural)]
pub struct SnapshotState {
    pub phase: SnapshotPhase,
    pub is_in_menu: bool,
    pub is_in_map: bool,
    pub is_alive: bool,
    pub is_ready_for_bot: bool,
}

/// The local player's vital fields, as read.
#[derive(Debug, Clone, Copy, PartialEq, Eq, Structural)]
pub struct LocalVitals {
    pub health: Option<i32>,
    pub life_state: Option<i32>,
    pub team_num: Option<i32>,
}

/// What the classification reads of a snapshot.
#[derive(Debug, Clone, PartialEq, Eq)]
pub struct SnapshotSummary {
    pub map_name: Option<String>,
    /// The view matrix is present and holds a finite value of magnitude
    /// above `f32::EPSILON`.
    pub has_view_matrix: bool,
    /// The local origin is present, finite, and has a coordinate of magnitude
    /// above `f32::EPSILON`.
    pub has_origin: bool,
    pub local: Option<LocalVitals>,
}

/// The map name says the game is in its menu: there is none, or it is blank,
/// `<empty>` or `maps/<empty>.vpk` once trimmed.
pub open spec fn names_menu(map_name: Option<String>) -> bool {
    match map_name {
        None => true,
        Some(name) => {
            let t = trimmed(name@);
            t == ""@ || t == "<empty>"@ || t == "maps/<empty>.vpk"@
        },
    }
}

/// The local player is alive and playing: health 1 to 100, life state 256,
/// on team 2 or 3.
pub open spec fn vitals_alive(local: Option<LocalVitals>) -> bool {
    match local {
        None => false,
        Some(v) => {
            &&& v.health matches Some(h) && 1 <= h <= 100
            &&& v.life_state == Some(256i32)
            &&& v.team_num matches Some(t) && (t == 2 || t == 3)
        },
    }
}

/// The classification of a snapshot.
pub open spec fn classification(summary: SnapshotSummary) -> SnapshotState {
    let is_in_menu = names_menu(summary.map_name);
    let is_in_map = !is_in_menu && summary.has_view_matrix && summary.has_origin;
    let is_alive = vitals_alive(summary.local);
    let is_ready_for_bot = is_in_map && is_alive;
    SnapshotState {
        phase: if is_in_menu {
            SnapshotPhase::Menu
        } else if is_ready_for_bot {
            SnapshotPhase::ReadyForBot
        } else if is_in_map {
            SnapshotPhase::InMapNotPlayable
        } else {
            SnapshotPhase::Unknown
        },
        is_in_menu,
        is_in_map,
        is_alive,
        is_ready_for_bot,
    }
}

fn menu_map(map_name: &Option<String>) -> (r: bool)
    ensures
        r == names_menu(*map_name),
{
    match map_name {
        None => true,
        Some(name) => {
            let t = trim_text(name.as_str());
            t == "".to_owned() || t == "<empty>".to_owned() || t == "maps/<empty>.vpk".to_owned()
        },
    }
}

fn alive(local: &Option<LocalVitals>) -> (r: bool)
    ensures
        r == vitals_alive(*local),
{
    match local {
        None => false,
        Some(v) => {
            let health_ok = match v.health {
                Some(h) => 1 <= h && h <= 100,
                None => false,
            };
            let life_ok = match v.life_state {
                Some(l) => l == 256,
                None => false,
            };
            let team_ok = match v.team_num {
                Some(t) => t == 2 || t == 3,
                None => false,
            };
            health_ok && life_ok && team_ok
        },
    }
}

/// Classifies a snapshot. The phase is the menu where the map name says so,
/// else ready where the player is alive on a map, else on a map but not
/// playable, else unknown.
pub fn classify_snapshot(summary: &SnapshotSummary) -> (r: SnapshotState)
    ensures
        r == classification(*summary),
{
    let is_in_menu = menu_map(&summary.map_name);
    let is_in_map = !is_in_menu && summary.has_view_matrix && summary.has_origin;
    let is_alive = alive(&summary.local);
    let is_ready_for_bot = is_in_map && is_alive;
    let phase = if is_in_menu {
        SnapshotPhase::Menu
    } else if is_ready_for_bot {
        SnapshotPhase::ReadyForBot
    } else if is_in_map {
        SnapshotPhase::InMapNotPlayable
    } else {
        SnapshotPhase::Unknown
    };
    SnapshotState { phase, is_in_menu, is_in_map, is_alive, is_ready_for_bot }
}

/// Whether the local player is alive and playing.
pub fn derive_alive(summary: &SnapshotSummary) -> (r: bool)
    ensures
        r == classification(*summary).is_alive,
{
    classify_snapshot(summary).is_alive
}

/// Whether the game is in its menu.
pub fn is_in_menu(summary: &SnapshotSummary) -> (r: bool)
    ensures
        r == classification(*summary).is_in_menu,
{
    classify_snapshot(summary).is_in_menu
}

/// Whether the game is on a map with a view.
pub fn is_in_map(summary: &SnapshotSummary) -> (r: bool)
    ensures
        r == classification(*summary).is_in_map,
{
    classify_snapshot(summary).is_in_map
}

/// Whether the game is on a map with the local player alive.
pub fn is_ready_for_bot(summary: &SnapshotSummary) -> (r: bool)
    ensures
        r == classification(*summary).is_ready_for_bot,
{
    classify_snapshot(summary).is_ready_for_bot
}

/// Whether gameplay can be driven: the same as being ready for the bot.
pub fn is_gameplay_ready(summary: &SnapshotSummary) -> (r: bool)
    ensures
        r == classification(*summary).is_ready_for_bot,
{
    is_ready_for_bot(summary)
}

/// The phases agree with the flags: ready means on a map and alive, the menu
/// is never on a map, and on a map but not ready means not alive.
pub proof fn lemma_phase_agrees_with_flags(summary: SnapshotSummary)
    ensures
        ({
            let s = classification(summary);
            &&& s.phase == SnapshotPhase::ReadyForBot <==> s.is_ready_for_bot
            &&& s.is_ready_for_bot ==> s.is_in_map && s.is_alive
            &&& s.is_in_menu ==> !s.is_in_map && s.phase == SnapshotPhase::Menu
            &&& s.phase == SnapshotPhase::InMapNotPlayable ==> s.is_in_map && !s.is_alive
            &&& s.phase == SnapshotPhase::Unknown ==> !s.is_in_menu && !s.is_in_map
        }),
{
}

} // verus!
