//! The mouse relay's decisions: which devices to grab, which events to pass
//! on, the state of the buttons the virtual mouse has pressed, and when the
//! trigger fires.
//!
//! Input events are carried as their Linux type, code and value; the program
//! reads and writes the devices.
use vstd::prelude::*;

use crate::text::{ascii_lower, ascii_lowercase, chars_of, contains_chars, contains_text};

verus! {

// ---------------------------------------------------------------------------
// The relay switch and its sounds
// ---------------------------------------------------------------------------

/// Whether the relay is on: F9 turns it on and off.
#[derive(Debug, Clone, Copy)]
pub struct KillSwitch {
    enabled: bool,
}

impl KillSwitch {
    /// Whether the relay is on.
    pub closed spec fn is_on(&self) -> bool {
        self.enabled
    }

    /// A switch that is on.
    pub fn new_enabled() -> (k: KillSwitch)
        ensures
            k.is_on(),
    {
        KillSwitch { enabled: true }
    }

    /// Whether the relay is on.
    pub fn enabled(&self) -> (r: bool)
        ensures
            r == self.is_on(),
    {
        self.enabled
    }

    /// Turns the relay over, returning whether it is now on.
    pub fn toggle(&mut self) -> (r: bool)
        ensures
            final(self).is_on() == !old(self).is_on(),
            r == final(self).is_on(),
    {
        self.enabled = !self.enabled;
        self.enabled
    }

    /// Turns the relay off.
    pub fn disable(&mut self)
        ensures
            !final(self).is_on(),
    {
        self.enabled = false;
    }
}

/// Toggling the relay twice leaves it as it was.
pub proof fn lemma_toggle_twice_restores(before: KillSwitch, middle: KillSwitch, after: KillSwitch)
    requires
        middle.is_on() == !before.is_on(),
        after.is_on() == !middle.is_on(),
    ensures
        after.is_on() == before.is_on(),
{
}

/// Which toggle sound to play.
#[derive(Debug, Clone, Copy, PartialEq, Eq, Structural)]
pub enum ToggleSound {
    Enabled,
    Disabled,
}

impl ToggleSound {
    /// How many beeps the sound has: three for on, one for off.
    pub fn beep_count(self) -> (r: usize)
        ensures
            r == (match self {
                ToggleSound::Enabled => 3usize,
                ToggleSound::Disabled => 1usize,
            }),
    {
        match self {
            ToggleSound::Enabled => 3,
            ToggleSound::Disabled => 1,
        }
    }
}

/// A program that can play the toggle sound, with its arguments.
#[derive(Debug, Clone, PartialEq, Eq)]
pub struct PlayerBackend {
    pub program: &'static str,
    pub args: Vec<String>,
}

/// The sound players to try, in order: with a sound file, `paplay` and
/// `pw-play` on it; then `canberra-gtk-play` with the bell event.
pub fn backends(sound_path: Option<String>) -> (r: Vec<PlayerBackend>)
    ensures
        sound_path matches Some(path) ==> r@.len() == 3 && r@[0].program == "paplay" && r@[0].args@
            == seq![path] && r@[1].program == "pw-play" && r@[1].args@ == seq![path],
        sound_path is None ==> r@.len() == 1,
        r@.last().program == "canberra-gtk-play",
        r@.last().args@.len() == 2,
        r@.last().args@[0]@ == "-i"@,
        r@.last().args@[1]@ == "bell"@,
{
    let mut out: Vec<PlayerBackend> = Vec::new();
    if let Some(path) = sound_path {
        let again = path.clone();
        out.push(PlayerBackend { program: "paplay", args: vec![path] });
        out.push(PlayerBackend { program: "pw-play", args: vec![again] });
    }
    let flag = String::from_str("-i");
    let event = String::from_str("bell");
    proof {
        reveal_strlit("-i");
        reveal_strlit("bell");
    }
    out.push(PlayerBackend { program: "canberra-gtk-play", args: vec![flag, event] });
    out
}

/// How an attempt to play the sound with one program went.
#[derive(Debug, Clone, Copy, PartialEq, Eq, Structural)]
pub enum BackendOutcome {
    /// The program ran and succeeded.
    Played,
    /// The program ran and failed.
    NotPlayed,
    /// The program is not installed.
    NotFound,
    /// The program could not be started for another reason.
    Failed,
}

/// What to do after an attempt to play the sound.
#[derive(Debug, Clone, Copy, PartialEq, Eq, Structural)]
pub enum PlayStep {
    /// The sound was played.
    Done,
    /// Try the next program.
    TryNext,
    /// Give up with the attempt's error.
    Abort,
}

/// The next step after an attempt: done where it played, the next program
/// where it did not play or is not installed, and give up on other errors.
pub fn after_backend(outcome: BackendOutcome) -> (r: PlayStep)
    ensures
        r == (match outcome {
            BackendOutcome::Played => PlayStep::Done,
            BackendOutcome::NotPlayed => PlayStep::TryNext,
            BackendOutcome::NotFound => PlayStep::TryNext,
            BackendOutcome::Failed => PlayStep::Abort,
        }),
{
    match outcome {
        BackendOutcome::Played => PlayStep::Done,
        BackendOutcome::NotPlayed => PlayStep::TryNext,
        BackendOutcome::NotFound => PlayStep::TryNext,
        BackendOutcome::Failed => PlayStep::Abort,
    }
}

/// The OS error number of a missing device.
pub const ENODEV: i32 = 19;

/// Whether an input device's error means the device is gone: it was not
/// found, or the OS reports that there is no such device.
pub fn device_gone(not_found: bool, raw_os_error: Option<i32>) -> (r: bool)
    ensures
        r == (not_found || raw_os_error == Some(ENODEV)),
{
    not_found || match raw_os_error {
        Some(code) => code == ENODEV,
        None => false,
    }
}

/// A command from the keyboard monitor.
#[derive(Debug, Clone, Copy, PartialEq, Eq, Structural)]
pub enum KeyboardCommand {
    ToggleRelay,
}

// ---------------------------------------------------------------------------
// Device discovery
// ---------------------------------------------------------------------------

/// A device is a mouse to relay: it has the X and Y axes and a left button.
pub fn is_mouse_candidate(has_rel_x: bool, has_rel_y: bool, has_btn_left: bool) -> (r: bool)
    ensures
        r == (has_rel_x && has_rel_y && has_btn_left),
{
    has_rel_x && has_rel_y && has_btn_left
}

/// A device is a keyboard to watch: it has the toggle key and looks like a
/// keyboard.
pub fn is_keyboard_candidate(supports_toggle: bool, looks_like_keyboard: bool) -> (r: bool)
    ensures
        r == (supports_toggle && looks_like_keyboard),
{
    supports_toggle && looks_like_keyboard
}

/// A device the relay made itself or a known injector is never grabbed: its
/// name, in ASCII lower case, contains `fun-mouse` or `ydotoold`.
pub fn is_excluded_virtual_device(name: &str) -> (r: bool)
    ensures
        r == (contains_text(name@.map_values(|c: char| ascii_lower(c)), "fun-mouse"@) || contains_text(
            name@.map_values(|c: char| ascii_lower(c)),
            "ydotoold"@,
        )),
{
    let lower = ascii_lowercase(name);
    let lower_chars = chars_of(lower.as_str());
    let ours = chars_of("fun-mouse");
    let injector = chars_of("ydotoold");
    contains_chars(&lower_chars, &ours) || contains_chars(&lower_chars, &injector)
}

// ---------------------------------------------------------------------------
// Input events
// ---------------------------------------------------------------------------

/// The Linux input event type of synchronization events.
pub const EV_SYN: u16 = 0x00;
/// The Linux input event type of keys and buttons.
pub const EV_KEY: u16 = 0x01;
/// The Linux input event type of relative axes.
pub const EV_REL: u16 = 0x02;
/// The end of a report.
pub const SYN_REPORT: u16 = 0;
/// The left mouse button.
pub const BTN_LEFT: u16 = 0x110;
/// The last of the five relayed buttons.
pub const BTN_EXTRA: u16 = 0x114;
/// The relayed relative axes.
pub const REL_X: u16 = 0x00;
pub const REL_Y: u16 = 0x01;
pub const REL_HWHEEL: u16 = 0x06;
pub const REL_WHEEL: u16 = 0x08;

/// One input event: its Linux type, code and value.
#[derive(Debug, Clone, Copy, PartialEq, Eq, Structural)]
pub struct RelayEvent {
    pub event_type: u16,
    pub code: u16,
    pub value: i32,
}

/// The buttons the relay passes on: left, right, middle, side and extra.
pub open spec fn supported_button(code: u16) -> bool {
    BTN_LEFT <= code <= BTN_EXTRA
}

/// The axes the relay passes on: X, Y and both wheels.
pub open spec fn supported_axis(code: u16) -> bool {
    code == REL_X || code == REL_Y || code == REL_WHEEL || code == REL_HWHEEL
}

/// The relayed axes are exactly X (0), Y (1), the horizontal wheel (6) and
/// the vertical wheel (8); the relayed buttons exactly left (0x110), right
/// (0x111), middle (0x112), side (0x113) and extra (0x114).
pub proof fn lemma_relayed_codes(code: u16)
    ensures
        supported_axis(code) <==> (code == 0 || code == 1 || code == 6 || code == 8),
        supported_button(code) <==> (code == 0x110 || code == 0x111 || code == 0x112 || code == 0x113
            || code == 0x114),
{
}

/// Whether a key code is a relayed button.
pub fn is_supported_button(code: u16) -> (r: bool)
    ensures
        r == supported_button(code),
        r <==> 0x110 <= code <= 0x114,
{
    BTN_LEFT <= code && code <= BTN_EXTRA
}

/// Whether a relative axis is relayed.
pub fn is_supported_relative_axis(code: u16) -> (r: bool)
    ensures
        r == supported_axis(code),
        r <==> (code == 0 || code == 1 || code == 6 || code == 8),
{
    code == REL_X || code == REL_Y || code == REL_WHEEL || code == REL_HWHEEL
}

/// How long the bound button has been held: presses less releases.
#[derive(Debug, Clone, Copy, PartialEq, Eq, Structural)]
pub struct ButtonBindingState {
    pub key: u16,
    pub held_count: usize,
}

/// The hold count after one event of `code` with `value`: a press of the
/// bound key adds one, a release takes one, both held within `usize`.
pub open spec fn observed(state: ButtonBindingState, code: u16, value: i32) -> ButtonBindingState {
    if code != state.key {
        state
    } else if value == 1 {
        ButtonBindingState {
            held_count: if state.held_count == usize::MAX {
                state.held_count
            } else {
                (state.held_count + 1) as usize
            },
            ..state
        }
    } else if value == 0 {
        ButtonBindingState {
            held_count: if state.held_count == 0 {
                0
            } else {
                (state.held_count - 1) as usize
            },
            ..state
        }
    } else {
        state
    }
}

impl ButtonBindingState {
    /// The state of a binding to `key`, not held.
    pub fn new(key: u16) -> (s: ButtonBindingState)
        ensures
            s.key == key,
            s.held_count == 0,
    {
        ButtonBindingState { key, held_count: 0 }
    }

    /// Whether the bound button is held.
    pub fn is_down(&self) -> (r: bool)
        ensures
            r == (self.held_count > 0),
    {
        self.held_count > 0
    }

    /// Forgets every press.
    pub fn clear(&mut self)
        ensures
            final(self).key == old(self).key,
            final(self).held_count == 0,
    {
        self.held_count = 0;
    }

    /// Counts a press or a release of the bound key.
    pub fn observe(&mut self, code: u16, value: i32)
        ensures
            *final(self) == observed(*old(self), code, value),
    {
        if code != self.key {
            return;
        }
        if value == 1 {
            self.held_count = self.held_count.saturating_add(1);
        } else if value == 0 {
            self.held_count = self.held_count.saturating_sub(1);
        }
    }
}

/// A press of the bound key followed by its release leaves the hold count as
/// it was, where the count could still grow.
pub proof fn lemma_press_then_release_restores(state: ButtonBindingState)
    requires
        state.held_count < usize::MAX,
    ensures
        observed(observed(state, state.key, 1), state.key, 0) == state,
{
}

/// Events of other keys leave the hold count alone.
pub proof fn lemma_other_keys_ignored(state: ButtonBindingState, code: u16, value: i32)
    requires
        code != state.key,
    ensures
        observed(state, code, value) == state,
{
}

/// Takes one event from a physical mouse. The end of a report hands back the
/// pending batch to emit when the relay is on, and empties it; a relayed axis,
/// and a press or release of a relayed button, join the batch when the relay
/// is on; a relayed button also counts toward the trigger binding.
pub fn process_event(
    pending_batch: &mut Vec<RelayEvent>,
    relay_enabled: bool,
    event: RelayEvent,
    trigger_binding: &mut Option<ButtonBindingState>,
) -> (emit: Option<Vec<RelayEvent>>)
    ensures
        event.event_type == EV_SYN && event.code == SYN_REPORT ==> {
            &&& final(pending_batch)@ == Seq::<RelayEvent>::empty()
            &&& *final(trigger_binding) == *old(trigger_binding)
            &&& relay_enabled ==> (emit matches Some(batch) && batch@ == old(pending_batch)@)
            &&& !relay_enabled ==> emit is None
        },
        event.event_type == 2 && (event.code == 0 || event.code == 1 || event.code == 6 || event.code == 8)
            ==> final(pending_batch)@ == (if relay_enabled {
            old(pending_batch)@.push(event)
        } else {
            old(pending_batch)@
        }),
        event.event_type == EV_REL && supported_axis(event.code) ==> {
            &&& emit is None
            &&& *final(trigger_binding) == *old(trigger_binding)
            &&& final(pending_batch)@ == (if relay_enabled {
                old(pending_batch)@.push(event)
            } else {
                old(pending_batch)@
            })
        },
        event.event_type == EV_KEY && supported_button(event.code) ==> {
            &&& emit is None
            &&& *final(trigger_binding) == match *old(trigger_binding) {
                Some(state) => Some(observed(state, event.code, event.value)),
                None => None::<ButtonBindingState>,
            }
            &&& final(pending_batch)@ == (if relay_enabled && (event.value == 0 || event.value == 1) {
                old(pending_batch)@.push(event)
            } else {
                old(pending_batch)@
            })
        },
        !(event.event_type == EV_SYN && event.code == SYN_REPORT) && !(event.event_type == EV_REL
            && supported_axis(event.code)) && !(event.event_type == EV_KEY && supported_button(
            event.code,
        )) ==> {
            &&& emit is None
            &&& *final(trigger_binding) == *old(trigger_binding)
            &&& final(pending_batch)@ == old(pending_batch)@
        },
{
    if event.event_type == EV_SYN && event.code == SYN_REPORT {
        let mut batch: Vec<RelayEvent> = Vec::new();
        std::mem::swap(&mut batch, pending_batch);
        if relay_enabled {
            return Some(batch);
        }
        return None;
    }
    if event.event_type == EV_REL && is_supported_relative_axis(event.code) {
        if relay_enabled {
            pending_batch.push(event);
        }
        return None;
    }
    if event.event_type == EV_KEY && is_supported_button(event.code) {
        match trigger_binding {
            Some(state) => state.observe(event.code, event.value),
            None => {},
        }
        if relay_enabled && (event.value == 0 || event.value == 1) {
            pending_batch.push(event);
        }
        return None;
    }
    None
}

// ---------------------------------------------------------------------------
// The virtual mouse's buttons
// ---------------------------------------------------------------------------

/// The buttons the virtual mouse has pressed, and what holds its left button:
/// the physical left button and the trigger.
#[derive(Debug, Clone, Copy, PartialEq, Eq, Structural)]
pub struct VirtualButtons {
    pub left_emitted: bool,
    pub right_emitted: bool,
    pub middle_emitted: bool,
    pub side_emitted: bool,
    pub extra_emitted: bool,
    pub physical_left_down: bool,
    pub synthetic_left_down: bool,
}

/// Whether the virtual mouse has pressed the button `code`.
pub open spec fn emitted(s: VirtualButtons, code: u16) -> bool {
    if code == 0x110 {
        s.left_emitted
    } else if code == 0x111 {
        s.right_emitted
    } else if code == 0x112 {
        s.middle_emitted
    } else if code == 0x113 {
        s.side_emitted
    } else if code == 0x114 {
        s.extra_emitted
    } else {
        false
    }
}

/// `s` with the button `code` pressed or released.
pub open spec fn with_emitted(s: VirtualButtons, code: u16, down: bool) -> VirtualButtons {
    if code == 0x110 {
        VirtualButtons { left_emitted: down, ..s }
    } else if code == 0x111 {
        VirtualButtons { right_emitted: down, ..s }
    } else if code == 0x112 {
        VirtualButtons { middle_emitted: down, ..s }
    } else if code == 0x113 {
        VirtualButtons { side_emitted: down, ..s }
    } else if code == 0x114 {
        VirtualButtons { extra_emitted: down, ..s }
    } else {
        s
    }
}

/// A key event.
pub open spec fn key_event(code: u16, value: i32) -> RelayEvent {
    RelayEvent { event_type: EV_KEY, code, value }
}

/// One event of a batch: a press or release of the physical left button is
/// kept back and only recorded; a press or release of another relayed button
/// is recorded and passed on; everything else is passed on.
pub open spec fn batch_step(s: VirtualButtons, e: RelayEvent) -> (VirtualButtons, RelayEvent, bool) {
    if e.event_type == EV_KEY && e.code == BTN_LEFT && (e.value == 0 || e.value == 1) {
        (VirtualButtons { physical_left_down: e.value == 1, ..s }, e, false)
    } else if e.event_type == EV_KEY && supported_button(e.code) {
        (
            if e.value == 1 {
                with_emitted(s, e.code, true)
            } else if e.value == 0 {
                with_emitted(s, e.code, false)
            } else {
                s
            },
            e,
            true,
        )
    } else {
        (s, e, true)
    }
}

/// A batch of events, one after the other: the state after them and the
/// events passed on.
pub open spec fn batch_outcome(s: VirtualButtons, events: Seq<RelayEvent>) -> (VirtualButtons, Seq<
    RelayEvent,
>)
    decreases events.len(),
{
    if events.len() == 0 {
        (s, Seq::empty())
    } else {
        let (before, out) = batch_outcome(s, events.drop_last());
        let (after, e, passed) = batch_step(before, events.last());
        (after, if passed {
            out.push(e)
        } else {
            out
        })
    }
}

/// The left button the virtual mouse should hold: the physical one or the
/// trigger's.
pub open spec fn left_wanted(s: VirtualButtons) -> bool {
    s.physical_left_down || s.synthetic_left_down
}

/// Brings the emitted left button to what is wanted, with the event that
/// does it where it changes.
pub open spec fn left_edge(s: VirtualButtons) -> (VirtualButtons, Option<RelayEvent>) {
    if left_wanted(s) == s.left_emitted {
        (s, None)
    } else {
        (
            VirtualButtons { left_emitted: left_wanted(s), ..s },
            Some(key_event(BTN_LEFT, if left_wanted(s) { 1 } else { 0 })),
        )
    }
}

/// The release events of the pressed buttons, from left to extra.
pub open spec fn releases(s: VirtualButtons) -> Seq<RelayEvent> {
    (if s.left_emitted { seq![key_event(0x110, 0)] } else { Seq::empty() }) + (if s.right_emitted {
        seq![key_event(0x111, 0)]
    } else {
        Seq::empty()
    }) + (if s.middle_emitted { seq![key_event(0x112, 0)] } else { Seq::empty() }) + (
    if s.side_emitted {
        seq![key_event(0x113, 0)]
    } else {
        Seq::empty()
    }) + (if s.extra_emitted { seq![key_event(0x114, 0)] } else { Seq::empty() })
}

/// Nothing is pressed, neither by the virtual mouse nor held for it.
pub open spec fn all_released(s: VirtualButtons) -> bool {
    !s.left_emitted && !s.right_emitted && !s.middle_emitted && !s.side_emitted && !s.extra_emitted
        && !s.physical_left_down && !s.synthetic_left_down
}

impl VirtualButtons {
    /// Nothing pressed.
    pub fn new() -> (s: VirtualButtons)
        ensures
            all_released(s),
    {
        VirtualButtons {
            left_emitted: false,
            right_emitted: false,
            middle_emitted: false,
            side_emitted: false,
            extra_emitted: false,
            physical_left_down: false,
            synthetic_left_down: false,
        }
    }

    /// Records the press (1) or release (0) of a relayed button; other values
    /// change nothing.
    pub fn update_emitted_button(&mut self, code: u16, value: i32)
        ensures
            *final(self) == (if value == 1 {
                with_emitted(*old(self), code, true)
            } else if value == 0 {
                with_emitted(*old(self), code, false)
            } else {
                *old(self)
            }),
    {
        if value != 0 && value != 1 {
            return;
        }
        let down = value == 1;
        if code == 0x110 {
            self.left_emitted = down;
        } else if code == 0x111 {
            self.right_emitted = down;
        } else if code == 0x112 {
            self.middle_emitted = down;
        } else if code == 0x113 {
            self.side_emitted = down;
        } else if code == 0x114 {
            self.extra_emitted = down;
        }
    }

    /// Brings the emitted left button to what is wanted, returning the event
    /// that does it where it changes. Afterwards the left button is emitted
    /// exactly when the physical button or the trigger holds it.
    pub fn sync_left_edge(&mut self) -> (edge: Option<RelayEvent>)
        ensures
            (*final(self), edge) == left_edge(*old(self)),
            final(self).left_emitted == left_wanted(*final(self)),
    {
        let desired_down = self.physical_left_down || self.synthetic_left_down;
        if desired_down == self.left_emitted {
            return None;
        }
        self.left_emitted = desired_down;
        Some(RelayEvent { event_type: EV_KEY, code: BTN_LEFT, value: if desired_down { 1 } else { 0 } })
    }

    /// Takes a batch of events from the physical mice and returns the events
    /// the virtual mouse emits for it: the batch without the physical left
    /// button's presses and releases, then the left button's edge where the
    /// wanted state changed. An empty batch changes nothing.
    pub fn emit_batch(&mut self, events: &[RelayEvent]) -> (output: Vec<RelayEvent>)
        ensures
            events@.len() == 0 ==> *final(self) == *old(self) && output@ == Seq::<RelayEvent>::empty(),
            events@.len() > 0 ==> {
                let (after, passed) = batch_outcome(*old(self), events@);
                let (synced, edge) = left_edge(after);
                &&& *final(self) == synced
                &&& output@ == match edge {
                    Some(e) => passed.push(e),
                    None => passed,
                }
                &&& final(self).left_emitted == left_wanted(*final(self))
            },
    {
        let mut output: Vec<RelayEvent> = Vec::new();
        if events.len() == 0 {
            return output;
        }
        let ghost start = *self;
        let mut i: usize = 0;
        while i < events.len()
            invariant
                i <= events@.len(),
                (*self, output@) == batch_outcome(start, events@.take(i as int)),
            decreases events.len() - i,
        {
            let event = events[i];
            proof {
                assert(events@.take(i + 1).drop_last() =~= events@.take(i as int));
            }
            if event.event_type == EV_KEY && event.code == BTN_LEFT && (event.value == 0
                || event.value == 1) {
                self.physical_left_down = event.value == 1;
            } else if event.event_type == EV_KEY && is_supported_button(event.code) {
                self.update_emitted_button(event.code, event.value);
                output.push(event);
            } else {
                output.push(event);
            }
            i = i + 1;
        }
        proof {
            assert(events@.take(i as int) =~= events@);
        }
        match self.sync_left_edge() {
            Some(edge) => output.push(edge),
            None => {},
        }
        output
    }

    /// Sets whether the trigger holds the left button, returning the left
    /// button's edge where the wanted state changed.
    pub fn set_synthetic_left(&mut self, down: bool) -> (edge: Option<RelayEvent>)
        ensures
            old(self).synthetic_left_down == down ==> *final(self) == *old(self) && edge is None,
            old(self).synthetic_left_down != down ==> (*final(self), edge) == left_edge(
                VirtualButtons { synthetic_left_down: down, ..*old(self) },
            ),
            old(self).synthetic_left_down != down ==> final(self).left_emitted == left_wanted(
                *final(self),
            ),
    {
        if self.synthetic_left_down == down {
            return None;
        }
        self.synthetic_left_down = down;
        self.sync_left_edge()
    }

    /// Releases every button the virtual mouse holds, returning the release
    /// events, and forgets what held the left button.
    pub fn release_pressed_buttons(&mut self) -> (output: Vec<RelayEvent>)
        ensures
            output@ == releases(*old(self)),
            all_released(*final(self)),
    {
        let mut output: Vec<RelayEvent> = Vec::new();
        if self.left_emitted {
            output.push(RelayEvent { event_type: EV_KEY, code: 0x110, value: 0 });
        }
        if self.right_emitted {
            output.push(RelayEvent { event_type: EV_KEY, code: 0x111, value: 0 });
        }
        if self.middle_emitted {
            output.push(RelayEvent { event_type: EV_KEY, code: 0x112, value: 0 });
        }
        if self.side_emitted {
            output.push(RelayEvent { event_type: EV_KEY, code: 0x113, value: 0 });
        }
        if self.extra_emitted {
            output.push(RelayEvent { event_type: EV_KEY, code: 0x114, value: 0 });
        }
        assert(output@ =~= releases(*self));
        *self = VirtualButtons::new();
        output
    }
}

// ---------------------------------------------------------------------------
// Toggling the relay
// ---------------------------------------------------------------------------

/// A toggle of the relay, while it is on, turns it off: the buttons the
/// virtual mouse still holds are released (the returned events, for the
/// program to emit before it lets the mice go), the trigger binding forgets
/// its presses, and the switch goes off. While it is off, nothing changes
/// and `None` says the mice are to be grabbed again (see `finish_enable`).
pub fn toggle_relay(
    kill_switch: &mut KillSwitch,
    buttons: &mut VirtualButtons,
    trigger_binding: &mut Option<ButtonBindingState>,
) -> (r: Option<Vec<RelayEvent>>)
    ensures
        old(kill_switch).is_on() ==> {
            &&& r matches Some(released) && released@ == releases(*old(buttons))
            &&& all_released(*final(buttons))
            &&& !final(kill_switch).is_on()
            &&& match *old(trigger_binding) {
                Some(state) => *final(trigger_binding) == Some(
                    ButtonBindingState { key: state.key, held_count: 0 },
                ),
                None => *final(trigger_binding) == None::<ButtonBindingState>,
            }
        },
        !old(kill_switch).is_on() ==> r is None && final(kill_switch).is_on() == old(
            kill_switch,
        ).is_on() && *final(buttons) == *old(buttons) && *final(trigger_binding) == *old(
            trigger_binding,
        ),
{
    if !kill_switch.enabled() {
        return None;
    }
    let released = buttons.release_pressed_buttons();
    if let Some(state) = trigger_binding {
        state.clear();
    }
    kill_switch.toggle();
    Some(released)
}

/// Ends a toggle that turns the relay on, once the mice were grabbed again
/// (`grabbed`) or not: on with the enabling sound where they were, off and
/// silent where they were not.
pub fn finish_enable(kill_switch: &mut KillSwitch, grabbed: bool) -> (r: Option<ToggleSound>)
    requires
        !old(kill_switch).is_on(),
    ensures
        final(kill_switch).is_on() == grabbed,
        r == (if grabbed {
            Some(ToggleSound::Enabled)
        } else {
            None::<ToggleSound>
        }),
{
    if grabbed {
        kill_switch.toggle();
        Some(ToggleSound::Enabled)
    } else {
        kill_switch.disable();
        None
    }
}

// ---------------------------------------------------------------------------
// The trigger
// ---------------------------------------------------------------------------

/// The latest fire decision of the trigger service.
#[derive(Debug, Clone, Copy, PartialEq, Eq, Structural)]
pub struct TriggerDecision {
    should_fire: bool,
}

impl TriggerDecision {
    /// The decision held.
    pub closed spec fn fires(&self) -> bool {
        self.should_fire
    }

    /// A decision that never fires: the relay has no trigger binding.
    pub fn disabled() -> (d: TriggerDecision)
        ensures
            !d.fires(),
    {
        TriggerDecision { should_fire: false }
    }

    /// Takes the latest frame read from the trigger service: its decision
    /// where it could be read, not firing where it could not.
    pub fn record_frame(&mut self, frame_should_fire: Option<bool>)
        ensures
            final(self).fires() == (frame_should_fire == Some(true)),
    {
        self.should_fire = match frame_should_fire {
            Some(fire) => fire,
            None => false,
        };
    }

    /// Whether the trigger service says to fire.
    pub fn should_fire(&self) -> (r: bool)
        ensures
            r == self.fires(),
    {
        self.should_fire
    }
}

/// Whether the virtual mouse holds the left button for the trigger: the relay
/// is on, the trigger binding is held, and the trigger service says to fire.
pub fn synthetic_fire(
    relay_enabled: bool,
    trigger_binding: &Option<ButtonBindingState>,
    decision: &TriggerDecision,
) -> (r: bool)
    ensures
        r == (relay_enabled && (match *trigger_binding {
            Some(state) => state.held_count > 0,
            None => false,
        }) && decision.fires()),
{
    let held = match trigger_binding {
        Some(state) => state.is_down(),
        None => false,
    };
    relay_enabled && held && decision.should_fire()
}

} // verus!
