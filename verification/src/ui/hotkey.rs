//! The global hotkey: which key events start and stop a recording.
//!
//! The keyboard hook hands every key event in and asks whether to swallow it.
//! The trigger key is always swallowed, so that a tap of it never reaches the
//! focused window.

use vstd::prelude::*;

verus! {

/// A recording starts with `Press` and ends with `Release`. The two take turns.
#[derive(Debug, Clone, Copy, PartialEq, Eq, Structural)]
pub enum HotkeyEvent {
    Press,
    Release,
}

/// How the key works.
///
/// * `Combo`: a short tap starts a recording that the next tap ends; a key
///   that is held past [`COMBO_HOLD_MS`] records until it is let go.
/// * `Hold`: the key records while it is held.
/// * `Tap`: each tap starts or ends a recording.
#[derive(Debug, Clone, Copy, PartialEq, Eq, Structural)]
pub enum Mode {
    Combo,
    Hold,
    Tap,
}

/// A key that is let go before this many milliseconds was tapped, in
/// [`Mode::Combo`].
pub const COMBO_HOLD_MS: u64 = 300;

/// Keys that can be the hotkey. A key that types a character is none, since
/// the trigger is swallowed.
#[derive(Debug, Clone, Copy, PartialEq, Eq, Structural)]
pub enum Trigger {
    RightAlt,
    LeftAlt,
    RightCtrl,
    LeftCtrl,
    RightShift,
    LeftShift,
    RightWin,
    LeftWin,
    CapsLock,
}

#[derive(Debug, Clone, Copy, PartialEq, Eq, Structural)]
pub struct Config {
    pub trigger: Trigger,
    pub mode: Mode,
}

impl Default for Config {
    fn default() -> (r: Self)
        ensures
            r == (Config { trigger: Trigger::RightAlt, mode: Mode::Combo }),
    {
        Config { trigger: Trigger::RightAlt, mode: Mode::Combo }
    }
}

/// The virtual-key code of a trigger. Left and right keys have codes of their
/// own.
pub open spec fn vk_of(t: Trigger) -> u32 {
    match t {
        Trigger::RightAlt => 0xA5,
        Trigger::LeftAlt => 0xA4,
        Trigger::RightCtrl => 0xA3,
        Trigger::LeftCtrl => 0xA2,
        Trigger::RightShift => 0xA1,
        Trigger::LeftShift => 0xA0,
        Trigger::RightWin => 0x5C,
        Trigger::LeftWin => 0x5B,
        Trigger::CapsLock => 0x14,
    }
}

pub fn trigger_vk(t: Trigger) -> (r: u32)
    ensures
        r == vk_of(t),
{
    match t {
        Trigger::RightAlt => 0xA5,
        Trigger::LeftAlt => 0xA4,
        Trigger::RightCtrl => 0xA3,
        Trigger::LeftCtrl => 0xA2,
        Trigger::RightShift => 0xA1,
        Trigger::LeftShift => 0xA0,
        Trigger::RightWin => 0x5C,
        Trigger::LeftWin => 0x5B,
        Trigger::CapsLock => 0x14,
    }
}

/// What happened to a key.
#[derive(Debug, Clone, Copy, PartialEq, Eq, Structural)]
pub enum KeyAction {
    Down,
    Up,
    Other,
}

/// Where a recording stands.
#[derive(Debug, Clone, Copy, PartialEq, Eq, Structural)]
pub enum LogicalState {
    Idle,
    /// Recording, and the key is down since this time.
    Hold { down_at_ms: u64 },
    /// Recording, and the key was tapped: the next tap ends it.
    Toggle,
}

/// The state of the hook.
#[derive(Debug, Clone, Copy, PartialEq, Eq, Structural)]
pub struct HookState {
    pub trigger_vk: u32,
    pub mode: Mode,
    /// Whether the trigger is down. A key that is held repeats, and repeats
    /// are no new presses.
    pub is_pressed: bool,
    pub logical: LogicalState,
}

/// What the hook makes of a key event.
#[derive(Debug, Clone, Copy, PartialEq, Eq, Structural)]
pub struct KeyOutcome {
    /// Keep the event from the focused window.
    pub swallow: bool,
    pub event: Option<HotkeyEvent>,
}

impl HookState {
    /// Whether a recording is on.
    pub open spec fn recording(self) -> bool {
        self.logical != LogicalState::Idle
    }

    /// The state after the trigger went down, and the event that this is.
    pub open spec fn after_down(self, now_ms: u64) -> (HookState, Option<HotkeyEvent>) {
        let pressed = HookState { is_pressed: true, ..self };
        if self.is_pressed {
            (self, None)
        } else {
            match (self.logical, self.mode) {
                (LogicalState::Idle, Mode::Tap) => (
                    HookState { logical: LogicalState::Toggle, ..pressed },
                    Some(HotkeyEvent::Press),
                ),
                (LogicalState::Idle, _) => (
                    HookState { logical: LogicalState::Hold { down_at_ms: now_ms }, ..pressed },
                    Some(HotkeyEvent::Press),
                ),
                (LogicalState::Toggle, _) => (
                    HookState { logical: LogicalState::Idle, ..pressed },
                    Some(HotkeyEvent::Release),
                ),
                (LogicalState::Hold { .. }, _) => (pressed, None),
            }
        }
    }

    /// The state after the trigger went up, and the event that this is.
    pub open spec fn after_up(self, now_ms: u64) -> (HookState, Option<HotkeyEvent>) {
        let released = HookState { is_pressed: false, ..self };
        let ended = HookState { logical: LogicalState::Idle, ..released };
        if !self.is_pressed {
            (self, None)
        } else {
            match (self.logical, self.mode) {
                (LogicalState::Hold { down_at_ms }, Mode::Combo) => if now_ms - down_at_ms
                    >= COMBO_HOLD_MS {
                    (ended, Some(HotkeyEvent::Release))
                } else {
                    (HookState { logical: LogicalState::Toggle, ..released }, None)
                },
                (LogicalState::Hold { .. }, Mode::Hold) => (ended, Some(HotkeyEvent::Release)),
                _ => (released, None),
            }
        }
    }

    /// The state after a key event, and what the hook makes of it.
    pub open spec fn after_key(self, vk: u32, action: KeyAction, now_ms: u64) -> (
        HookState,
        KeyOutcome,
    ) {
        if vk != self.trigger_vk {
            (self, KeyOutcome { swallow: false, event: None })
        } else {
            let (state, event) = match action {
                KeyAction::Down => self.after_down(now_ms),
                KeyAction::Up => self.after_up(now_ms),
                KeyAction::Other => (self, None),
            };
            (state, KeyOutcome { swallow: true, event })
        }
    }

    /// The state after a change of trigger and mode, and the event that this
    /// is: a recording that is on ends, since the key that would end it is no
    /// longer watched.
    pub open spec fn after_reconfigure(self, config: Config) -> (HookState, Option<HotkeyEvent>) {
        (
            HookState {
                trigger_vk: vk_of(config.trigger),
                mode: config.mode,
                is_pressed: false,
                logical: LogicalState::Idle,
            },
            if self.recording() {
                Some(HotkeyEvent::Release)
            } else {
                None
            },
        )
    }

    pub fn new(config: Config) -> (r: Self)
        ensures
            r == (HookState {
                trigger_vk: vk_of(config.trigger),
                mode: config.mode,
                is_pressed: false,
                logical: LogicalState::Idle,
            }),
    {
        HookState {
            trigger_vk: trigger_vk(config.trigger),
            mode: config.mode,
            is_pressed: false,
            logical: LogicalState::Idle,
        }
    }

    /// The trigger goes down.
    pub fn handle_key_down(&mut self, now_ms: u64) -> (r: Option<HotkeyEvent>)
        ensures
            (*final(self), r) == old(self).after_down(now_ms),
    {
        if self.is_pressed {
            return None;
        }
        self.is_pressed = true;
        match self.logical {
            LogicalState::Idle => {
                self.logical = match self.mode {
                    Mode::Tap => LogicalState::Toggle,
                    _ => LogicalState::Hold { down_at_ms: now_ms },
                };
                Some(HotkeyEvent::Press)
            },
            LogicalState::Toggle => {
                self.logical = LogicalState::Idle;
                Some(HotkeyEvent::Release)
            },
            LogicalState::Hold { .. } => None,
        }
    }

    /// The trigger goes up.
    pub fn handle_key_up(&mut self, now_ms: u64) -> (r: Option<HotkeyEvent>)
        ensures
            (*final(self), r) == old(self).after_up(now_ms),
    {
        if !self.is_pressed {
            return None;
        }
        self.is_pressed = false;
        if let LogicalState::Hold { down_at_ms } = self.logical {
            match self.mode {
                Mode::Combo => {
                    if now_ms >= down_at_ms && now_ms - down_at_ms >= COMBO_HOLD_MS {
                        self.logical = LogicalState::Idle;
                        Some(HotkeyEvent::Release)
                    } else {
                        self.logical = LogicalState::Toggle;
                        None
                    }
                },
                Mode::Hold => {
                    self.logical = LogicalState::Idle;
                    Some(HotkeyEvent::Release)
                },
                Mode::Tap => None,
            }
        } else {
            None
        }
    }

    /// Takes a key event at the given time on a clock that does not run back.
    pub fn on_key(&mut self, vk: u32, action: KeyAction, now_ms: u64) -> (r: KeyOutcome)
        ensures
            (*final(self), r) == old(self).after_key(vk, action, now_ms),
    {
        if vk != self.trigger_vk {
            return KeyOutcome { swallow: false, event: None };
        }
        let event = match action {
            KeyAction::Down => self.handle_key_down(now_ms),
            KeyAction::Up => self.handle_key_up(now_ms),
            KeyAction::Other => None,
        };
        KeyOutcome { swallow: true, event }
    }

    /// Changes trigger and mode.
    pub fn reconfigure(&mut self, config: Config) -> (r: Option<HotkeyEvent>)
        ensures
            (*final(self), r) == old(self).after_reconfigure(config),
    {
        let was_recording = match self.logical {
            LogicalState::Idle => false,
            _ => true,
        };
        *self = HookState::new(config);
        if was_recording {
            Some(HotkeyEvent::Release)
        } else {
            None
        }
    }
}

// ─── Laws ──────────────────────────────────────────────────────────────

/// Something that happens to the hook.
pub enum Input {
    Key { vk: u32, action: KeyAction, now_ms: u64 },
    Reconfigure(Config),
}

/// The hook after one input, and the event that it emits.
pub open spec fn after_input(state: HookState, input: Input) -> (HookState, Option<HotkeyEvent>) {
    match input {
        Input::Key { vk, action, now_ms } => {
            let (next, outcome) = state.after_key(vk, action, now_ms);
            (next, outcome.event)
        },
        Input::Reconfigure(config) => state.after_reconfigure(config),
    }
}

/// The hook after several inputs.
pub open spec fn state_after(start: HookState, inputs: Seq<Input>) -> HookState
    decreases inputs.len(),
{
    if inputs.len() == 0 {
        start
    } else {
        after_input(state_after(start, inputs.drop_last()), inputs.last()).0
    }
}

/// The events that several inputs emit.
pub open spec fn events_of(start: HookState, inputs: Seq<Input>) -> Seq<HotkeyEvent>
    decreases inputs.len(),
{
    if inputs.len() == 0 {
        seq![]
    } else {
        let earlier = events_of(start, inputs.drop_last());
        match after_input(state_after(start, inputs.drop_last()), inputs.last()).1 {
            Some(event) => earlier.push(event),
            None => earlier,
        }
    }
}

/// From an idle hook on, presses and releases take turns, starting with a
/// press; a recording is on exactly after a press.
pub proof fn law_press_and_release_take_turns(start: HookState, inputs: Seq<Input>)
    requires
        !start.recording(),
    ensures
        forall|i: int|
            0 <= i < events_of(start, inputs).len() ==> #[trigger] events_of(start, inputs)[i] == (
            if i % 2 == 0 {
                HotkeyEvent::Press
            } else {
                HotkeyEvent::Release
            }),
        state_after(start, inputs).recording() <==> events_of(start, inputs).len() % 2 == 1,
    decreases inputs.len(),
{
    if inputs.len() > 0 {
        law_press_and_release_take_turns(start, inputs.drop_last());
    }
}

/// A key that is not the trigger passes through and changes nothing; the
/// trigger never passes through.
pub proof fn law_only_the_trigger_is_swallowed(
    state: HookState,
    vk: u32,
    action: KeyAction,
    now_ms: u64,
)
    ensures
        state.after_key(vk, action, now_ms).1.swallow <==> vk == state.trigger_vk,
        vk != state.trigger_vk ==> state.after_key(vk, action, now_ms).0 == state,
{
}

/// A key that is held repeats: while the trigger is down, it going down again
/// changes nothing and is no event.
pub proof fn law_repeats_change_nothing(state: HookState, now_ms: u64, later_ms: u64)
    ensures
        state.after_down(now_ms).0.after_down(later_ms) == (state.after_down(now_ms).0, None::<
            HotkeyEvent,
        >),
{
}

/// How a recording ends that a press of the trigger began. In hold mode it ends
/// with the key going up, in tap mode with the next press. In combo mode it ends
/// with the key going up if that was held long enough, and otherwise with the
/// next press.
pub proof fn law_modes_end_recordings(state: HookState, down_ms: u64, up_ms: u64, next_ms: u64)
    requires
        !state.recording(),
        !state.is_pressed,
    ensures
        ({
            let (down, pressed) = state.after_down(down_ms);
            let (up, released) = down.after_up(up_ms);
            let at_once = state.mode == Mode::Hold || (state.mode == Mode::Combo && up_ms - down_ms
                >= 300);
            &&& pressed == Some(HotkeyEvent::Press)
            &&& released == (if at_once {
                Some(HotkeyEvent::Release)
            } else {
                None
            })
            &&& !at_once ==> up.after_down(next_ms).1 == Some(HotkeyEvent::Release)
        }),
{
}

/// Whether the trigger is down after the inputs: the last thing that happened to
/// it since the trigger was chosen is that it went down.
pub open spec fn trigger_is_down(config: Config, inputs: Seq<Input>) -> bool
    decreases inputs.len(),
{
    if inputs.len() == 0 {
        false
    } else {
        let earlier = inputs.drop_last();
        match inputs.last() {
            Input::Reconfigure(_) => false,
            Input::Key { vk, action, .. } => if vk != vk_of(config_after(config, earlier).trigger) {
                trigger_is_down(config, earlier)
            } else {
                action == KeyAction::Down || (action == KeyAction::Other && trigger_is_down(
                    config,
                    earlier,
                ))
            },
        }
    }
}

/// The configuration after the inputs: the last one that was set.
pub open spec fn config_after(config: Config, inputs: Seq<Input>) -> Config
    decreases inputs.len(),
{
    if inputs.len() == 0 {
        config
    } else {
        match inputs.last() {
            Input::Reconfigure(chosen) => chosen,
            Input::Key { .. } => config_after(config, inputs.drop_last()),
        }
    }
}

/// The hook follows the key: after any history it counts as pressed exactly if
/// the trigger is down, and it works with the configuration that was set last.
pub proof fn law_the_hook_follows_the_key(start: HookState, config: Config, inputs: Seq<Input>)
    requires
        start.trigger_vk == vk_of(config.trigger),
        start.mode == config.mode,
        !start.is_pressed,
    ensures
        state_after(start, inputs).is_pressed <==> trigger_is_down(config, inputs),
        state_after(start, inputs).trigger_vk == vk_of(config_after(config, inputs).trigger),
        state_after(start, inputs).mode == config_after(config, inputs).mode,
    decreases inputs.len(),
{
    if inputs.len() > 0 {
        law_the_hook_follows_the_key(start, config, inputs.drop_last());
    }
}

/// The hook never goes dead: from every state, the trigger going up and down
/// again starts a recording if none is on, and nothing can keep it from that.
pub proof fn law_the_hotkey_stays_alive(state: HookState, up_ms: u64, down_ms: u64)
    ensures
        ({
            let (up, _) = state.after_up(up_ms);
            let (down, event) = up.after_down(down_ms);
            &&& !up.is_pressed
            &&& down.is_pressed
            &&& !up.recording() ==> event == Some(HotkeyEvent::Press) && down.recording()
            &&& up.logical == LogicalState::Toggle ==> event == Some(HotkeyEvent::Release)
                && !down.recording()
        }),
{
}

/// An event says what becomes of the recording: a press starts one, a release
/// ends one, and without an event it goes on or stays off.
pub proof fn law_events_and_recordings_agree(state: HookState, input: Input)
    ensures
        ({
            let (next, event) = after_input(state, input);
            &&& event == Some(HotkeyEvent::Press) <==> !state.recording() && next.recording()
            &&& event == Some(HotkeyEvent::Release) <==> state.recording() && !next.recording()
        }),
{
}

/// The keys behind the triggers, by their virtual-key codes: each has one of its
/// own.
pub proof fn law_triggers_are_different_keys(a: Trigger, b: Trigger)
    ensures
        vk_of(a) == vk_of(b) ==> a == b,
        vk_of(Trigger::LeftShift) == 0xA0 && vk_of(Trigger::RightShift) == 0xA1,
        vk_of(Trigger::LeftCtrl) == 0xA2 && vk_of(Trigger::RightCtrl) == 0xA3,
        vk_of(Trigger::LeftAlt) == 0xA4 && vk_of(Trigger::RightAlt) == 0xA5,
        vk_of(Trigger::LeftWin) == 0x5B && vk_of(Trigger::RightWin) == 0x5C,
        vk_of(Trigger::CapsLock) == 0x14,
{
}

/// Choosing another hotkey ends the recording that is on, with a release, and
/// starts afresh: the next time that the new trigger goes down a recording starts.
pub proof fn law_choosing_a_hotkey_starts_afresh(state: HookState, config: Config, now_ms: u64)
    ensures
        ({
            let (next, event) = after_input(state, Input::Reconfigure(config));
            let key = Input::Key { vk: vk_of(config.trigger), action: KeyAction::Down, now_ms };
            &&& event == (if state.logical == LogicalState::Idle {
                None
            } else {
                Some(HotkeyEvent::Release)
            })
            &&& next.logical == LogicalState::Idle && !next.is_pressed
            &&& after_input(next, key).1 == Some(HotkeyEvent::Press)
        }),
{
}

} // verus!
