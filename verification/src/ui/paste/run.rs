//! Carrying out a delivery, one step at a time.
//!
//! A caller does what a run asks for and hands in what came of it. Opening the
//! clipboard, reading and writing it, injecting keys and pausing are the
//! caller's; what comes next is decided here.

use crate::text;
use crate::ui::paste::{
    self, check_injection, clipboard_busy, copy_to_clipboard, ctrl_v, restore_clipboard,
    ClipboardRestore, Config, KeyInput, PastePlan, Strategy,
};
use crate::ui::wide;
use vstd::prelude::*;

verus! {

/// What the clipboard is opened for.
#[derive(Debug, Clone, Copy, PartialEq, Eq, Structural)]
pub enum Access {
    /// To read what is there.
    Backup,
    /// To write the text that is delivered.
    Deliver,
    /// To put back what was there.
    Restore,
    /// To write a text that stays.
    Copy,
}

/// Where a run stands.
#[derive(Debug, Clone, Copy, PartialEq, Eq, Structural)]
pub enum Phase {
    /// The clipboard is being opened, with so many tries left.
    Opening { access: Access, left: u32 },
    /// A try has failed, and so many are left after a pause.
    Waiting { access: Access, left: u32 },
    /// The clipboard is open.
    Open { access: Access },
    /// Ctrl+V is being sent.
    Keys,
    /// The focused window is given time to read the clipboard.
    Settling,
    /// A batch of key events is being sent.
    Typing { at: usize },
    Over,
}

/// What a run asks for.
#[derive(Debug)]
pub enum PasteAction {
    /// Try to open the clipboard.
    Open,
    /// Wait so many milliseconds.
    Pause(u64),
    /// Read the text on the open clipboard and close it.
    Read,
    /// Write these code units to the open clipboard and close it.
    Write(Vec<u16>),
    /// Empty the open clipboard and close it.
    Clear,
    /// Inject these key events at once.
    Inject(Vec<KeyInput>),
    /// Nothing more: the run is over, with what went wrong if anything did.
    Finish(Option<String>),
}

/// What came of an action.
#[derive(Debug)]
pub enum PasteEvent {
    /// Whether the clipboard was opened.
    Opened(bool),
    Paused,
    /// The text on the clipboard, if there is one.
    Text(Option<String>),
    /// The clipboard was written or emptied, or what went wrong with it.
    Changed(Option<String>),
    /// How many key events were injected.
    Injected(u32),
}

/// A delivery under way.
#[derive(Debug)]
pub struct PasteRun {
    pub config: Config,
    /// What goes on the clipboard.
    pub units: Vec<u16>,
    /// What is typed.
    pub batches: Vec<Vec<KeyInput>>,
    /// The text that was on the clipboard.
    pub backup: Option<String>,
    /// What went wrong.
    pub fault: Option<String>,
    pub phase: Phase,
}

// ─── Model ─────────────────────────────────────────────────────────────

/// A run as a mathematical value.
#[verifier::ext_equal]
pub struct RunView {
    pub config: Config,
    pub units: Seq<u16>,
    pub batches: Seq<Vec<KeyInput>>,
    pub backup: Option<Seq<char>>,
    pub fault: Option<Seq<char>>,
    pub phase: Phase,
}

/// An action as a mathematical value.
#[verifier::ext_equal]
pub enum Task {
    Open,
    Pause(u64),
    Read,
    Write(Seq<u16>),
    Clear,
    Inject(Seq<KeyInput>),
    Finish(Option<Seq<char>>),
}

/// The characters of an optional string.
pub open spec fn chars(s: Option<String>) -> Option<Seq<char>> {
    match s {
        Some(s) => Some(s@),
        None => None,
    }
}

impl View for PasteRun {
    type V = RunView;

    open spec fn view(&self) -> RunView {
        RunView {
            config: self.config,
            units: self.units@,
            batches: self.batches@,
            backup: chars(self.backup),
            fault: chars(self.fault),
            phase: self.phase,
        }
    }
}

impl View for PasteAction {
    type V = Task;

    open spec fn view(&self) -> Task {
        match *self {
            PasteAction::Open => Task::Open,
            PasteAction::Pause(ms) => Task::Pause(ms),
            PasteAction::Read => Task::Read,
            PasteAction::Write(units) => Task::Write(units@),
            PasteAction::Clear => Task::Clear,
            PasteAction::Inject(keys) => Task::Inject(keys@),
            PasteAction::Finish(fault) => Task::Finish(chars(fault)),
        }
    }
}

impl RunView {
    /// What every step keeps: there is a try left and a batch to send.
    pub open spec fn valid(self) -> bool {
        match self.phase {
            Phase::Opening { left, .. } => left > 0,
            Phase::Typing { at } => at < self.batches.len(),
            _ => true,
        }
    }

    /// What the run asks for.
    pub open spec fn pending(self) -> Task {
        match self.phase {
            Phase::Opening { .. } => Task::Open,
            Phase::Waiting { .. } => Task::Pause(self.config.open_retry_ms),
            Phase::Open { access: Access::Backup } => Task::Read,
            Phase::Open { access: Access::Restore } => match self.backup {
                Some(text) => Task::Write(wide::utf16(text).push(0)),
                None => Task::Clear,
            },
            Phase::Open { .. } => Task::Write(self.units),
            Phase::Keys => Task::Inject(paste::ctrl_v_keys()),
            Phase::Settling => Task::Pause(self.config.paste_delay_ms),
            Phase::Typing { at } => Task::Inject(self.batches[at as int]@),
            Phase::Over => Task::Finish(self.fault),
        }
    }

    pub open spec fn at(self, phase: Phase) -> RunView {
        RunView { phase, ..self }
    }

    pub open spec fn failed(self, what: Seq<char>) -> RunView {
        RunView { fault: Some(what), phase: Phase::Over, ..self }
    }

    /// The run when the clipboard could not be opened. Without a backup the
    /// delivery goes on; what was delivered stays delivered.
    pub open spec fn given_up(self, access: Access) -> RunView {
        match access {
            Access::Backup => if self.config.open_attempts == 0 {
                self.given_up_delivering()
            } else {
                self.at(
                    Phase::Opening { access: Access::Deliver, left: self.config.open_attempts },
                )
            },
            Access::Deliver => self.given_up_delivering(),
            Access::Restore => self.at(Phase::Over),
            Access::Copy => self.failed(paste::busy_text(self.config)),
        }
    }

    pub open spec fn given_up_delivering(self) -> RunView {
        self.failed("write our text to clipboard: "@ + paste::busy_text(self.config))
    }

    /// The run when it turns to the clipboard.
    pub open spec fn opening(self, access: Access) -> RunView {
        if self.config.open_attempts == 0 {
            self.given_up(access)
        } else {
            self.at(Phase::Opening { access, left: self.config.open_attempts })
        }
    }

    /// The run after an event. One that does not belong to what was asked for
    /// changes nothing.
    pub open spec fn after(self, event: PasteEvent) -> RunView {
        match (self.phase, event) {
            (Phase::Opening { access, left }, PasteEvent::Opened(opened)) => if opened {
                self.at(Phase::Open { access })
            } else {
                self.at(Phase::Waiting { access, left: (left - 1) as u32 })
            },
            (Phase::Waiting { access, left }, PasteEvent::Paused) => if left == 0 {
                self.given_up(access)
            } else {
                self.at(Phase::Opening { access, left })
            },
            (Phase::Open { access: Access::Backup }, PasteEvent::Text(text)) => (RunView {
                backup: chars(text),
                ..self
            }).opening(Access::Deliver),
            (Phase::Open { access: Access::Deliver }, PasteEvent::Changed(fault)) => match fault {
                Some(what) => self.failed("write our text to clipboard: "@ + what@),
                None => self.at(Phase::Keys),
            },
            (Phase::Open { access: Access::Restore }, PasteEvent::Changed(_)) => self.at(
                Phase::Over,
            ),
            (Phase::Open { access: Access::Copy }, PasteEvent::Changed(fault)) => match fault {
                Some(what) => self.failed(what@),
                None => self.at(Phase::Over),
            },
            (Phase::Keys, PasteEvent::Injected(sent)) => RunView {
                fault: match paste::injection_fault(sent, paste::ctrl_v_keys().len(), true) {
                    Some(what) => Some("SendInput(Ctrl+V): "@ + what),
                    None => self.fault,
                },
                phase: Phase::Settling,
                ..self
            },
            (Phase::Settling, PasteEvent::Paused) => self.opening(Access::Restore),
            (Phase::Typing { at }, PasteEvent::Injected(sent)) => match paste::injection_fault(
                sent,
                self.batches[at as int]@.len(),
                false,
            ) {
                Some(what) => self.failed(what),
                None => if at + 1 < self.batches.len() {
                    self.at(Phase::Typing { at: (at + 1) as usize })
                } else {
                    self.at(Phase::Over)
                },
            },
            _ => self,
        }
    }

    /// Whether the run is the start of a delivery of `text`.
    pub open spec fn fresh(self, text: Seq<char>, config: Config) -> bool {
        let idle = RunView {
            config,
            units: seq![],
            batches: seq![],
            backup: None,
            fault: None,
            phase: Phase::Over,
        };
        if text.len() == 0 {
            self == idle
        } else {
            match config.strategy {
                Strategy::Clipboard => self == (RunView {
                    units: wide::utf16(text).push(0),
                    ..idle
                }).opening(Access::Backup),
                Strategy::SendInput => {
                    &&& self == (RunView {
                        batches: self.batches,
                        phase: Phase::Typing { at: 0 },
                        ..idle
                    })
                    &&& 0 < self.batches.len() <= usize::MAX
                    &&& paste::all_events(self.batches) == paste::typed(wide::utf16(text))
                    &&& paste::well_batched(self.batches)
                },
            }
        }
    }
}

// ─── The run ───────────────────────────────────────────────────────────

impl PasteRun {
    pub open spec fn valid(&self) -> bool {
        self@.valid()
    }

    /// The start of a delivery.
    pub fn start(text: &str, config: Config) -> (r: Self)
        ensures
            r.valid(),
            r@.fresh(text@, config),
    {
        let mut run = PasteRun {
            config,
            units: Vec::new(),
            batches: Vec::new(),
            backup: None,
            fault: None,
            phase: Phase::Over,
        };
        match paste::paste(text, &config) {
            PastePlan::Nothing => {},
            PastePlan::Clipboard { units } => {
                run.units = units;
                run.open_for(Access::Backup);
            },
            PastePlan::Type { batches } => {
                proof {
                    lemma_typing_is_something(text@, batches@);
                }
                assert(batches@.len() == batches.len());
                run.batches = batches;
                run.phase = Phase::Typing { at: 0 };
            },
        }
        run
    }

    /// The start of writing a text to the clipboard, where it stays.
    pub fn start_copy(text: &str) -> (r: Self)
        ensures
            r.valid(),
            r@ == (RunView {
                config: Config {
                    strategy: Strategy::Clipboard,
                    paste_delay_ms: 80,
                    open_attempts: 12,
                    open_retry_ms: 12,
                },
                units: wide::utf16(text@).push(0),
                batches: seq![],
                backup: None,
                fault: None,
                phase: Phase::Opening { access: Access::Copy, left: 12 },
            }),
    {
        let mut run = PasteRun {
            config: Config::default(),
            units: copy_to_clipboard(text),
            batches: Vec::new(),
            backup: None,
            fault: None,
            phase: Phase::Over,
        };
        run.open_for(Access::Copy);
        run
    }

    /// What the run asks for.
    pub fn action(&self) -> (r: PasteAction)
        requires
            self.valid(),
        ensures
            r@ == self@.pending(),
    {
        match self.phase {
            Phase::Opening { .. } => PasteAction::Open,
            Phase::Waiting { .. } => PasteAction::Pause(self.config.open_retry_ms),
            Phase::Open { access: Access::Backup } => PasteAction::Read,
            Phase::Open { access: Access::Restore } => {
                let backup: Option<&str> = match &self.backup {
                    Some(text) => Some(text.as_str()),
                    None => None,
                };
                match restore_clipboard(backup) {
                    ClipboardRestore::Write(units) => PasteAction::Write(units),
                    ClipboardRestore::Clear => PasteAction::Clear,
                }
            },
            Phase::Open { .. } => PasteAction::Write(self.units.clone()),
            Phase::Keys => PasteAction::Inject(ctrl_v()),
            Phase::Settling => PasteAction::Pause(self.config.paste_delay_ms),
            Phase::Typing { at } => PasteAction::Inject(copied(&self.batches[at])),
            Phase::Over => PasteAction::Finish(self.fault.clone()),
        }
    }

    /// Takes what came of the action, and says what comes next.
    pub fn next(&mut self, event: PasteEvent) -> (r: PasteAction)
        requires
            old(self).valid(),
        ensures
            final(self).valid(),
            final(self)@ == old(self)@.after(event),
            r@ == final(self)@.pending(),
    {
        match (self.phase, event) {
            (Phase::Opening { access, left }, PasteEvent::Opened(opened)) => {
                self.phase = if opened {
                    Phase::Open { access }
                } else {
                    Phase::Waiting { access, left: left - 1 }
                };
            },
            (Phase::Waiting { access, left }, PasteEvent::Paused) => {
                if left == 0 {
                    self.give_up(access);
                } else {
                    self.phase = Phase::Opening { access, left };
                }
            },
            (Phase::Open { access: Access::Backup }, PasteEvent::Text(text)) => {
                self.backup = text;
                self.open_for(Access::Deliver);
            },
            (Phase::Open { access: Access::Deliver }, PasteEvent::Changed(fault)) => {
                match fault {
                    Some(what) => {
                        self.fail("write our text to clipboard: ".to_owned().concat(what.as_str()));
                    },
                    None => {
                        self.phase = Phase::Keys;
                    },
                }
            },
            (Phase::Open { access: Access::Restore }, PasteEvent::Changed(_)) => {
                self.phase = Phase::Over;
            },
            (Phase::Open { access: Access::Copy }, PasteEvent::Changed(fault)) => {
                match fault {
                    Some(what) => {
                        self.fail(what);
                    },
                    None => {
                        self.phase = Phase::Over;
                    },
                }
            },
            (Phase::Keys, PasteEvent::Injected(sent)) => {
                if let Err(what) = check_injection(sent, 4, true) {
                    self.fault = Some("SendInput(Ctrl+V): ".to_owned().concat(what.as_str()));
                }
                self.phase = Phase::Settling;
            },
            (Phase::Settling, PasteEvent::Paused) => {
                self.open_for(Access::Restore);
            },
            (Phase::Typing { at }, PasteEvent::Injected(sent)) => {
                let count: usize = self.batches.len();
                match check_injection(sent, self.batches[at].len(), false) {
                    Err(what) => {
                        self.fail(what);
                    },
                    Ok(_) => {
                        self.phase = if at + 1 < count {
                            Phase::Typing { at: at + 1 }
                        } else {
                            Phase::Over
                        };
                    },
                }
            },
            _ => {},
        }
        self.action()
    }

    fn fail(&mut self, what: String)
        ensures
            final(self)@ == old(self)@.failed(what@),
    {
        self.fault = Some(what);
        self.phase = Phase::Over;
    }

    fn give_up(&mut self, access: Access)
        ensures
            final(self).valid(),
            final(self)@ == old(self)@.given_up(access),
    {
        let attempts: u32 = self.config.open_attempts;
        match access {
            Access::Backup => {
                if attempts == 0 {
                    self.give_up_delivering();
                } else {
                    self.phase = Phase::Opening { access: Access::Deliver, left: attempts };
                }
            },
            Access::Deliver => {
                self.give_up_delivering();
            },
            Access::Restore => {
                self.phase = Phase::Over;
            },
            Access::Copy => {
                self.fail(clipboard_busy(&self.config));
            },
        }
    }

    fn give_up_delivering(&mut self)
        ensures
            final(self)@ == old(self)@.given_up_delivering(),
    {
        let busy = clipboard_busy(&self.config);
        self.fail("write our text to clipboard: ".to_owned().concat(busy.as_str()));
    }

    fn open_for(&mut self, access: Access)
        ensures
            final(self).valid(),
            final(self)@ == old(self)@.opening(access),
    {
        let left: u32 = self.config.open_attempts;
        if left == 0 {
            self.give_up(access);
        } else {
            self.phase = Phase::Opening { access, left };
        }
    }
}

fn copied(keys: &Vec<KeyInput>) -> (r: Vec<KeyInput>)
    ensures
        r@ == keys@,
{
    let mut out: Vec<KeyInput> = Vec::new();
    let mut i: usize = 0;
    while i < keys.len()
        invariant
            i <= keys@.len(),
            out@ == keys@.take(i as int),
        decreases keys@.len() - i,
    {
        out.push(keys[i]);
        assert(out@ =~= keys@.take(i + 1));
        i += 1;
    }
    assert(keys@.take(keys@.len() as int) =~= keys@);
    out
}

/// A text that is not empty takes at least one batch to type.
proof fn lemma_typing_is_something(text: Seq<char>, batches: Seq<Vec<KeyInput>>)
    requires
        text.len() > 0,
        paste::all_events(batches) == paste::typed(wide::utf16(text)),
    ensures
        batches.len() > 0,
{
    assert(paste::typed(wide::utf16(text)).len() > 0);
}

// ─── Laws ──────────────────────────────────────────────────────────────

/// An injection of keys that was carried out: the keys, how many of them got
/// through, and what was on the clipboard.
#[verifier::ext_equal]
pub struct Injection {
    pub keys: Seq<KeyInput>,
    pub sent: u32,
    pub clip: Option<Seq<u16>>,
}

/// A run with the clipboard that it works on.
pub struct Scene {
    pub run: RunView,
    /// The code units of the text on the clipboard, with their closing zero.
    pub clip: Option<Seq<u16>>,
    /// Whether a change of the clipboard went wrong, so that nobody knows what
    /// is on it.
    pub spoilt: bool,
    /// Whether the text was written.
    pub delivered: bool,
    /// Whether the clipboard was to be opened for restoring it.
    pub restoring: bool,
    /// What was injected so far.
    pub injections: Seq<Injection>,
    /// The pauses that were made so far, in milliseconds.
    pub pauses: Seq<u64>,
}

impl Scene {
    /// The scene at the start of a run.
    pub open spec fn first(run: RunView, clip: Option<Seq<u16>>) -> Scene {
        Scene {
            run,
            clip,
            spoilt: false,
            delivered: false,
            restoring: false,
            injections: seq![],
            pauses: seq![],
        }
    }

    /// The scene after an event.
    pub open spec fn after(self, event: PasteEvent) -> Scene {
        let run = self.run.after(event);
        let changed = event matches PasteEvent::Changed(fault) && fault is None;
        let broken = event matches PasteEvent::Changed(fault) && fault is Some;
        Scene {
            run,
            clip: match self.run.pending() {
                Task::Write(units) if changed => Some(units),
                Task::Clear if changed => None,
                _ => self.clip,
            },
            spoilt: self.spoilt || broken && (self.run.pending() is Write || self.run.pending()
                is Clear),
            delivered: self.delivered || changed && self.run.phase == (Phase::Open {
                access: Access::Deliver,
            }),
            restoring: self.restoring || (run.phase matches Phase::Opening { access, .. } && access
                == Access::Restore),
            injections: match (self.run.pending(), event) {
                (Task::Inject(keys), PasteEvent::Injected(sent)) => self.injections.push(
                    Injection { keys, sent, clip: self.clip },
                ),
                _ => self.injections,
            },
            pauses: match (self.run.pending(), event) {
                (Task::Pause(ms), PasteEvent::Paused) => self.pauses.push(ms),
                _ => self.pauses,
            },
        }
    }

    /// Whether an event is one of a clipboard that can be opened: it is not the
    /// last try that fails, and reading gives what is there.
    pub open spec fn fair(self, event: PasteEvent) -> bool {
        match (self.run.phase, event) {
            (Phase::Opening { left, .. }, PasteEvent::Opened(opened)) => opened || left > 1,
            (Phase::Open { access: Access::Backup }, PasteEvent::Text(text)) => backs_up(
                chars(text),
                self.clip,
            ),
            _ => true,
        }
    }
}

/// Whether a backup is the text on the clipboard.
pub open spec fn backs_up(backup: Option<Seq<char>>, clip: Option<Seq<u16>>) -> bool {
    match clip {
        Some(units) => backup matches Some(text) && wide::utf16(text).push(0) == units,
        None => backup is None,
    }
}

/// The scene after several events.
pub open spec fn scene_after(start: Scene, events: Seq<PasteEvent>) -> Scene
    decreases events.len(),
{
    if events.len() == 0 {
        start
    } else {
        scene_after(start, events.drop_last()).after(events.last())
    }
}

/// Whether all events are those of a clipboard that can be opened.
pub open spec fn all_fair(start: Scene, events: Seq<PasteEvent>) -> bool
    decreases events.len(),
{
    events.len() > 0 ==> all_fair(start, events.drop_last()) && scene_after(
        start,
        events.drop_last(),
    ).fair(events.last())
}

/// A delivery leaves the clipboard as it was, whether or not the keys got
/// through: when it is over, what was there is there again, unless writing the
/// clipboard itself went wrong. Without a text, and when the text is typed, the
/// clipboard is never touched.
pub proof fn law_the_clipboard_comes_back(
    run: RunView,
    text: Seq<char>,
    config: Config,
    before: Option<Seq<u16>>,
    events: Seq<PasteEvent>,
)
    requires
        run.fresh(text, config),
        all_fair(Scene::first(run, before), events),
    ensures
        ({
            let scene = scene_after(Scene::first(run, before), events);
            &&& scene.run.phase == Phase::Over && !scene.spoilt ==> scene.clip == before
            &&& text.len() == 0 ==> scene == Scene::first(run, before) && run.pending()
                == Task::Finish(None)
            &&& text.len() == 0 || config.strategy == Strategy::SendInput ==> scene.clip == before
                && !scene.spoilt && (scene.run.phase is Typing || scene.run.phase is Over)
        }),
{
    lemma_kept(run, text, config, before, events);
}

/// Once the text was written to the clipboard, no run ends without an attempt
/// to put back what was there, whatever happens.
pub proof fn law_restoring_is_always_tried(
    run: RunView,
    text: Seq<char>,
    config: Config,
    before: Option<Seq<u16>>,
    events: Seq<PasteEvent>,
)
    requires
        run.fresh(text, config),
    ensures
        ({
            let scene = scene_after(Scene::first(run, before), events);
            scene.delivered && scene.run.phase == Phase::Over ==> scene.restoring
        }),
{
    lemma_tried(run, text, config, before, events);
}

/// What the phase is about.
spec fn purpose(phase: Phase) -> Option<Access> {
    match phase {
        Phase::Opening { access, .. } => Some(access),
        Phase::Waiting { access, .. } => Some(access),
        Phase::Open { access } => Some(access),
        _ => None,
    }
}

/// What holds of the scene at every moment, if all events are fair.
spec fn kept(scene: Scene, before: Option<Seq<u16>>) -> bool {
    &&& scene.run.valid()
    &&& scene.run.phase matches Phase::Waiting { left, .. } ==> left > 0
    &&& match scene.run.phase {
        Phase::Over => scene.spoilt || scene.clip == before,
        Phase::Typing { .. } => !scene.spoilt && scene.clip == before,
        _ => !scene.spoilt && scene.run.config.open_attempts > 0,
    }
    &&& purpose(scene.run.phase) != Some(Access::Copy)
    &&& purpose(scene.run.phase) == Some(Access::Backup) ==> scene.clip == before
    &&& purpose(scene.run.phase) == Some(Access::Deliver) ==> scene.clip == before
    &&& purpose(scene.run.phase) == Some(Access::Deliver) || purpose(scene.run.phase) == Some(
        Access::Restore,
    ) || scene.run.phase is Keys || scene.run.phase is Settling ==> backs_up(
        scene.run.backup,
        before,
    )
}

proof fn lemma_kept(
    run: RunView,
    text: Seq<char>,
    config: Config,
    before: Option<Seq<u16>>,
    events: Seq<PasteEvent>,
)
    requires
        run.fresh(text, config),
        all_fair(Scene::first(run, before), events),
    ensures
        kept(scene_after(Scene::first(run, before), events), before),
        text.len() == 0 ==> scene_after(Scene::first(run, before), events) == Scene::first(
            run,
            before,
        ),
        text.len() > 0 && config.strategy == Strategy::SendInput ==> ({
            let scene = scene_after(Scene::first(run, before), events);
            scene.clip == before && !scene.spoilt && (scene.run.phase is Typing || scene.run.phase
                is Over)
        }),
    decreases events.len(),
{
    if events.len() > 0 {
        lemma_kept(run, text, config, before, events.drop_last());
        let earlier = scene_after(Scene::first(run, before), events.drop_last());
        assert(earlier.fair(events.last()));
        assert(scene_after(Scene::first(run, before), events) == earlier.after(events.last()));
    }
}

/// What holds of the scene at every moment.
spec fn tried(scene: Scene) -> bool {
    &&& scene.run.valid()
    &&& !(scene.run.phase is Over) && !(scene.run.phase is Typing)
        ==> scene.run.config.open_attempts > 0
    &&& purpose(scene.run.phase) == Some(Access::Restore) ==> scene.restoring
    &&& scene.delivered ==> scene.run.phase is Keys || scene.run.phase is Settling || scene.restoring
    &&& scene.restoring ==> scene.run.phase is Over || purpose(scene.run.phase) == Some(
        Access::Restore,
    )
}

proof fn lemma_tried(
    run: RunView,
    text: Seq<char>,
    config: Config,
    before: Option<Seq<u16>>,
    events: Seq<PasteEvent>,
)
    requires
        run.fresh(text, config),
    ensures
        tried(scene_after(Scene::first(run, before), events)),
    decreases events.len(),
{
    if events.len() > 0 {
        lemma_tried(run, text, config, before, events.drop_last());
    }
}

/// Ctrl goes down, V goes down and up, Ctrl goes up.
pub open spec fn is_ctrl_v(keys: Seq<KeyInput>) -> bool {
    &&& keys.len() == 4
    &&& keys[0] == (KeyInput::Key { vk: 0x11, up: false })
    &&& keys[1] == (KeyInput::Key { vk: 0x56, up: false })
    &&& keys[2] == (KeyInput::Key { vk: 0x56, up: true })
    &&& keys[3] == (KeyInput::Key { vk: 0x11, up: true })
}

/// What is pasted is the text: in a delivery through the clipboard, all that is
/// ever injected is one Ctrl+V, while the text is on the clipboard, whatever
/// happens. A delivery that ends without a fault has sent it whole, and one that
/// ends with a fault has not. Before the clipboard is opened again the window is
/// given time.
pub proof fn law_the_text_is_pasted(
    run: RunView,
    text: Seq<char>,
    config: Config,
    before: Option<Seq<u16>>,
    events: Seq<PasteEvent>,
)
    requires
        run.fresh(text, config),
        text.len() > 0,
        config.strategy == Strategy::Clipboard,
    ensures
        ({
            let scene = scene_after(Scene::first(run, before), events);
            let units = wide::utf16(text).push(0);
            &&& scene.run.pending() matches Task::Inject(keys) ==> is_ctrl_v(keys) && scene.clip
                == Some(units)
            &&& scene.injections.len() <= 1
            &&& scene.injections.len() == 1 ==> is_ctrl_v(scene.injections[0].keys)
                && scene.injections[0].clip == Some(units)
            &&& scene.run.pending() matches Task::Finish(fault) ==> (fault is None
                <==> scene.injections.len() == 1 && scene.injections[0].sent == 4)
            &&& scene.restoring ==> scene.injections.len() == 1 && scene.pauses.contains(
                config.paste_delay_ms,
            )
        }),
{
    lemma_pasting(run, text, config, before, events);
}

/// What holds of a delivery through the clipboard at every moment.
spec fn pasting(scene: Scene, text: Seq<char>, config: Config) -> bool {
    let units = wide::utf16(text).push(0);
    let run = scene.run;
    let keyed = scene.injections.len() == 1 && is_ctrl_v(scene.injections[0].keys)
        && scene.injections[0].clip == Some(units) && (run.fault is None
        <==> scene.injections[0].sent == 4);
    &&& run.valid()
    &&& run.config == config
    &&& run.units == units
    &&& match run.phase {
        Phase::Typing { .. } => false,
        Phase::Keys => scene.injections.len() == 0 && run.fault is None && scene.clip == Some(units)
            && !scene.restoring,
        Phase::Settling => keyed && !scene.restoring,
        Phase::Over => keyed || (scene.injections.len() == 0 && run.fault is Some
            && !scene.restoring),
        _ => if purpose(run.phase) == Some(Access::Restore) {
            keyed
        } else {
            &&& purpose(run.phase) != Some(Access::Copy)
            &&& scene.injections.len() == 0
            &&& run.fault is None
            &&& !scene.restoring
        },
    }
    &&& scene.restoring || purpose(run.phase) == Some(Access::Restore) ==> keyed
        && scene.pauses.contains(config.paste_delay_ms)
}

proof fn lemma_pasting(
    run: RunView,
    text: Seq<char>,
    config: Config,
    before: Option<Seq<u16>>,
    events: Seq<PasteEvent>,
)
    requires
        run.fresh(text, config),
        text.len() > 0,
        config.strategy == Strategy::Clipboard,
    ensures
        pasting(scene_after(Scene::first(run, before), events), text, config),
    decreases events.len(),
{
    if events.len() > 0 {
        lemma_pasting(run, text, config, before, events.drop_last());
        let earlier = scene_after(Scene::first(run, before), events.drop_last());
        lemma_pasting_step(earlier, text, config, events.last());
    }
}

proof fn lemma_pasting_step(earlier: Scene, text: Seq<char>, config: Config, event: PasteEvent)
    requires
        pasting(earlier, text, config),
    ensures
        pasting(earlier.after(event), text, config),
{
    let scene = earlier.after(event);
    match (earlier.run.phase, event) {
        (Phase::Keys, PasteEvent::Injected(sent)) => {
            let keys = paste::ctrl_v_keys();
            assert(scene.injections =~= seq![Injection { keys, sent, clip: earlier.clip }]);
        },
        (Phase::Settling, PasteEvent::Paused) => {
            assert(scene.pauses == earlier.pauses.push(config.paste_delay_ms));
            assert(scene.pauses[earlier.pauses.len() as int] == config.paste_delay_ms);
            assert(scene.injections == earlier.injections);
        },
        (Phase::Waiting { .. }, PasteEvent::Paused) => {
            let wait = config.open_retry_ms;
            assert(scene.pauses == earlier.pauses.push(wait));
            assert(scene.injections == earlier.injections);
            if earlier.pauses.contains(config.paste_delay_ms) {
                let i = choose|i: int|
                    0 <= i < earlier.pauses.len() && earlier.pauses[i] == config.paste_delay_ms;
                assert(scene.pauses[i] == config.paste_delay_ms);
            }
        },
        _ => {
            assert(scene.pauses == earlier.pauses);
            assert(scene.injections == earlier.injections);
        },
    }
}

/// The keys of all injections one after the other.
pub open spec fn all_keys(injections: Seq<Injection>) -> Seq<KeyInput>
    decreases injections.len(),
{
    if injections.len() == 0 {
        seq![]
    } else {
        all_keys(injections.drop_last()) + injections.last().keys
    }
}

/// What is typed is the text: a delivery by typing injects the key events of the
/// text from its start on, in batches, each of which got through whole but for
/// the last one, and it ends without a fault exactly if all of them did.
pub proof fn law_the_text_is_typed(
    run: RunView,
    text: Seq<char>,
    config: Config,
    before: Option<Seq<u16>>,
    events: Seq<PasteEvent>,
)
    requires
        run.fresh(text, config),
        text.len() > 0,
        config.strategy == Strategy::SendInput,
    ensures
        ({
            let scene = scene_after(Scene::first(run, before), events);
            let injections = scene.injections;
            let keys = all_keys(injections);
            let units = wide::utf16(text);
            &&& keys.len() <= 2 * units.len()
            &&& forall|i: int|
                0 <= i < keys.len() ==> #[trigger] keys[i] == (KeyInput::Unicode {
                    unit: units[i / 2],
                    up: i % 2 == 1,
                })
            &&& forall|i: int|
                0 <= i < injections.len() ==> (#[trigger] injections[i]).keys.len() <= 64 && (i
                    < injections.len() - 1 ==> injections[i].sent == injections[i].keys.len())
            &&& scene.run.pending() matches Task::Finish(fault) ==> (fault is None <==> keys.len()
                == 2 * units.len() && injections.last().sent == injections.last().keys.len())
        }),
{
    lemma_typing(run, text, config, before, events);
    let scene = scene_after(Scene::first(run, before), events);
    let n = scene.injections.len() as int;
    let batches = run.batches;
    lemma_events_grow(batches, n);
    paste::law_typed_keys(wide::utf16(text));
    let keys = all_keys(scene.injections);
    assert(keys == paste::all_events(batches.take(n)));
    assert forall|i: int| 0 <= i < keys.len() implies #[trigger] keys[i] == (KeyInput::Unicode {
        unit: wide::utf16(text)[i / 2],
        up: i % 2 == 1,
    }) by {
        assert(keys[i] == paste::all_events(batches)[i]);
    }
    assert forall|i: int| 0 <= i < n implies (#[trigger] scene.injections[i]).keys.len() <= 64 by {
        assert(scene.injections[i].keys == batches[i]@);
    }
    if n < batches.len() {
        lemma_events_grow(batches.take(n + 1), n);
        lemma_events_grow(batches, n + 1);
        assert(batches.take(n + 1).take(n) =~= batches.take(n));
        assert(batches.take(n + 1).drop_last() =~= batches.take(n));
        assert(batches.take(n + 1).last() == batches[n]);
        assert(batches[n]@.len() > 0);
    } else {
        assert(batches.take(n) =~= batches);
    }
}

/// What holds of a delivery by typing at every moment.
spec fn typing_along(scene: Scene, start: RunView) -> bool {
    let n = scene.injections.len();
    &&& scene.run.valid()
    &&& scene.run.batches == start.batches
    &&& n <= start.batches.len()
    &&& all_keys(scene.injections) == paste::all_events(start.batches.take(n as int))
    &&& forall|i: int|
        0 <= i < n ==> (#[trigger] scene.injections[i]).keys == start.batches[i]@ && (i < n - 1
            ==> scene.injections[i].sent == scene.injections[i].keys.len())
    &&& match scene.run.phase {
        Phase::Typing { at } => at == n && scene.run.fault is None && (n > 0
            ==> scene.injections[n - 1].sent == scene.injections[n - 1].keys.len()),
        Phase::Over => {
            &&& n > 0
            &&& scene.run.fault is None ==> n == start.batches.len() && scene.injections[n
                - 1].sent == scene.injections[n - 1].keys.len()
            &&& scene.run.fault is Some ==> scene.injections[n - 1].sent != scene.injections[n
                - 1].keys.len()
        },
        _ => false,
    }
}

proof fn lemma_typing(
    run: RunView,
    text: Seq<char>,
    config: Config,
    before: Option<Seq<u16>>,
    events: Seq<PasteEvent>,
)
    requires
        run.fresh(text, config),
        text.len() > 0,
        config.strategy == Strategy::SendInput,
    ensures
        typing_along(scene_after(Scene::first(run, before), events), run),
    decreases events.len(),
{
    if events.len() == 0 {
        assert(run.batches.take(0) =~= Seq::<Vec<KeyInput>>::empty());
    } else {
        lemma_typing(run, text, config, before, events.drop_last());
        let earlier = scene_after(Scene::first(run, before), events.drop_last());
        let scene = earlier.after(events.last());
        assert(scene_after(Scene::first(run, before), events) == scene);
        let n = earlier.injections.len() as int;
        if scene.injections.len() > n {
            assert(scene.injections.drop_last() =~= earlier.injections);
            assert(run.batches.take(n + 1).drop_last() =~= run.batches.take(n));
            assert(run.batches.take(n + 1).last() == run.batches[n]);
            assert forall|i: int| 0 <= i < n + 1 implies (#[trigger] scene.injections[i]).keys
                == run.batches[i]@ && (i < n ==> scene.injections[i].sent
                == scene.injections[i].keys.len()) by {
                if i < n {
                    assert(scene.injections[i] == earlier.injections[i]);
                }
            }
        }
    }
}

proof fn lemma_events_grow(batches: Seq<Vec<KeyInput>>, n: int)
    requires
        0 <= n <= batches.len(),
    ensures
        paste::all_events(batches.take(n)).len() <= paste::all_events(batches).len(),
        forall|i: int|
            0 <= i < paste::all_events(batches.take(n)).len() ==> paste::all_events(batches.take(n))[i]
                == #[trigger] paste::all_events(batches)[i],
    decreases batches.len(),
{
    if n < batches.len() {
        lemma_events_grow(batches.drop_last(), n);
        assert(batches.drop_last().take(n) =~= batches.take(n));
    } else {
        assert(batches.take(n) =~= batches);
    }
}

// ─── Copying, and how a run ends ───────────────────────────────────────

/// A text that was copied stays: a copy that ends without a fault has left the
/// text on the clipboard, and one that ends with a fault has not written it. No
/// keys are injected, and nothing is put back.
pub proof fn law_a_copied_text_stays(
    run: RunView,
    text: Seq<char>,
    before: Option<Seq<u16>>,
    events: Seq<PasteEvent>,
)
    requires
        run.units == wide::utf16(text).push(0),
        run.fault is None,
        run.phase matches Phase::Opening { access, left } && access == Access::Copy && left > 0,
    ensures
        ({
            let scene = scene_after(Scene::first(run, before), events);
            &&& scene.injections.len() == 0
            &&& !scene.restoring
            &&& scene.run.pending() matches Task::Finish(fault) ==> {
                &&& fault is None ==> scene.clip == Some(wide::utf16(text).push(0))
                    && !scene.spoilt
                &&& fault is Some ==> scene.clip == before
            }
        }),
{
    lemma_copying(run, text, before, events);
}

/// What holds of a copy at every moment.
spec fn copying(scene: Scene, text: Seq<char>, before: Option<Seq<u16>>) -> bool {
    &&& scene.run.valid()
    &&& scene.run.units == wide::utf16(text).push(0)
    &&& scene.injections.len() == 0
    &&& !scene.restoring
    &&& if scene.run.phase is Over {
        if scene.run.fault is None {
            scene.clip == Some(wide::utf16(text).push(0)) && !scene.spoilt
        } else {
            scene.clip == before
        }
    } else {
        &&& purpose(scene.run.phase) == Some(Access::Copy)
        &&& scene.run.fault is None
        &&& scene.clip == before
        &&& !scene.spoilt
    }
}

proof fn lemma_copying(
    run: RunView,
    text: Seq<char>,
    before: Option<Seq<u16>>,
    events: Seq<PasteEvent>,
)
    requires
        run.units == wide::utf16(text).push(0),
        run.fault is None,
        run.phase matches Phase::Opening { access, left } && access == Access::Copy && left > 0,
    ensures
        copying(scene_after(Scene::first(run, before), events), text, before),
    decreases events.len(),
{
    if events.len() > 0 {
        lemma_copying(run, text, before, events.drop_last());
    }
}

/// Whether an event is an answer to what a run asks for.
pub open spec fn replies(task: Task, event: PasteEvent) -> bool {
    match task {
        Task::Open => event is Opened,
        Task::Pause(_) => event is Paused,
        Task::Read => event is Text,
        Task::Write(_) => event is Changed,
        Task::Clear => event is Changed,
        Task::Inject(_) => event is Injected,
        Task::Finish(_) => true,
    }
}

/// Whether each event is an answer to what the run asked for before it.
pub open spec fn all_reply(start: Scene, events: Seq<PasteEvent>) -> bool
    decreases events.len(),
{
    events.len() > 0 ==> all_reply(start, events.drop_last()) && replies(
        scene_after(start, events.drop_last()).run.pending(),
        events.last(),
    )
}

/// Every delivery ends, whatever the answers are: with a text through the
/// clipboard after six answers for each try that the configuration allows and
/// five more at most, and with typing after one answer for each batch.
pub proof fn law_every_delivery_ends(
    run: RunView,
    text: Seq<char>,
    config: Config,
    before: Option<Seq<u16>>,
    events: Seq<PasteEvent>,
)
    requires
        run.fresh(text, config),
        all_reply(Scene::first(run, before), events),
        events.len() >= (if config.strategy == Strategy::Clipboard {
            6 * config.open_attempts + 5
        } else {
            run.batches.len() as int
        }),
    ensures
        scene_after(Scene::first(run, before), events).run.pending() is Finish,
{
    lemma_draws_near(run, text, config, before, events);
}

/// How many answers are still to come at most, from the moment that an access is
/// done.
spec fn beyond(access: Access, attempts: int) -> int {
    match access {
        Access::Backup => 4 * attempts + 4,
        Access::Deliver => 2 * attempts + 3,
        _ => 0,
    }
}

/// How many answers are still to come at most.
spec fn to_come(run: RunView) -> int {
    let attempts = run.config.open_attempts as int;
    match run.phase {
        Phase::Opening { access, left } => beyond(access, attempts) + 1 + 2 * left,
        Phase::Waiting { access, left } => beyond(access, attempts) + 2 + 2 * left,
        Phase::Open { access } => beyond(access, attempts) + 1,
        Phase::Keys => 2 * attempts + 3,
        Phase::Settling => 2 * attempts + 2,
        Phase::Typing { at } => run.batches.len() - at,
        Phase::Over => 0,
    }
}

proof fn lemma_draws_near(
    run: RunView,
    text: Seq<char>,
    config: Config,
    before: Option<Seq<u16>>,
    events: Seq<PasteEvent>,
)
    requires
        run.fresh(text, config),
        all_reply(Scene::first(run, before), events),
    ensures
        ({
            let now = scene_after(Scene::first(run, before), events).run;
            &&& now.valid()
            &&& now.config == config && now.batches == run.batches
            &&& 0 <= to_come(now)
            &&& now.phase is Over || to_come(now) + events.len() <= to_come(run)
        }),
    decreases events.len(),
{
    if events.len() > 0 {
        lemma_draws_near(run, text, config, before, events.drop_last());
    }
}

/// A clipboard that is closed is tried again after the pause that the
/// configuration sets; one that opened is not asked for again before it was used.
pub proof fn law_a_closed_clipboard_is_tried_again(run: RunView, opened: bool)
    requires
        run.pending() is Open,
    ensures
        !opened ==> run.after(PasteEvent::Opened(opened)).pending() == Task::Pause(
            run.config.open_retry_ms,
        ),
        opened ==> run.after(PasteEvent::Opened(opened)).pending() is Read || run.after(
            PasteEvent::Opened(opened),
        ).pending() is Write || run.after(PasteEvent::Opened(opened)).pending() is Clear,
{
}

/// The fault of a delivery says which step went wrong: writing the text to the
/// clipboard, or sending Ctrl+V.
pub proof fn law_faults_name_the_step(
    run: RunView,
    text: Seq<char>,
    config: Config,
    before: Option<Seq<u16>>,
    events: Seq<PasteEvent>,
)
    requires
        run.fresh(text, config),
        text.len() > 0,
        config.strategy == Strategy::Clipboard,
    ensures
        ({
            let scene = scene_after(Scene::first(run, before), events);
            scene.run.pending() matches Task::Finish(Some(what)) ==> text::has_prefix(
                what,
                if scene.injections.len() == 0 {
                    "write our text to clipboard: "@
                } else {
                    "SendInput(Ctrl+V): "@
                },
            )
        }),
{
    lemma_pasting(run, text, config, before, events);
    lemma_named(run, text, config, before, events);
}

proof fn lemma_named(
    run: RunView,
    text: Seq<char>,
    config: Config,
    before: Option<Seq<u16>>,
    events: Seq<PasteEvent>,
)
    requires
        run.fresh(text, config),
        text.len() > 0,
        config.strategy == Strategy::Clipboard,
    ensures
        ({
            let scene = scene_after(Scene::first(run, before), events);
            scene.run.fault matches Some(what) ==> text::has_prefix(
                what,
                if scene.injections.len() == 0 {
                    "write our text to clipboard: "@
                } else {
                    "SendInput(Ctrl+V): "@
                },
            )
        }),
    decreases events.len(),
{
    let busy = "write our text to clipboard: "@;
    let keys = "SendInput(Ctrl+V): "@;
    assert forall|rest: Seq<char>| text::has_prefix(#[trigger] (busy + rest), busy) by {
        assert((busy + rest).take(busy.len() as int) =~= busy);
    }
    assert forall|rest: Seq<char>| text::has_prefix(#[trigger] (keys + rest), keys) by {
        assert((keys + rest).take(keys.len() as int) =~= keys);
    }
    if events.len() > 0 {
        lemma_named(run, text, config, before, events.drop_last());
        lemma_pasting(run, text, config, before, events.drop_last());
        let earlier = scene_after(Scene::first(run, before), events.drop_last());
        lemma_pasting_step(earlier, text, config, events.last());
    }
}

/// The model's tasks are the run's actions, one for one.
pub proof fn law_actions_are_modelled_one_for_one(action: PasteAction)
    ensures
        match action {
            PasteAction::Open => action@ is Open,
            PasteAction::Pause(ms) => action@ == Task::Pause(ms),
            PasteAction::Read => action@ is Read,
            PasteAction::Write(units) => action@ == Task::Write(units@),
            PasteAction::Clear => action@ is Clear,
            PasteAction::Inject(keys) => action@ == Task::Inject(keys@),
            PasteAction::Finish(None) => action@ == Task::Finish(None),
            PasteAction::Finish(Some(what)) => action@ == Task::Finish(Some(what@)),
        },
{
}

} // verus!
