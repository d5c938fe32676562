//! The main loop: what each event of the hotkey, the microphone, the tray, the
//! windows and the engine makes the program do.
//!
//! A caller waits for events, hands them in one at a time, and does what comes
//! back, in order.

use crate::proto::{error_code, Request, Response, SessionStats};
use crate::text;
use crate::ui::audio::DeviceChoice;
use crate::ui::core_client::{begin, SessionIds};
use crate::ui::hotkey::{Config, HotkeyEvent};
use crate::ui::overlay::OverlayState;
use crate::ui::settings::form::SettingsEvent;
use crate::ui::settings::model::{
    self, audio_choice_from_config, hotkey_config_from_config, AppConfig, ConfigView,
};
use crate::ui::settings::storage::SettingsSnapshot;
use crate::ui::slint_bridge::RecoveryEvent;
use vstd::prelude::*;

verus! {

/// What the user picked in the tray menu.
#[derive(Debug)]
pub enum TrayEvent {
    Quit,
    OpenSettings,
    SelectMicrophone(DeviceChoice),
    SetAutostart(bool),
}

/// Something that happened. A source that has closed gives `None`.
#[derive(Debug)]
pub enum LoopEvent {
    /// The user asked the program to stop.
    Interrupt,
    Tray(Option<TrayEvent>),
    /// A chunk of audio. It only comes while a session is open.
    Audio(Option<Vec<u8>>),
    Recovery(Option<RecoveryEvent>),
    Hotkey(Option<HotkeyEvent>),
    /// A response. It only comes while there is an engine.
    Core(Option<Response>),
    Settings(Option<SettingsEvent>),
}

/// Why the loop cannot go on.
#[derive(Debug, Clone, Copy, PartialEq, Eq, Structural)]
pub enum Failure {
    TrayClosed,
    AudioDied,
    HotkeyClosed,
    CoreClosed,
    SettingsClosed,
}

impl Failure {
    pub fn message(self) -> (r: &'static str)
        ensures
            r@ == (match self {
                Failure::TrayClosed => "tray channel closed"@,
                Failure::AudioDied => "audio thread died"@,
                Failure::HotkeyClosed => "hotkey channel closed"@,
                Failure::CoreClosed => "core closed unexpectedly"@,
                Failure::SettingsClosed => "settings channel closed"@,
            }),
    {
        match self {
            Failure::TrayClosed => "tray channel closed",
            Failure::AudioDied => "audio thread died",
            Failure::HotkeyClosed => "hotkey channel closed",
            Failure::CoreClosed => "core closed unexpectedly",
            Failure::SettingsClosed => "settings channel closed",
        }
    }
}

/// Something that the user is told.
#[derive(Debug)]
pub enum Notice {
    /// The settings are saved, but the engine did not start with them.
    RestartFailed(String),
    SettingsFailed(String),
}

impl Notice {
    pub fn message(&self) -> (r: String)
        ensures
            r@ == (match *self {
                Notice::RestartFailed(what) => "Settings saved, but core restart failed:\n\n"@
                    + what@,
                Notice::SettingsFailed(what) => "Settings failed:\n\n"@ + what@,
            }),
    {
        match self {
            Notice::RestartFailed(what) => "Settings saved, but core restart failed:\n\n".to_owned().concat(
                what.as_str(),
            ),
            Notice::SettingsFailed(what) => "Settings failed:\n\n".to_owned().concat(what.as_str()),
        }
    }
}

/// How it went to start the engine anew.
#[derive(Debug)]
pub enum RestartOutcome {
    /// A new engine runs, and the old one has stopped.
    Restarted,
    /// No new engine could be started.
    NotStarted(String),
    /// A new engine runs, but the old one failed to stop.
    OldNotStopped(String),
}

/// What is to be done.
#[derive(Debug)]
pub enum LoopAction {
    OpenGate,
    CloseGate,
    /// Drop the audio that is still queued.
    DrainAudio,
    /// Send a request; the loop ends if this fails.
    Send(Request),
    /// Send a request, whether or not it arrives.
    TrySend(Request),
    ShowOverlay(OverlayState),
    OpenSettings,
    HideRecovery,
    SwitchMicrophone(DeviceChoice),
    SaveMicrophone(DeviceChoice),
    ShowMicrophoneInTray(DeviceChoice),
    SetAutostart(bool),
    /// Deliver a text into the focused window.
    Paste(String),
    /// Open the microphone anew.
    RestartAudio(DeviceChoice, bool),
    ReconfigureHotkey(Config),
    RestartCore,
    ShutdownCore,
    Notify(Notice),
    /// End the loop.
    Stop,
    /// End the loop with an error.
    Fail(Failure),
}

/// The state of the loop.
#[derive(Debug)]
pub struct Controller {
    /// The session that is being recorded.
    pub session: Option<u64>,
    /// The session that was recorded last, until its answer comes.
    pub awaited: Option<u64>,
    pub ids: SessionIds,
    /// Whether there is an engine.
    pub core_up: bool,
    pub mic: DeviceChoice,
    pub hotkey: Config,
    pub instant_record: bool,
}

// ─── Model ─────────────────────────────────────────────────────────────

/// An action, with devices by their names.
pub enum Act {
    OpenGate,
    CloseGate,
    DrainAudio,
    Send(Request),
    TrySend(Request),
    ShowOverlay(OverlayState),
    OpenSettings,
    HideRecovery,
    SwitchMicrophone(Option<Seq<char>>),
    SaveMicrophone(Option<Seq<char>>),
    ShowMicrophoneInTray(Option<Seq<char>>),
    SetAutostart(bool),
    Paste(String),
    RestartAudio(Option<Seq<char>>, bool),
    ReconfigureHotkey(Config),
    RestartCore,
    ShutdownCore,
    Notify(Notice),
    Stop,
    Fail(Failure),
}

impl View for LoopAction {
    type V = Act;

    open spec fn view(&self) -> Act {
        match *self {
            LoopAction::OpenGate => Act::OpenGate,
            LoopAction::CloseGate => Act::CloseGate,
            LoopAction::DrainAudio => Act::DrainAudio,
            LoopAction::Send(r) => Act::Send(r),
            LoopAction::TrySend(r) => Act::TrySend(r),
            LoopAction::ShowOverlay(s) => Act::ShowOverlay(s),
            LoopAction::OpenSettings => Act::OpenSettings,
            LoopAction::HideRecovery => Act::HideRecovery,
            LoopAction::SwitchMicrophone(c) => Act::SwitchMicrophone(c@),
            LoopAction::SaveMicrophone(c) => Act::SaveMicrophone(c@),
            LoopAction::ShowMicrophoneInTray(c) => Act::ShowMicrophoneInTray(c@),
            LoopAction::SetAutostart(on) => Act::SetAutostart(on),
            LoopAction::Paste(t) => Act::Paste(t),
            LoopAction::RestartAudio(c, instant) => Act::RestartAudio(c@, instant),
            LoopAction::ReconfigureHotkey(c) => Act::ReconfigureHotkey(c),
            LoopAction::RestartCore => Act::RestartCore,
            LoopAction::ShutdownCore => Act::ShutdownCore,
            LoopAction::Notify(n) => Act::Notify(n),
            LoopAction::Stop => Act::Stop,
            LoopAction::Fail(f) => Act::Fail(f),
        }
    }
}

/// The actions in order.
pub open spec fn acts(actions: Seq<LoopAction>) -> Seq<Act> {
    actions.map_values(|a: LoopAction| a@)
}

/// The state of the loop, with the device by its name.
pub struct ControllerView {
    pub session: Option<u64>,
    pub awaited: Option<u64>,
    pub ids: SessionIds,
    pub core_up: bool,
    pub mic: Option<Seq<char>>,
    pub hotkey: Config,
    pub instant_record: bool,
}

impl View for Controller {
    type V = ControllerView;

    open spec fn view(&self) -> ControllerView {
        ControllerView {
            session: self.session,
            awaited: self.awaited,
            ids: self.ids,
            core_up: self.core_up,
            mic: self.mic@,
            hotkey: self.hotkey,
            instant_record: self.instant_record,
        }
    }
}

/// The request that opens a session.
pub open spec fn opening(id: u64) -> Request {
    Request::Begin {
        id,
        vad: true,
        context: None,
        language: None,
        enable_itn: None,
        enable_llm: None,
    }
}

/// The session numbers after one was taken.
pub open spec fn after_id(ids: SessionIds) -> SessionIds {
    SessionIds { next: ((ids.next + 1) % 0x1_0000_0000_0000_0000) as u64 }
}

impl ControllerView {
    /// What every step keeps: a session is only open while there is an engine,
    /// and the answer of an earlier one is then not waited for.
    pub open spec fn consistent(self) -> bool {
        self.session is Some ==> self.core_up && self.awaited is None
    }

    /// Whether session `id` still concerns the loop: it is being recorded, or
    /// its answer is waited for.
    pub open spec fn expects(self, id: u64) -> bool {
        self.session == Some(id) || self.awaited == Some(id)
    }

    /// Giving up the session that is being recorded.
    pub open spec fn giving_up(self) -> Seq<Act> {
        match self.session {
            Some(id) => if self.core_up {
                seq![Act::CloseGate, Act::TrySend(Request::Cancel { id })]
            } else {
                seq![Act::CloseGate]
            },
            None => seq![],
        }
    }

    /// Stopping: the session is given up and the engine shut down.
    pub open spec fn stopping(self) -> (ControllerView, Seq<Act>) {
        let shutdown = if self.core_up {
            seq![Act::ShutdownCore]
        } else {
            seq![]
        };
        (
            ControllerView { session: None, core_up: false, ..self },
            self.giving_up() + seq![Act::ShowOverlay(OverlayState::Idle)] + shutdown + seq![
                Act::Stop,
            ],
        )
    }

    /// Starting a recording. One that is on is given up, with its audio, and an
    /// answer that is still out is no longer waited for.
    pub open spec fn pressed(self) -> (ControllerView, Seq<Act>) {
        if !self.core_up {
            (self, seq![Act::ShowOverlay(OverlayState::Error), Act::OpenSettings])
        } else {
            let id = self.ids.next;
            let superseded = match self.session {
                Some(old) => seq![
                    Act::CloseGate,
                    Act::DrainAudio,
                    Act::TrySend(Request::Cancel { id: old }),
                ],
                None => seq![],
            };
            (
                ControllerView {
                    session: Some(id),
                    awaited: None,
                    ids: after_id(self.ids),
                    ..self
                },
                seq![Act::HideRecovery] + superseded + seq![
                    Act::Send(opening(id)),
                    Act::OpenGate,
                    Act::ShowOverlay(OverlayState::Recording),
                ],
            )
        }
    }

    /// Ending a recording. From now on its answer is waited for.
    pub open spec fn released(self) -> (ControllerView, Seq<Act>) {
        match self.session {
            Some(id) => {
                let end = if self.core_up {
                    seq![Act::Send(Request::End { id })]
                } else {
                    seq![]
                };
                (
                    ControllerView { session: None, awaited: Some(id), ..self },
                    seq![Act::CloseGate, Act::DrainAudio] + end + seq![
                        Act::ShowOverlay(OverlayState::Processing),
                    ],
                )
            },
            None => (self, seq![]),
        }
    }

    /// What an answer makes the loop do. A session without speech just ends;
    /// errors that the loop caused itself are not shown.
    pub open spec fn shown(response: Response) -> Seq<Act> {
        match response {
            Response::Result { text, .. } => seq![Act::Paste(text)],
            Response::Error { message, .. } => if message@ == error_code::NO_AUDIO@ {
                seq![Act::ShowOverlay(OverlayState::Idle)]
            } else if message@ == error_code::CANCELLED@ || message@ == error_code::SUPERSEDED@ {
                seq![]
            } else {
                seq![Act::ShowOverlay(OverlayState::Error)]
            },
            Response::Ready { .. } => seq![],
        }
    }

    /// The loop after a response, and what the response makes it do. Answers of
    /// sessions that no longer concern the loop are ignored.
    pub open spec fn answered(self, response: Response) -> (ControllerView, Seq<Act>) {
        match response {
            Response::Result { id, .. } | Response::Error { id, .. } => if self.expects(id) {
                (
                    ControllerView {
                        awaited: if self.awaited == Some(id) {
                            None
                        } else {
                            self.awaited
                        },
                        ..self
                    },
                    Self::shown(response),
                )
            } else {
                (self, seq![])
            },
            Response::Ready { .. } => (self, seq![]),
        }
    }

    /// What new settings make the loop do: only what changed is touched, but
    /// the engine always starts anew.
    pub open spec fn reconfigured(self, config: ConfigView) -> (ControllerView, Seq<Act>) {
        let mic = model::choice_of(config.input_device);
        let instant = config.instant_record;
        let audio = if instant != self.instant_record {
            seq![Act::RestartAudio(mic, instant), Act::ShowMicrophoneInTray(mic)]
        } else if mic != self.mic {
            seq![Act::SwitchMicrophone(mic), Act::ShowMicrophoneInTray(mic)]
        } else {
            seq![]
        };
        let hotkey = if model::hotkey_of(config) != self.hotkey {
            seq![Act::ReconfigureHotkey(model::hotkey_of(config))]
        } else {
            seq![]
        };
        (
            ControllerView { mic, instant_record: instant, ..self },
            audio + hotkey + seq![Act::RestartCore],
        )
    }

    /// The loop after an event, and what the event makes it do.
    pub open spec fn after(self, event: LoopEvent) -> (ControllerView, Seq<Act>) {
        match event {
            LoopEvent::Interrupt => self.stopping(),
            LoopEvent::Tray(Some(TrayEvent::Quit)) => self.stopping(),
            LoopEvent::Tray(Some(TrayEvent::OpenSettings)) => (
                ControllerView { session: None, ..self },
                self.giving_up() + seq![Act::ShowOverlay(OverlayState::Idle), Act::OpenSettings],
            ),
            LoopEvent::Tray(Some(TrayEvent::SelectMicrophone(choice))) => (
                ControllerView { mic: choice@, ..self },
                seq![
                    Act::SwitchMicrophone(choice@),
                    Act::SaveMicrophone(choice@),
                    Act::ShowMicrophoneInTray(choice@),
                ],
            ),
            LoopEvent::Tray(Some(TrayEvent::SetAutostart(on))) => (
                self,
                seq![Act::SetAutostart(on)],
            ),
            LoopEvent::Tray(None) => (self, seq![Act::Fail(Failure::TrayClosed)]),
            LoopEvent::Audio(pcm) => match (self.session, pcm) {
                (Some(id), Some(pcm)) => if self.core_up {
                    (self, seq![Act::Send(Request::Chunk { id, pcm })])
                } else {
                    (self, seq![])
                },
                (Some(_), None) => (self, seq![Act::Fail(Failure::AudioDied)]),
                (None, _) => (self, seq![]),
            },
            LoopEvent::Recovery(_) => (self, seq![]),
            LoopEvent::Hotkey(Some(HotkeyEvent::Press)) => self.pressed(),
            LoopEvent::Hotkey(Some(HotkeyEvent::Release)) => self.released(),
            LoopEvent::Hotkey(None) => (self, seq![Act::Fail(Failure::HotkeyClosed)]),
            LoopEvent::Core(response) => if !self.core_up {
                (self, seq![])
            } else {
                match response {
                    Some(response) => self.answered(response),
                    None => (self, seq![Act::Fail(Failure::CoreClosed)]),
                }
            },
            LoopEvent::Settings(Some(SettingsEvent::Applied(snapshot))) => self.reconfigured(
                snapshot.config@,
            ),
            LoopEvent::Settings(Some(SettingsEvent::Cancelled)) => (self, seq![]),
            LoopEvent::Settings(Some(SettingsEvent::Failed(what))) => (
                self,
                seq![Act::Notify(Notice::SettingsFailed(what))],
            ),
            LoopEvent::Settings(None) => (self, seq![Act::Fail(Failure::SettingsClosed)]),
        }
    }
}

// ─── The loop ──────────────────────────────────────────────────────────

impl Controller {
    /// The loop at the start. Without an engine the settings are opened.
    pub fn new(config: &AppConfig, core_up: bool) -> (r: (Self, Vec<LoopAction>))
        ensures
            r.0@ == (ControllerView {
                session: None,
                awaited: None,
                ids: SessionIds { next: 1 },
                core_up,
                mic: model::choice_of(config@.input_device),
                hotkey: model::hotkey_of(config@),
                instant_record: config@.instant_record,
            }),
            acts(r.1@) == (if core_up {
                seq![]
            } else {
                seq![Act::OpenSettings]
            }),
    {
        let mut actions: Vec<LoopAction> = Vec::new();
        if !core_up {
            actions.push(LoopAction::OpenSettings);
        }
        assert(acts(actions@) =~= (if core_up {
            seq![]
        } else {
            seq![Act::OpenSettings]
        }));
        (
            Controller {
                session: None,
                awaited: None,
                ids: SessionIds::new(),
                core_up,
                mic: audio_choice_from_config(config),
                hotkey: hotkey_config_from_config(config),
                instant_record: config.audio.instant_record,
            },
            actions,
        )
    }

    fn shutdown_current_session(&mut self, actions: &mut Vec<LoopAction>)
        ensures
            final(self)@ == (ControllerView { session: None, ..old(self)@ }),
            acts(final(actions)@) == acts(old(actions)@) + old(self)@.giving_up(),
    {
        if let Some(id) = self.session {
            self.session = None;
            actions.push(LoopAction::CloseGate);
            if self.core_up {
                actions.push(LoopAction::TrySend(Request::Cancel { id }));
            }
        }
        assert(acts(actions@) =~= acts(old(actions)@) + old(self)@.giving_up());
    }

    fn stop(&mut self) -> (r: Vec<LoopAction>)
        ensures
            (final(self)@, acts(r@)) == old(self)@.stopping(),
    {
        let mut actions: Vec<LoopAction> = Vec::new();
        self.shutdown_current_session(&mut actions);
        actions.push(LoopAction::ShowOverlay(OverlayState::Idle));
        if self.core_up {
            self.core_up = false;
            actions.push(LoopAction::ShutdownCore);
        }
        actions.push(LoopAction::Stop);
        assert(acts(actions@) =~= old(self)@.stopping().1);
        actions
    }

    fn press(&mut self) -> (r: Vec<LoopAction>)
        ensures
            (final(self)@, acts(r@)) == old(self)@.pressed(),
    {
        let mut actions: Vec<LoopAction> = Vec::new();
        if !self.core_up {
            actions.push(LoopAction::ShowOverlay(OverlayState::Error));
            actions.push(LoopAction::OpenSettings);
            assert(acts(actions@) =~= old(self)@.pressed().1);
            return actions;
        }
        actions.push(LoopAction::HideRecovery);
        if let Some(old_id) = self.session {
            actions.push(LoopAction::CloseGate);
            actions.push(LoopAction::DrainAudio);
            actions.push(LoopAction::TrySend(Request::Cancel { id: old_id }));
        }
        let id: u64 = self.ids.next_session_id();
        actions.push(LoopAction::Send(begin(id, true)));
        actions.push(LoopAction::OpenGate);
        self.session = Some(id);
        self.awaited = None;
        actions.push(LoopAction::ShowOverlay(OverlayState::Recording));
        assert(acts(actions@) =~= old(self)@.pressed().1);
        actions
    }

    fn release(&mut self) -> (r: Vec<LoopAction>)
        ensures
            (final(self)@, acts(r@)) == old(self)@.released(),
    {
        let mut actions: Vec<LoopAction> = Vec::new();
        if let Some(id) = self.session {
            self.session = None;
            self.awaited = Some(id);
            actions.push(LoopAction::CloseGate);
            actions.push(LoopAction::DrainAudio);
            if self.core_up {
                actions.push(LoopAction::Send(Request::End { id }));
            }
            actions.push(LoopAction::ShowOverlay(OverlayState::Processing));
        }
        assert(acts(actions@) =~= old(self)@.released().1);
        actions
    }

    /// Notes the answer of session `id`. Returns whether it concerns the loop.
    fn take_answer(&mut self, id: u64) -> (r: bool)
        ensures
            r == old(self)@.expects(id),
            final(self)@ == (ControllerView {
                awaited: if old(self)@.awaited == Some(id) {
                    None
                } else {
                    old(self)@.awaited
                },
                ..old(self)@
            }),
    {
        let recorded = self.session == Some(id);
        if self.awaited == Some(id) {
            self.awaited = None;
            true
        } else {
            recorded
        }
    }

    fn respond(&mut self, response: Response) -> (r: Vec<LoopAction>)
        ensures
            (final(self)@, acts(r@)) == old(self)@.answered(response),
    {
        let mut actions: Vec<LoopAction> = Vec::new();
        match response {
            Response::Result { id, text, .. } => {
                if self.take_answer(id) {
                    actions.push(LoopAction::Paste(text));
                }
            },
            Response::Error { id, message } => {
                if self.take_answer(id) {
                    if text::same(message.as_str(), error_code::NO_AUDIO) {
                        actions.push(LoopAction::ShowOverlay(OverlayState::Idle));
                    } else if !text::same(message.as_str(), error_code::CANCELLED) && !text::same(
                        message.as_str(),
                        error_code::SUPERSEDED,
                    ) {
                        actions.push(LoopAction::ShowOverlay(OverlayState::Error));
                    }
                }
            },
            Response::Ready { .. } => {},
        }
        assert(acts(actions@) =~= old(self)@.answered(response).1);
        actions
    }

    fn apply_settings(&mut self, snapshot: &SettingsSnapshot) -> (r: Vec<LoopAction>)
        ensures
            (final(self)@, acts(r@)) == old(self)@.reconfigured(snapshot.config@),
    {
        let mut actions: Vec<LoopAction> = Vec::new();
        let mic = audio_choice_from_config(&snapshot.config);
        let instant = snapshot.config.audio.instant_record;
        if instant != self.instant_record {
            actions.push(LoopAction::RestartAudio(mic.copied(), instant));
            actions.push(LoopAction::ShowMicrophoneInTray(mic.copied()));
            self.mic = mic;
            self.instant_record = instant;
        } else if !mic.same(&self.mic) {
            actions.push(LoopAction::SwitchMicrophone(mic.copied()));
            actions.push(LoopAction::ShowMicrophoneInTray(mic.copied()));
            self.mic = mic;
        }
        let hotkey = hotkey_config_from_config(&snapshot.config);
        if hotkey != self.hotkey {
            actions.push(LoopAction::ReconfigureHotkey(hotkey));
        }
        actions.push(LoopAction::RestartCore);
        assert(acts(actions@) =~= old(self)@.reconfigured(snapshot.config@).1);
        actions
    }

    /// Takes one event.
    pub fn step(&mut self, event: LoopEvent) -> (r: Vec<LoopAction>)
        ensures
            (final(self)@, acts(r@)) == old(self)@.after(event),
    {
        let mut actions: Vec<LoopAction> = Vec::new();
        match event {
            LoopEvent::Interrupt => {
                return self.stop();
            },
            LoopEvent::Tray(Some(TrayEvent::Quit)) => {
                return self.stop();
            },
            LoopEvent::Tray(Some(TrayEvent::OpenSettings)) => {
                self.shutdown_current_session(&mut actions);
                actions.push(LoopAction::ShowOverlay(OverlayState::Idle));
                actions.push(LoopAction::OpenSettings);
            },
            LoopEvent::Tray(Some(TrayEvent::SelectMicrophone(choice))) => {
                actions.push(LoopAction::SwitchMicrophone(choice.copied()));
                actions.push(LoopAction::SaveMicrophone(choice.copied()));
                actions.push(LoopAction::ShowMicrophoneInTray(choice.copied()));
                self.mic = choice;
            },
            LoopEvent::Tray(Some(TrayEvent::SetAutostart(on))) => {
                actions.push(LoopAction::SetAutostart(on));
            },
            LoopEvent::Tray(None) => {
                actions.push(LoopAction::Fail(Failure::TrayClosed));
            },
            LoopEvent::Audio(pcm) => {
                if let Some(id) = self.session {
                    match pcm {
                        Some(pcm) => {
                            if self.core_up {
                                actions.push(LoopAction::Send(Request::Chunk { id, pcm }));
                            }
                        },
                        None => {
                            actions.push(LoopAction::Fail(Failure::AudioDied));
                        },
                    }
                }
            },
            LoopEvent::Recovery(_) => {},
            LoopEvent::Hotkey(Some(HotkeyEvent::Press)) => {
                return self.press();
            },
            LoopEvent::Hotkey(Some(HotkeyEvent::Release)) => {
                return self.release();
            },
            LoopEvent::Hotkey(None) => {
                actions.push(LoopAction::Fail(Failure::HotkeyClosed));
            },
            LoopEvent::Core(response) => {
                if self.core_up {
                    match response {
                        Some(response) => {
                            return self.respond(response);
                        },
                        None => {
                            actions.push(LoopAction::Fail(Failure::CoreClosed));
                        },
                    }
                }
            },
            LoopEvent::Settings(Some(SettingsEvent::Applied(snapshot))) => {
                return self.apply_settings(&snapshot);
            },
            LoopEvent::Settings(Some(SettingsEvent::Cancelled)) => {},
            LoopEvent::Settings(Some(SettingsEvent::Failed(what))) => {
                actions.push(LoopAction::Notify(Notice::SettingsFailed(what)));
            },
            LoopEvent::Settings(None) => {
                actions.push(LoopAction::Fail(Failure::SettingsClosed));
            },
        }
        assert(acts(actions@) =~= old(self)@.after(event).1);
        actions
    }

    /// The hotkey works with a new configuration.
    pub fn hotkey_changed(&mut self, hotkey: Config)
        ensures
            final(self)@ == (ControllerView { hotkey, ..old(self)@ }),
    {
        self.hotkey = hotkey;
    }

    /// The engine was started anew, or could not be. A new engine counts its
    /// sessions from the start, also where the old one did not stop cleanly, and
    /// nothing more is heard of the old one; without a new one the old one stays.
    pub fn core_restarted(&mut self, outcome: RestartOutcome) -> (r: Vec<LoopAction>)
        ensures
            final(self)@ == (if outcome is NotStarted {
                old(self)@
            } else {
                ControllerView {
                    core_up: true,
                    awaited: None,
                    ids: SessionIds { next: 1 },
                    ..old(self)@
                }
            }),
            acts(r@) == (match outcome {
                RestartOutcome::Restarted => seq![Act::ShowOverlay(OverlayState::Idle)],
                RestartOutcome::NotStarted(what) | RestartOutcome::OldNotStopped(what) => seq![
                    Act::ShowOverlay(OverlayState::Error),
                    Act::Notify(Notice::RestartFailed(what)),
                ],
            }),
    {
        let mut actions: Vec<LoopAction> = Vec::new();
        match outcome {
            RestartOutcome::Restarted => {
                self.core_up = true;
                self.awaited = None;
                self.ids = SessionIds::new();
                actions.push(LoopAction::ShowOverlay(OverlayState::Idle));
                assert(acts(actions@) =~= seq![Act::ShowOverlay(OverlayState::Idle)]);
            },
            RestartOutcome::NotStarted(what) => {
                actions.push(LoopAction::ShowOverlay(OverlayState::Error));
                actions.push(LoopAction::Notify(Notice::RestartFailed(what)));
                assert(acts(actions@) =~= seq![
                    Act::ShowOverlay(OverlayState::Error),
                    Act::Notify(Notice::RestartFailed(what)),
                ]);
            },
            RestartOutcome::OldNotStopped(what) => {
                self.core_up = true;
                self.awaited = None;
                self.ids = SessionIds::new();
                actions.push(LoopAction::ShowOverlay(OverlayState::Error));
                actions.push(LoopAction::Notify(Notice::RestartFailed(what)));
                assert(acts(actions@) =~= seq![
                    Act::ShowOverlay(OverlayState::Error),
                    Act::Notify(Notice::RestartFailed(what)),
                ]);
            },
        }
        actions
    }
}

/// What follows a delivery.
#[derive(Debug)]
pub enum AfterPaste {
    /// It worked: show that it did.
    Done,
    /// It failed: hide the overlay and show the text.
    Recover(String),
}

/// What follows the delivery of a text: a text that did not arrive is shown to
/// the user.
pub fn after_paste(delivered: bool, text: String) -> (r: (OverlayState, AfterPaste))
    ensures
        r == (if delivered {
            (OverlayState::Success, AfterPaste::Done)
        } else {
            (OverlayState::Idle, AfterPaste::Recover(text))
        }),
{
    if delivered {
        (OverlayState::Success, AfterPaste::Done)
    } else {
        (OverlayState::Idle, AfterPaste::Recover(text))
    }
}

// ─── Laws ──────────────────────────────────────────────────────────────

/// Whether the microphone is heard after the actions.
pub open spec fn gate_after(open: bool, actions: Seq<Act>) -> bool
    decreases actions.len(),
{
    if actions.len() == 0 {
        open
    } else {
        match actions.last() {
            Act::OpenGate => true,
            Act::CloseGate => false,
            _ => gate_after(open, actions.drop_last()),
        }
    }
}

/// The microphone is heard exactly while a session is being recorded: a step
/// keeps it so.
pub proof fn law_gate_follows_session(state: ControllerView, event: LoopEvent)
    ensures
        gate_after(state.session is Some, state.after(event).1) <==> state.after(event).0.session
            is Some,
{
    let before = state.session is Some;
    let actions = state.after(event).1;
    reveal_with_fuel(gate_after, 8);
    match event {
        LoopEvent::Hotkey(Some(HotkeyEvent::Press)) => {
            if state.core_up {
                let n = actions.len();
                assert(actions[n - 1] == Act::ShowOverlay(OverlayState::Recording));
                assert(actions.drop_last().last() == Act::OpenGate);
            } else {
                assert(actions.drop_last().drop_last() =~= Seq::<Act>::empty());
            }
        },
        LoopEvent::Hotkey(Some(HotkeyEvent::Release)) => {
            if before {
                let rest = if state.core_up {
                    actions.drop_last().drop_last()
                } else {
                    actions.drop_last()
                };
                assert(rest =~= seq![Act::CloseGate, Act::DrainAudio]);
                assert(rest.drop_last().last() == Act::CloseGate);
            }
        },
        LoopEvent::Interrupt => {
            lemma_gate_when_stopping(state);
        },
        LoopEvent::Tray(Some(TrayEvent::Quit)) => {
            lemma_gate_when_stopping(state);
        },
        LoopEvent::Tray(Some(TrayEvent::OpenSettings)) => {
            let rest = actions.drop_last().drop_last();
            assert(rest =~= state.giving_up());
            lemma_gate_when_giving_up(state);
        },
        LoopEvent::Settings(Some(SettingsEvent::Applied(_))) => {
            lemma_gate_untouched(before, actions);
        },
        _ => {
            lemma_gate_untouched(before, actions);
        },
    }
}

proof fn lemma_gate_untouched(open: bool, actions: Seq<Act>)
    requires
        forall|i: int|
            0 <= i < actions.len() ==> !(#[trigger] actions[i] is OpenGate) && !(actions[i]
                is CloseGate),
    ensures
        gate_after(open, actions) == open,
    decreases actions.len(),
{
    if actions.len() > 0 {
        assert(!(actions[actions.len() - 1] is OpenGate));
        assert forall|i: int| 0 <= i < actions.drop_last().len() implies !(
        #[trigger] actions.drop_last()[i] is OpenGate) && !(actions.drop_last()[i] is CloseGate) by {
            assert(actions.drop_last()[i] == actions[i]);
        }
        lemma_gate_untouched(open, actions.drop_last());
    }
}

proof fn lemma_gate_when_giving_up(state: ControllerView)
    ensures
        !gate_after(state.session is Some, state.giving_up()),
{
    reveal_with_fuel(gate_after, 3);
    if state.session is Some && state.core_up {
        assert(state.giving_up().drop_last() =~= seq![Act::CloseGate]);
    }
}

proof fn lemma_gate_when_stopping(state: ControllerView)
    ensures
        !gate_after(state.session is Some, state.stopping().1),
{
    reveal_with_fuel(gate_after, 4);
    lemma_gate_when_giving_up(state);
    let actions = state.stopping().1;
    if state.core_up {
        assert(actions.drop_last().drop_last().drop_last() =~= state.giving_up());
    } else {
        assert(actions.drop_last().drop_last() =~= state.giving_up());
    }
}

/// Whether the actions tell the engine that session `id` ends.
pub open spec fn closes(actions: Seq<Act>, id: u64) -> bool {
    exists|i: int|
        0 <= i < actions.len() && (#[trigger] actions[i] == Act::Send(Request::End { id })
            || actions[i] == Act::TrySend(Request::Cancel { id }))
}

/// No session is left hanging: whenever the loop leaves a session, it tells the
/// engine so, and a session only opens while there is an engine.
pub proof fn law_sessions_are_closed(state: ControllerView, event: LoopEvent)
    requires
        state.consistent(),
    ensures
        state.after(event).0.consistent(),
        state.session matches Some(id) ==> state.after(event).0.session == state.session || closes(
            state.after(event).1,
            id,
        ),
{
    if let Some(id) = state.session {
        let actions = state.after(event).1;
        match event {
            LoopEvent::Hotkey(Some(HotkeyEvent::Press)) => {
                assert(actions[3] == Act::TrySend(Request::Cancel { id }));
            },
            LoopEvent::Hotkey(Some(HotkeyEvent::Release)) => {
                assert(actions[2] == Act::Send(Request::End { id }));
            },
            LoopEvent::Interrupt => {
                assert(actions[1] == Act::TrySend(Request::Cancel { id }));
            },
            LoopEvent::Tray(Some(TrayEvent::Quit)) => {
                assert(actions[1] == Act::TrySend(Request::Cancel { id }));
            },
            LoopEvent::Tray(Some(TrayEvent::OpenSettings)) => {
                assert(actions[1] == Act::TrySend(Request::Cancel { id }));
            },
            _ => {},
        }
    }
}

/// Sessions are numbered upwards as long as one engine runs: a session that
/// opens has a greater number than every session before it, until the numbers
/// run out.
pub proof fn law_session_numbers_grow(state: ControllerView, event: LoopEvent)
    requires
        state.session matches Some(id) ==> id < state.ids.next,
        state.ids.next < u64::MAX,
    ensures
        state.ids.next <= state.after(event).0.ids.next,
        state.after(event).0.session matches Some(id) ==> id < state.after(event).0.ids.next && (
        state.session == Some(id) || state.ids.next <= id),
{
}

/// An answer of a session that the loop has done with is ignored.
pub proof fn law_late_answers_are_ignored(state: ControllerView, response: Response, id: u64)
    requires
        response.ends(id),
        !state.expects(id),
    ensures
        state.after(LoopEvent::Core(Some(response))) == (state, Seq::<Act>::empty()),
{
}

/// A session that was opened and that the loop has done with stays so, whatever
/// happens, as long as one engine runs. It is done with when its awaited answer
/// has come, when it is given up, and when another one opens.
pub proof fn law_done_sessions_stay_done(state: ControllerView, event: LoopEvent, id: u64)
    requires
        id < state.ids.next,
    ensures
        !state.expects(id) ==> !state.after(event).0.expects(id),
        event matches LoopEvent::Core(Some(response)) && response.ends(id) && state.core_up
            ==> state.after(event).0.awaited != Some(id),
        event matches LoopEvent::Hotkey(Some(HotkeyEvent::Press)) && state.core_up
            ==> !state.after(event).0.expects(id),
        state.consistent() && state.session == Some(id) && (event matches LoopEvent::Tray(
            Some(TrayEvent::OpenSettings),
        )) ==> !state.after(event).0.expects(id),
{
}

/// The answer's final text is what is delivered: the result of a session that
/// concerns the loop is one delivery of exactly that text, whatever else the
/// result holds.
pub proof fn law_the_final_text_is_delivered(
    state: ControllerView,
    id: u64,
    text: String,
    raw: Option<String>,
    language: Option<String>,
    stats: SessionStats,
)
    requires
        state.core_up,
        state.session == Some(id) || state.awaited == Some(id),
    ensures
        state.after(
            LoopEvent::Core(Some(Response::Result { id, text, raw, language, stats })),
        ).1 == seq![Act::Paste(text)],
{
}

/// Nothing else is ever delivered: a delivered text is the final text of the
/// result that just came, of a session that concerns the loop.
pub proof fn law_only_final_texts_are_delivered(state: ControllerView, event: LoopEvent, text: String)
    requires
        state.after(event).1.contains(Act::Paste(text)),
    ensures
        state.core_up,
        event matches LoopEvent::Core(Some(Response::Result { id, text: t, .. })) && t == text && (
        state.session == Some(id) || state.awaited == Some(id)),
{
}

/// Recorded audio is sent whole, to the session that is being recorded, and
/// nothing else of it is.
pub proof fn law_recorded_audio_is_sent(state: ControllerView, event: LoopEvent)
    ensures
        event matches LoopEvent::Audio(Some(pcm)) ==> state.core_up ==> state.after(event).1 == (
        match state.session {
            Some(id) => seq![Act::Send(Request::Chunk { id, pcm })],
            None => seq![],
        }),
        forall|id: u64, pcm: Vec<u8>|
            #![trigger state.after(event).1.contains(Act::Send(Request::Chunk { id, pcm }))]
            state.after(event).1.contains(Act::Send(Request::Chunk { id, pcm })) ==> event
                == LoopEvent::Audio(Some(pcm)) && state.session == Some(id),
{
}

/// What the overlay shows last after an action sequence, if it changes at all.
pub open spec fn overlay_after(shown: OverlayState, actions: Seq<Act>) -> OverlayState
    decreases actions.len(),
{
    if actions.len() == 0 {
        shown
    } else {
        match actions.last() {
            Act::ShowOverlay(state) => state,
            _ => overlay_after(shown, actions.drop_last()),
        }
    }
}

/// The overlay tells the user where things stand: recording after a press,
/// processing after a release, hidden when there was no speech, and an error for
/// every failure that the loop did not cause itself. A press without an engine
/// is an error too.
pub proof fn law_the_overlay_tells(state: ControllerView, event: LoopEvent, shown: OverlayState)
    ensures
        event matches LoopEvent::Hotkey(Some(HotkeyEvent::Press)) ==> overlay_after(
            shown,
            state.after(event).1,
        ) == (if state.core_up {
            OverlayState::Recording
        } else {
            OverlayState::Error
        }),
        event matches LoopEvent::Hotkey(Some(HotkeyEvent::Release)) ==> overlay_after(
            shown,
            state.after(event).1,
        ) == (if state.session is Some {
            OverlayState::Processing
        } else {
            shown
        }),
        event matches LoopEvent::Core(Some(Response::Error { id, message })) ==> state.core_up && (
        state.session == Some(id) || state.awaited == Some(id)) ==> overlay_after(
            shown,
            state.after(event).1,
        ) == (if message@ == "no_audio"@ {
            OverlayState::Idle
        } else if message@ == "cancelled"@ || message@ == "superseded"@ {
            shown
        } else {
            OverlayState::Error
        }),
{
    let actions = state.after(event).1;
    reveal_with_fuel(overlay_after, 3);
    if actions.len() > 0 {
        assert(actions.last() == actions[actions.len() - 1]);
    }
    if let LoopEvent::Hotkey(Some(HotkeyEvent::Press)) = event {
        if !state.core_up {
            assert(actions.drop_last().last() == Act::ShowOverlay(OverlayState::Error));
        }
    }
}

/// A press opens the next session, with segmentation and the engine's own
/// defaults, and makes it heard; a release ends exactly the session that was
/// recorded and waits for its answer.
pub proof fn law_press_opens_and_release_ends(state: ControllerView, id: u64)
    requires
        state.core_up,
        state.ids.next < u64::MAX,
    ensures
        ({
            let (pressed, actions) = state.after(LoopEvent::Hotkey(Some(HotkeyEvent::Press)));
            &&& pressed.session == Some(state.ids.next)
            &&& pressed.ids.next == state.ids.next + 1
            &&& actions.contains(Act::OpenGate)
            &&& actions.contains(
                Act::Send(
                    Request::Begin {
                        id: state.ids.next,
                        vad: true,
                        context: None,
                        language: None,
                        enable_itn: None,
                        enable_llm: None,
                    },
                ),
            )
        }),
        state.session == Some(id) ==> ({
            let (released, actions) = state.after(LoopEvent::Hotkey(Some(HotkeyEvent::Release)));
            &&& released.session is None && released.awaited == Some(id)
            &&& actions.contains(Act::Send(Request::End { id }))
            &&& actions.contains(Act::CloseGate)
        }),
{
    let opened = state.after(LoopEvent::Hotkey(Some(HotkeyEvent::Press))).1;
    let n = opened.len();
    assert(opened[n - 2] == Act::OpenGate);
    assert(opened[n - 3] == Act::Send(opening(state.ids.next)));
    if state.session == Some(id) {
        let closed = state.after(LoopEvent::Hotkey(Some(HotkeyEvent::Release))).1;
        assert(closed[0] == Act::CloseGate);
        assert(closed[2] == Act::Send(Request::End { id }));
    }
}

/// New settings are in force afterwards: the microphone is the one they name,
/// opened anew or switched to if it is another one, the hotkey is reconfigured
/// if it is another one, and the engine starts anew in any case.
pub proof fn law_settings_take_effect(state: ControllerView, snapshot: SettingsSnapshot)
    ensures
        ({
            let config = snapshot.config@;
            let wanted = model::choice_of(config.input_device);
            let (next, actions) = state.after(
                LoopEvent::Settings(Some(SettingsEvent::Applied(snapshot))),
            );
            &&& next.mic == wanted && next.instant_record == config.instant_record
            &&& next.session == state.session && next.awaited == state.awaited
            &&& actions.last() == Act::RestartCore
            &&& actions.contains(Act::RestartAudio(wanted, config.instant_record))
                <==> config.instant_record != state.instant_record
            &&& actions.contains(Act::SwitchMicrophone(wanted)) <==> config.instant_record
                == state.instant_record && wanted != state.mic
            &&& actions.contains(Act::ShowMicrophoneInTray(wanted)) <==> config.instant_record
                != state.instant_record || wanted != state.mic
            &&& actions.contains(Act::ReconfigureHotkey(model::hotkey_of(config)))
                <==> model::hotkey_of(config) != state.hotkey
        }),
{
    let config = snapshot.config@;
    let wanted = model::choice_of(config.input_device);
    let actions = state.after(LoopEvent::Settings(Some(SettingsEvent::Applied(snapshot)))).1;
    let moved = config.instant_record != state.instant_record || wanted != state.mic;
    if moved {
        assert(actions[1] == Act::ShowMicrophoneInTray(wanted));
        if config.instant_record != state.instant_record {
            assert(actions[0] == Act::RestartAudio(wanted, config.instant_record));
        } else {
            assert(actions[0] == Act::SwitchMicrophone(wanted));
        }
    }
    if model::hotkey_of(config) != state.hotkey {
        let k = if moved {
            2int
        } else {
            0
        };
        assert(actions[k] == Act::ReconfigureHotkey(model::hotkey_of(config)));
    }
}

/// Stopping leaves nothing running: a session that is on is cancelled, the
/// engine is shut down if there is one, and the loop ends.
pub proof fn law_stopping_leaves_nothing(state: ControllerView, event: LoopEvent)
    requires
        event is Interrupt || event == LoopEvent::Tray(Some(TrayEvent::Quit)),
    ensures
        ({
            let (next, actions) = state.after(event);
            &&& next.session is None && !next.core_up
            &&& actions.last() == Act::Stop
            &&& actions.contains(Act::ShutdownCore) <==> state.core_up
            &&& state.core_up ==> (state.session matches Some(id) ==> actions.contains(
                Act::TrySend(Request::Cancel { id }),
            ))
        }),
{
    let actions = state.after(event).1;
    if state.core_up {
        assert(actions[actions.len() - 2] == Act::ShutdownCore);
        if let Some(id) = state.session {
            assert(actions[1] == Act::TrySend(Request::Cancel { id }));
        }
    }
}

/// Whether an action stands somewhere before another.
pub open spec fn comes_before(actions: Seq<Act>, first: Act, second: Act) -> bool {
    exists|i: int, j: int|
        0 <= i < j < actions.len() && #[trigger] actions[i] == first && #[trigger] actions[j]
            == second
}

/// The audio of two sessions does not mix: a session is opened before the
/// microphone is heard, and when one gives way to another, or ends, the
/// microphone is closed first and what is still queued is dropped. A popup with an
/// earlier text goes away when a recording starts.
pub proof fn law_sessions_do_not_mix(state: ControllerView)
    requires
        state.core_up,
    ensures
        ({
            let begin = Act::Send(
                Request::Begin {
                    id: state.ids.next,
                    vad: true,
                    context: None,
                    language: None,
                    enable_itn: None,
                    enable_llm: None,
                },
            );
            let pressed = state.after(LoopEvent::Hotkey(Some(HotkeyEvent::Press))).1;
            let released = state.after(LoopEvent::Hotkey(Some(HotkeyEvent::Release))).1;
            &&& pressed[0] == Act::HideRecovery
            &&& comes_before(pressed, begin, Act::OpenGate)
            &&& state.session matches Some(old) ==> {
                &&& comes_before(pressed, Act::CloseGate, Act::DrainAudio)
                &&& comes_before(pressed, Act::DrainAudio, begin)
                &&& comes_before(pressed, Act::TrySend(Request::Cancel { id: old }), begin)
                &&& comes_before(released, Act::CloseGate, Act::DrainAudio)
                &&& comes_before(released, Act::DrainAudio, Act::Send(Request::End { id: old }))
            }
        }),
{
    let pressed = state.after(LoopEvent::Hotkey(Some(HotkeyEvent::Press))).1;
    let released = state.after(LoopEvent::Hotkey(Some(HotkeyEvent::Release))).1;
    let n = pressed.len() as int;
    assert(pressed[n - 3] == Act::Send(opening(state.ids.next)));
    assert(pressed[n - 2] == Act::OpenGate);
    if let Some(old) = state.session {
        assert(pressed[1] == Act::CloseGate && pressed[2] == Act::DrainAudio);
        assert(pressed[3] == Act::TrySend(Request::Cancel { id: old }));
        assert(released[0] == Act::CloseGate && released[1] == Act::DrainAudio);
        assert(released[2] == Act::Send(Request::End { id: old }));
    }
}

/// Each event changes only what it is about: the microphone and its mode change
/// by the user's choice alone, a session opens or ends by the hotkey, the settings
/// or a stop alone, the answer that is waited for changes by the hotkey or an
/// answer alone, and the engine stays up until a stop.
pub proof fn law_events_change_what_they_are_about(state: ControllerView, event: LoopEvent)
    ensures
        ({
            let next = state.after(event).0;
            let tray = event is Tray;
            let stop = event is Interrupt || event == LoopEvent::Tray(Some(TrayEvent::Quit));
            &&& next.hotkey == state.hotkey
            &&& !tray && !(event is Settings) ==> next.mic == state.mic
            &&& !(event is Settings) ==> next.instant_record == state.instant_record
            &&& !stop ==> next.core_up == state.core_up
            &&& !stop && !tray && !(event is Hotkey) ==> next.session == state.session
            &&& !(event is Hotkey) && !(event is Core) ==> next.awaited == state.awaited
            &&& !(event is Hotkey) ==> next.ids == state.ids
            &&& event == LoopEvent::Hotkey(Some(HotkeyEvent::Release)) ==> next.ids == state.ids
        }),
{
}

/// What the user picks in the tray takes effect: a microphone is switched to,
/// saved and shown; autostart is set as picked; and opening the settings gives up
/// the recording first.
pub proof fn law_tray_choices_take_effect(state: ControllerView, choice: DeviceChoice, on: bool)
    ensures
        ({
            let (next, actions) = state.after(
                LoopEvent::Tray(Some(TrayEvent::SelectMicrophone(choice))),
            );
            &&& next.mic == choice@
            &&& next.session == state.session
            &&& actions.contains(Act::SwitchMicrophone(choice@))
            &&& actions.contains(Act::SaveMicrophone(choice@))
            &&& actions.contains(Act::ShowMicrophoneInTray(choice@))
        }),
        state.after(LoopEvent::Tray(Some(TrayEvent::SetAutostart(on)))).1 == seq![
            Act::SetAutostart(on),
        ],
        ({
            let (next, actions) = state.after(LoopEvent::Tray(Some(TrayEvent::OpenSettings)));
            &&& next.session is None
            &&& actions.last() == Act::OpenSettings
            &&& state.session is Some ==> actions[0] == Act::CloseGate
            &&& overlay_after(OverlayState::Recording, actions) == OverlayState::Idle
        }),
{
    let actions = state.after(LoopEvent::Tray(Some(TrayEvent::SelectMicrophone(choice)))).1;
    assert(actions[0] == Act::SwitchMicrophone(choice@));
    assert(actions[1] == Act::SaveMicrophone(choice@));
    assert(actions[2] == Act::ShowMicrophoneInTray(choice@));
    let opened = state.after(LoopEvent::Tray(Some(TrayEvent::OpenSettings))).1;
    reveal_with_fuel(overlay_after, 3);
    assert(opened.drop_last().last() == Act::ShowOverlay(OverlayState::Idle));
}

/// The loop ends with a failure exactly if a source that it needs has closed, and
/// the failure says which. The popup's source is not needed.
pub proof fn law_closed_sources_are_failures(state: ControllerView, event: LoopEvent)
    ensures
        event == LoopEvent::Tray(None) ==> state.after(event).1 == seq![
            Act::Fail(Failure::TrayClosed),
        ],
        event == LoopEvent::Hotkey(None) ==> state.after(event).1 == seq![
            Act::Fail(Failure::HotkeyClosed),
        ],
        event == LoopEvent::Settings(None) ==> state.after(event).1 == seq![
            Act::Fail(Failure::SettingsClosed),
        ],
        event == LoopEvent::Audio(None) && state.session is Some ==> state.after(event).1 == seq![
            Act::Fail(Failure::AudioDied),
        ],
        event == LoopEvent::Core(None) && state.core_up ==> state.after(event).1 == seq![
            Act::Fail(Failure::CoreClosed),
        ],
        event is Recovery ==> state.after(event) == (state, Seq::<Act>::empty()),
        forall|f: Failure| #[trigger]
            state.after(event).1.contains(Act::Fail(f)) ==> event == LoopEvent::Tray(None) || event
                == LoopEvent::Hotkey(None) || event == LoopEvent::Settings(None) || event
                == LoopEvent::Audio(None) || event == LoopEvent::Core(None),
{
}

/// Settings that could not be saved are reported, and settings that were left
/// alone change nothing.
pub proof fn law_failed_settings_are_reported(state: ControllerView, what: String)
    ensures
        state.after(LoopEvent::Settings(Some(SettingsEvent::Failed(what)))) == (
            state,
            seq![Act::Notify(Notice::SettingsFailed(what))],
        ),
        state.after(LoopEvent::Settings(Some(SettingsEvent::Cancelled))) == (
            state,
            Seq::<Act>::empty(),
        ),
{
}

/// The model's actions are those of the loop, in order and one for one.
pub proof fn law_actions_are_modelled_one_for_one(actions: Seq<LoopAction>, i: int)
    requires
        0 <= i < actions.len(),
    ensures
        acts(actions).len() == actions.len(),
        match actions[i] {
            LoopAction::OpenGate => acts(actions)[i] is OpenGate,
            LoopAction::CloseGate => acts(actions)[i] is CloseGate,
            LoopAction::DrainAudio => acts(actions)[i] is DrainAudio,
            LoopAction::Send(r) => acts(actions)[i] == Act::Send(r),
            LoopAction::TrySend(r) => acts(actions)[i] == Act::TrySend(r),
            LoopAction::ShowOverlay(s) => acts(actions)[i] == Act::ShowOverlay(s),
            LoopAction::OpenSettings => acts(actions)[i] is OpenSettings,
            LoopAction::HideRecovery => acts(actions)[i] is HideRecovery,
            LoopAction::SwitchMicrophone(c) => acts(actions)[i] == Act::SwitchMicrophone(c@),
            LoopAction::SaveMicrophone(c) => acts(actions)[i] == Act::SaveMicrophone(c@),
            LoopAction::ShowMicrophoneInTray(c) => acts(actions)[i] == Act::ShowMicrophoneInTray(
                c@,
            ),
            LoopAction::SetAutostart(on) => acts(actions)[i] == Act::SetAutostart(on),
            LoopAction::Paste(t) => acts(actions)[i] == Act::Paste(t),
            LoopAction::RestartAudio(c, instant) => acts(actions)[i] == Act::RestartAudio(
                c@,
                instant,
            ),
            LoopAction::ReconfigureHotkey(c) => acts(actions)[i] == Act::ReconfigureHotkey(c),
            LoopAction::RestartCore => acts(actions)[i] is RestartCore,
            LoopAction::ShutdownCore => acts(actions)[i] is ShutdownCore,
            LoopAction::Notify(n) => acts(actions)[i] == Act::Notify(n),
            LoopAction::Stop => acts(actions)[i] is Stop,
            LoopAction::Fail(f) => acts(actions)[i] == Act::Fail(f),
        },
{
}

/// The model's state is that of the loop.
pub proof fn law_the_state_is_modelled(c: Controller)
    ensures
        c@.session == c.session && c@.awaited == c.awaited,
        c@.ids == c.ids && c@.core_up == c.core_up,
        c@.hotkey == c.hotkey && c@.instant_record == c.instant_record,
        c.mic is Auto ==> c@.mic is None,
        c.mic matches DeviceChoice::Named(name) ==> c@.mic == Some(name@),
{
}

} // verus!
