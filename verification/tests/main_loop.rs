use airtalk::proto::{Request, Response, SessionStats};
use airtalk::ui::audio::DeviceChoice;
use airtalk::ui::controller::{
    after_paste, AfterPaste, Controller, Failure, LoopAction, LoopEvent, RestartOutcome, TrayEvent,
};
use airtalk::ui::dev::{result_lines, TimedAction, TimedEvent, TimedRecording};
use airtalk::ui::hotkey::HotkeyEvent;
use airtalk::ui::overlay::OverlayState;
use airtalk::ui::settings::form::SettingsEvent;
use airtalk::ui::settings::model::AppConfig;
use airtalk::ui::settings::storage::SettingsSnapshot;
use airtalk::ui::slint_bridge::RecoveryEvent;

fn controller() -> Controller {
    let (c, actions) = Controller::new(&AppConfig::default(), true);
    assert!(actions.is_empty());
    c
}

/// An action in a word or two.
fn word(action: &LoopAction) -> String {
    match action {
        LoopAction::OpenGate => "open".into(),
        LoopAction::CloseGate => "close".into(),
        LoopAction::DrainAudio => "drain".into(),
        LoopAction::Send(r) => format!("send {}", request(r)),
        LoopAction::TrySend(r) => format!("try {}", request(r)),
        LoopAction::ShowOverlay(s) => format!("{s:?}"),
        LoopAction::OpenSettings => "settings".into(),
        LoopAction::HideRecovery => "hide".into(),
        LoopAction::SwitchMicrophone(_) => "mic".into(),
        LoopAction::SaveMicrophone(_) => "save mic".into(),
        LoopAction::ShowMicrophoneInTray(_) => "tray mic".into(),
        LoopAction::SetAutostart(on) => format!("autostart {on}"),
        LoopAction::Paste(t) => format!("paste {t}"),
        LoopAction::RestartAudio(_, instant) => format!("audio {instant}"),
        LoopAction::ReconfigureHotkey(_) => "hotkey".into(),
        LoopAction::RestartCore => "core".into(),
        LoopAction::ShutdownCore => "shutdown".into(),
        LoopAction::Notify(n) => n.message(),
        LoopAction::Stop => "stop".into(),
        LoopAction::Fail(f) => f.message().into(),
    }
}

fn request(r: &Request) -> String {
    match r {
        Request::Begin { id, vad, .. } => format!("begin {id} {vad}"),
        Request::Chunk { id, pcm } => format!("chunk {id} {}", pcm.len()),
        Request::End { id } => format!("end {id}"),
        Request::Cancel { id } => format!("cancel {id}"),
    }
}

fn step(c: &mut Controller, event: LoopEvent) -> Vec<String> {
    c.step(event).iter().map(word).collect()
}

fn press(c: &mut Controller) -> Vec<String> {
    step(c, LoopEvent::Hotkey(Some(HotkeyEvent::Press)))
}

fn release(c: &mut Controller) -> Vec<String> {
    step(c, LoopEvent::Hotkey(Some(HotkeyEvent::Release)))
}

fn result(id: u64) -> LoopEvent {
    LoopEvent::Core(Some(Response::Result {
        id,
        text: "hi".into(),
        raw: None,
        language: None,
        stats: SessionStats::default(),
    }))
}

#[test]
fn late_answers_are_ignored() {
    // Given up.
    let mut c = controller();
    press(&mut c);
    step(&mut c, LoopEvent::Tray(Some(TrayEvent::OpenSettings)));
    assert!(step(&mut c, result(1)).is_empty());
    assert!(step(&mut c, error("timeout")).is_empty());
    // Another recording has begun.
    press(&mut c);
    release(&mut c);
    press(&mut c);
    assert!(step(&mut c, result(2)).is_empty());
    // Answered already.
    release(&mut c);
    assert_eq!(c.awaited, Some(3));
    assert_eq!(step(&mut c, result(3)), ["paste hi"]);
    assert!(step(&mut c, result(3)).is_empty());
    // The engine is another one.
    press(&mut c);
    release(&mut c);
    c.core_restarted(RestartOutcome::Restarted);
    assert!(step(&mut c, result(4)).is_empty());
}

fn error(message: &str) -> LoopEvent {
    LoopEvent::Core(Some(Response::Error { id: 1, message: message.into() }))
}

#[test]
fn a_session_from_press_to_paste() {
    let mut c = controller();
    assert_eq!(press(&mut c), ["hide", "send begin 1 true", "open", "Recording"]);
    assert_eq!(step(&mut c, LoopEvent::Audio(Some(vec![0; 960]))), ["send chunk 1 960"]);
    let release = LoopEvent::Hotkey(Some(HotkeyEvent::Release));
    assert_eq!(step(&mut c, release), ["close", "drain", "send end 1", "Processing"]);
    assert!(step(&mut c, LoopEvent::Audio(Some(vec![0; 960]))).is_empty());
    let result = Response::Result {
        id: 1,
        text: "hi".into(),
        raw: None,
        language: None,
        stats: SessionStats::default(),
    };
    assert_eq!(step(&mut c, LoopEvent::Core(Some(result))), ["paste hi"]);
    assert!(step(&mut c, LoopEvent::Hotkey(Some(HotkeyEvent::Release))).is_empty());
    assert_eq!(press(&mut c)[1], "send begin 2 true");
}

#[test]
fn a_second_press_supersedes() {
    let mut c = controller();
    press(&mut c);
    assert_eq!(
        press(&mut c),
        ["hide", "close", "drain", "try cancel 1", "send begin 2 true", "open", "Recording"]
    );
    assert_eq!(c.session, Some(2));
}

#[test]
fn without_an_engine_the_settings_open() {
    let (mut c, actions) = Controller::new(&AppConfig::default(), false);
    assert!(matches!(actions[..], [LoopAction::OpenSettings]));
    assert_eq!(press(&mut c), ["Error", "settings"]);
    assert!(step(&mut c, LoopEvent::Core(None)).is_empty());
    assert_eq!(step(&mut c, LoopEvent::Interrupt), ["Idle", "stop"]);
}

#[test]
fn quitting_gives_up_the_session() {
    let mut c = controller();
    press(&mut c);
    assert_eq!(
        step(&mut c, LoopEvent::Tray(Some(TrayEvent::Quit))),
        ["close", "try cancel 1", "Idle", "shutdown", "stop"]
    );
    let mut c = controller();
    press(&mut c);
    assert_eq!(
        step(&mut c, LoopEvent::Tray(Some(TrayEvent::OpenSettings))),
        ["close", "try cancel 1", "Idle", "settings"]
    );
}

#[test]
fn engine_errors_are_shown_unless_expected() {
    let answered = |message: &str| {
        let mut c = controller();
        press(&mut c);
        release(&mut c);
        step(&mut c, error(message))
    };
    assert_eq!(answered("no_audio"), ["Idle"]);
    assert!(answered("cancelled").is_empty());
    assert!(answered("superseded").is_empty());
    assert_eq!(answered("timeout"), ["Error"]);
    let mut c = controller();
    press(&mut c);
    assert_eq!(step(&mut c, error("timeout")), ["Error"]);
    let ready = LoopEvent::Core(Some(Response::Ready { protocol_version: 3 }));
    assert!(step(&mut c, ready).is_empty());
}

#[test]
fn closed_sources_end_the_loop() {
    let mut c = controller();
    press(&mut c);
    assert_eq!(step(&mut c, LoopEvent::Tray(None)), ["tray channel closed"]);
    assert_eq!(step(&mut c, LoopEvent::Audio(None)), ["audio thread died"]);
    assert_eq!(step(&mut c, LoopEvent::Hotkey(None)), ["hotkey channel closed"]);
    assert_eq!(step(&mut c, LoopEvent::Core(None)), ["core closed unexpectedly"]);
    assert_eq!(step(&mut c, LoopEvent::Settings(None)), ["settings channel closed"]);
    assert!(step(&mut c, LoopEvent::Recovery(None)).is_empty());
    assert!(step(&mut c, LoopEvent::Recovery(Some(RecoveryEvent::Copied))).is_empty());
    assert_eq!(Failure::TrayClosed.message(), "tray channel closed");
}

#[test]
fn tray_switches() {
    let mut c = controller();
    let mic = DeviceChoice::Named("Mic".into());
    let event = LoopEvent::Tray(Some(TrayEvent::SelectMicrophone(mic.clone())));
    assert_eq!(step(&mut c, event), ["mic", "save mic", "tray mic"]);
    assert_eq!(c.mic, mic);
    let event = LoopEvent::Tray(Some(TrayEvent::SetAutostart(true)));
    assert_eq!(step(&mut c, event), ["autostart true"]);
}

fn applied(change: fn(&mut AppConfig)) -> LoopEvent {
    let mut config = AppConfig::default();
    change(&mut config);
    LoopEvent::Settings(Some(SettingsEvent::Applied(SettingsSnapshot {
        config,
        asr_key_saved: true,
        llm_key_saved: true,
        autostart_enabled: false,
    })))
}

#[test]
fn settings_touch_what_changed() {
    let mut c = controller();
    assert_eq!(step(&mut c, applied(|_| ())), ["core"]);
    let event = applied(|c| c.audio.input_device = "Mic".into());
    assert_eq!(step(&mut c, event), ["mic", "tray mic", "core"]);
    let event = applied(|c| c.audio.instant_record = true);
    assert_eq!(step(&mut c, event), ["audio true", "tray mic", "core"]);
    let event = applied(|c| {
        c.audio.instant_record = true;
        c.hotkey.mode = "tap".into();
    });
    assert_eq!(step(&mut c, event), ["hotkey", "core"]);
    let event = LoopEvent::Settings(Some(SettingsEvent::Failed("disk".into())));
    assert_eq!(step(&mut c, event), ["Settings failed:\n\ndisk"]);
    assert!(step(&mut c, LoopEvent::Settings(Some(SettingsEvent::Cancelled))).is_empty());
}

#[test]
fn a_changed_hotkey_is_remembered() {
    let mut c = controller();
    let tap = || applied(|c| c.hotkey.mode = "tap".into());
    let actions = c.step(tap());
    let LoopAction::ReconfigureHotkey(config) = actions[0] else { panic!("no hotkey") };
    assert_eq!(step(&mut c, tap()), ["hotkey", "core"]);
    c.hotkey_changed(config);
    assert_eq!(step(&mut c, tap()), ["core"]);
}

#[test]
fn restarting_the_engine() {
    let words = |a: Vec<LoopAction>| a.iter().map(word).collect::<Vec<_>>();
    let (mut c, _) = Controller::new(&AppConfig::default(), false);
    assert_eq!(
        words(c.core_restarted(RestartOutcome::NotStarted("e".into()))),
        ["Error", "Settings saved, but core restart failed:\n\ne"]
    );
    assert!(!c.core_up);
    assert_eq!(words(c.core_restarted(RestartOutcome::Restarted)), ["Idle"]);
    press(&mut c);
    assert_eq!(words(c.core_restarted(RestartOutcome::OldNotStopped("e".into())))[0], "Error");
    assert!(c.core_up && c.ids.next == 1);
}

#[test]
fn failed_deliveries_are_shown() {
    assert!(matches!(after_paste(true, "t".into()), (OverlayState::Success, AfterPaste::Done)));
    assert!(matches!(
        after_paste(false, "t".into()),
        (OverlayState::Idle, AfterPaste::Recover(t)) if t == "t"
    ));
}

#[test]
fn microphone_is_heard_only_in_a_session() {
    let mut c = controller();
    let mut heard = false;
    for i in 0..60u32 {
        let event = match i * 7 % 5 {
            0 | 1 => LoopEvent::Hotkey(Some(HotkeyEvent::Press)),
            2 => LoopEvent::Hotkey(Some(HotkeyEvent::Release)),
            3 => LoopEvent::Tray(Some(TrayEvent::OpenSettings)),
            _ => error("timeout"),
        };
        for action in c.step(event) {
            match action {
                LoopAction::OpenGate => heard = true,
                LoopAction::CloseGate => heard = false,
                _ => (),
            }
        }
        assert_eq!(heard, c.session.is_some());
    }
}

#[test]
fn timed_recording() {
    let mut r = TimedRecording::new(1);
    assert!(matches!(
        r.step(TimedEvent::Audio(Some(vec![1]))),
        TimedAction::Send(Request::Chunk { id: 1, .. })
    ));
    assert!(matches!(
        r.step(TimedEvent::TimeUp),
        TimedAction::StopAndSend(Request::End { id: 1 })
    ));
    assert!(matches!(r.step(TimedEvent::TimeUp), TimedAction::Continue));
    let fail = |a| match a {
        TimedAction::Fail(m) => m,
        other => panic!("expected Fail, got {other:?}"),
    };
    assert_eq!(fail(r.step(TimedEvent::Audio(None))), "audio capture thread died");
    assert_eq!(fail(r.step(TimedEvent::Core(None))), "core closed unexpectedly");
    let error = Response::Error { id: 1, message: "timeout".into() };
    assert_eq!(fail(r.step(TimedEvent::Core(Some(error)))), "core error: timeout");
}

#[test]
fn result_is_shown_in_lines() {
    let mut stats = SessionStats::default();
    stats.pcm_sent_to_asr_ms = 500;
    stats.asr_latency_ms = 420;
    stats.total_latency_ms = 610;
    stats.asr_calls = 1;
    let last = "    stats: pcm_sent=500ms asr=420ms total=610ms asr_calls=1";
    assert_eq!(
        result_lines("Hi.", Some("hi"), Some("en"), &stats),
        vec!["", "    text : Hi.", "    raw  : hi", "    lang : en", last]
    );
    assert_eq!(result_lines("hi", Some("hi"), None, &stats), vec!["", "    text : hi", last]);
}
