use airtalk::ui::args::{contains_word, launcher_exit_code, parse_args, RunMode};
use airtalk::ui::audio::{
    device_attempts, needs_reevaluation, ChunkBuffer, DeviceChange, DeviceChoice, CHUNK_BYTES,
};
use airtalk::ui::autostart::{self, AutostartChange};
use airtalk::ui::core_client::{begin, SessionIds};
use airtalk::ui::overlay::{
    bottom_centre, can_place, rgba_to_bgra, Command, Overlay, OverlayHandle, OverlayState, Rect,
};
use airtalk::ui::paste::run::{PasteAction, PasteEvent, PasteRun};
use airtalk::ui::paste::{
    check_injection, clipboard_busy, copy_to_clipboard, ctrl_v, paste, restore_clipboard,
    ClipboardRestore, Config, KeyInput, PastePlan, Strategy,
};
use airtalk::ui::paths;
use airtalk::ui::recovery::{self, layout, Click, Cmd, Metrics, Recovery};
use airtalk::ui::settings::form::SettingsEvent;
use airtalk::ui::single_instance::{acquired, AcquireError};
use airtalk::ui::slint_bridge::{
    self, copy_outcome, drags, popup_position, settings_outcome, unpack_point, SlintBridge,
};
use airtalk::proto::Request;

const AREA: Rect = Rect { left: 0, top: 0, right: 1920, bottom: 1040 };

#[test]
fn command_line() {
    let raw = |s: &str| s.split(' ').map(String::from).collect::<Vec<_>>();
    let args = parse_args(&raw("airtalk"));
    assert_eq!((args.mode(), args.seconds, args.debug), (RunMode::Normal, 3, false));
    assert!(!args.is_dev_mode());
    let args = parse_args(&raw("airtalk --dev-mic --seconds 7 --debug"));
    assert_eq!((args.mode(), args.seconds, args.debug), (RunMode::DevMic, 7, true));
    assert!(args.is_dev_mode());
    assert_eq!(parse_args(&raw("airtalk --seconds x")).seconds, 3);
    assert_eq!(parse_args(&raw("airtalk --seconds")).seconds, 3);
    let args = parse_args(&raw("airtalk --dev-recovery --text hi --smoke-test"));
    assert_eq!(args.mode(), RunMode::SmokeTest);
    assert_eq!(args.recovery_text.as_deref(), Some("hi"));
    assert_eq!(parse_args(&raw("airtalk --dev-recovery")).mode(), RunMode::DevRecovery);
    assert!(contains_word(&raw("a -V"), "-V") && !contains_word(&raw("a -Vx"), "-V"));
}

#[test]
fn launcher_passes_the_code_on() {
    assert_eq!(launcher_exit_code(Some(0)), 0);
    assert_eq!(launcher_exit_code(Some(3)), 3);
    assert_eq!(launcher_exit_code(Some(300)), 255);
    assert_eq!(launcher_exit_code(Some(-1)), 1);
    assert_eq!(launcher_exit_code(None), 1);
}

#[test]
fn chunks_are_whole() {
    let mut buffer = ChunkBuffer::new();
    let bytes: Vec<u8> = (0..2_000u32).map(|i| i as u8).collect();
    assert!(buffer.push(&bytes[..900], true).is_empty());
    let chunks = buffer.push(&bytes[900..], true);
    assert_eq!(chunks.len(), 2);
    assert_eq!(chunks.concat(), bytes[..2 * CHUNK_BYTES]);
    assert!(buffer.push(&[1; 5_000], false).is_empty());
    // What was kept is gone.
    assert_eq!(buffer.push(&[7; CHUNK_BYTES], true), vec![vec![7; CHUNK_BYTES]]);
}

#[test]
fn named_devices_fall_back() {
    let mic = DeviceChoice::Named("Mic".into());
    assert_eq!(device_attempts(&mic), vec![mic.clone(), DeviceChoice::Auto]);
    assert_eq!(device_attempts(&DeviceChoice::Auto), vec![DeviceChoice::Auto]);
}

#[test]
fn device_changes_that_matter() {
    assert!(needs_reevaluation(DeviceChange::DefaultChanged { capture: true, console: true }));
    assert!(!needs_reevaluation(DeviceChange::DefaultChanged { capture: false, console: true }));
    assert!(!needs_reevaluation(DeviceChange::DefaultChanged { capture: true, console: false }));
    assert!(!needs_reevaluation(DeviceChange::PropertyChanged));
}

#[test]
fn autostart_value() {
    assert!(!autostart::is_enabled(None));
    assert!(!autostart::is_enabled(Some(vec![0])));
    assert!(autostart::is_enabled(Some(vec![65, 0])));
    assert_eq!(autostart::read_value(Some(vec![65, 0])), Some(vec![65]));
    match autostart::set(true, "C:\\a.exe") {
        AutostartChange::Write(units) => {
            assert_eq!(String::from_utf16(&units).unwrap(), "\"C:\\a.exe\"\0");
            assert!(autostart::is_enabled(Some(units)));
        }
        other => panic!("expected Write, got {other:?}"),
    }
    assert!(matches!(autostart::set(false, "x"), AutostartChange::Delete));
    assert!(autostart::removed(0) && autostart::removed(2) && !autostart::removed(5));
}

#[test]
fn session_numbers_count_up() {
    let mut ids = SessionIds::new();
    assert_eq!((ids.next_session_id(), ids.next_session_id()), (1, 2));
    assert!(matches!(
        begin(4, true),
        Request::Begin { id: 4, vad: true, context: None, language: None, enable_itn: None, enable_llm: None }
    ));
}

#[test]
fn overlay_flashes_end() {
    let mut overlay = Overlay::new(0);
    let set = |s| OverlayHandle.set_state(s);
    assert!(matches!(set(OverlayState::Error), Command::SetState(OverlayState::Error)));
    assert!(overlay.apply(set(OverlayState::Recording), 10));
    assert!(!overlay.apply(set(OverlayState::Success), 20));
    overlay.apply(set(OverlayState::Success), 900);
    overlay.advance(1_120);
    assert_eq!(overlay.state, OverlayState::Success);
    overlay.advance(1_121);
    assert_eq!(overlay.state, OverlayState::Idle);
    assert!(overlay.apply(set(OverlayState::Error), 2_000));
    overlay.advance(2_801);
    assert_eq!(overlay.state, OverlayState::Idle);
    overlay.apply(set(OverlayState::Processing), 3_000);
    overlay.advance(99_000);
    assert_eq!(overlay.state, OverlayState::Processing);
    assert_eq!(overlay.frame_pause_ms(true), 16);
    assert_eq!(Overlay::new(0).frame_pause_ms(true), 160);
    assert_eq!(Overlay::new(0).frame_pause_ms(false), 16);
}

#[test]
fn overlay_is_centred_over_the_bottom() {
    assert_eq!(bottom_centre(AREA, 200, 60, 40), (860, 940));
    let narrow = Rect { left: -100, top: 0, right: 1, bottom: 50 };
    assert_eq!(bottom_centre(narrow, 200, 60, 0), (-149, -10));
}

#[test]
fn colours_are_swapped() {
    let rgba = [1, 2, 3, 4, 5, 6, 7, 8];
    let bgra = rgba_to_bgra(&rgba, 2);
    assert_eq!(bgra, vec![3, 2, 1, 4, 7, 6, 5, 8]);
    assert_eq!(rgba_to_bgra(&bgra, 2), rgba);
}

#[test]
fn paste_by_clipboard_or_by_keys() {
    let config = Config::default();
    assert_eq!(config.strategy, Strategy::Clipboard);
    assert!(matches!(paste("", &config), PastePlan::Nothing));
    assert!(matches!(paste("é", &config), PastePlan::Clipboard { units } if units == vec![0xE9, 0]));
    let typing = Config { strategy: Strategy::SendInput, ..config };
    let text = "🌏".repeat(40);
    match paste(&text, &typing) {
        PastePlan::Type { batches } => {
            let events = batches.concat();
            assert_eq!(events.len(), 160);
            assert_eq!(events[0], KeyInput::Unicode { unit: 0xD83C, up: false });
            assert_eq!(events[1], KeyInput::Unicode { unit: 0xD83C, up: true });
            assert!(batches.iter().all(|b| !b.is_empty() && b.len() <= 64));
        }
        other => panic!("expected Type, got {other:?}"),
    }
    assert_eq!(
        ctrl_v(),
        vec![
            KeyInput::Key { vk: 0x11, up: false },
            KeyInput::Key { vk: 0x56, up: false },
            KeyInput::Key { vk: 0x56, up: true },
            KeyInput::Key { vk: 0x11, up: true },
        ]
    );
}

#[test]
fn injection_must_be_complete() {
    assert!(check_injection(4, 4, true).is_ok());
    let err = check_injection(1, 4, true).unwrap_err();
    assert!(err.starts_with("SendInput injected 1/4 events") && err.contains("UIPI"));
    assert_eq!(check_injection(1, 4, false).unwrap_err(), "SendInput injected 1/4 events");
}

#[test]
fn clipboard_comes_back() {
    assert!(matches!(restore_clipboard(None), ClipboardRestore::Clear));
    assert!(matches!(restore_clipboard(Some("a")), ClipboardRestore::Write(u) if u == vec![97, 0]));
    assert_eq!(copy_to_clipboard("a"), vec![97, 0]);
    assert!(clipboard_busy(&Config::default()).starts_with("could not open clipboard after "));
}

#[test]
fn files_lie_in_the_data_directory() {
    let parts = |r: Result<Vec<String>, String>| r.unwrap().join("/");
    assert_eq!(parts(paths::app_data_dir(Some("D"))), "D/airtalk");
    assert_eq!(parts(paths::logs_dir(Some("D"))), "D/airtalk/logs");
    assert_eq!(parts(paths::config_file(Some("D"))), "D/airtalk/config.toml");
    assert_eq!(parts(paths::hotwords_file(Some("D"))), "D/airtalk/hotwords.txt");
    assert_eq!(parts(paths::prompt_file(Some("D"))), "D/airtalk/prompt.txt");
    assert_eq!(paths::config_file(None).unwrap_err(), "APPDATA env var not set");
}

fn metrics() -> Metrics {
    Metrics {
        width: 440,
        padding: 20,
        title_height: 24,
        title_gap: 8,
        line_height: 20,
        max_body_height: 200,
        button_width: 80,
        button_height: 32,
        close_size: 24,
        close_margin: 8,
        bottom_margin: 100,
    }
}

#[test]
fn popup_is_laid_out() {
    let l = layout(metrics(), 500, AREA);
    assert_eq!((l.x, l.height, l.text_height), (740, 324, 500));
    assert_eq!(l.y, 1040 - 324 - 100);
    assert_eq!(l.body, Rect { left: 20, top: 52, right: 420, bottom: 252 });
    assert_eq!(l.copy_button, Rect { left: 340, top: 272, right: 420, bottom: 304 });
    assert_eq!(l.close_button, Rect { left: 408, top: 8, right: 432, bottom: 32 });
    assert_eq!(layout(metrics(), 5, AREA).text_height, 20);
}

#[test]
fn popup_scrolls_and_closes() {
    let mut popup = Recovery::new();
    assert_eq!(popup.dismiss(), None);
    popup.present("text".into(), &layout(metrics(), 500, AREA));
    popup.wheel(-120, 20);
    assert_eq!(popup.scroll_offset, 40);
    popup.wheel(-119, 20);
    assert_eq!(popup.scroll_offset, 40);
    popup.wheel(i16::MIN, 20);
    assert_eq!(popup.scroll_offset, 300);
    assert_eq!(popup.text_rect(), Rect { left: 20, top: -248, right: 420, bottom: 252 });
    popup.wheel(i16::MAX, 20);
    assert_eq!(popup.scroll_offset, 0);
    assert_eq!(popup.scroll_bar_height(24), Some(80));
    assert_eq!(popup.scroll_bar_height(90), Some(90));
    let bar = Rect { left: 416, top: 62, right: 419, bottom: 142 };
    assert_eq!(popup.scroll_bar_rect(3, 80, 10), bar);
    let title = recovery::title_rect(metrics(), 440);
    assert_eq!(title, Rect { left: 20, top: 20, right: 420, bottom: 44 });
    assert_eq!(popup.click(350, 280), Click::Copy);
    assert_eq!(popup.click(410, 10), Click::Close);
    assert_eq!(popup.click(0, 0), Click::Nothing);
    let events = popup.copy_done(true);
    assert_eq!(events, vec![recovery::RecoveryEvent::Copied, recovery::RecoveryEvent::Dismissed]);
    assert!(popup.copy_done(false).is_empty());
}

#[test]
fn popup_commands() {
    assert!(matches!(recovery::RecoveryHandle.show("x".into()), Cmd::Show { text } if text == "x"));
    assert!(matches!(recovery::RecoveryHandle.hide_popup(), Cmd::Hide));
}

#[test]
fn one_settings_window_at_a_time() {
    let mut bridge = SlintBridge::new();
    assert!(matches!(bridge.open_settings(), Some(slint_bridge::Request::OpenSettings)));
    assert!(bridge.open_settings().is_none());
    bridge.settings_closed();
    assert!(bridge.open_settings().is_some());
    assert!(matches!(
        slint_bridge::RecoveryHandle.show("x".into()),
        slint_bridge::Request::ShowRecovery(t) if t == "x"
    ));
}

#[test]
fn window_outcomes() {
    assert!(matches!(settings_outcome(Ok(None)), SettingsEvent::Cancelled));
    assert!(matches!(settings_outcome(Err("e".into())), SettingsEvent::Failed(m) if m == "e"));
    assert_eq!(copy_outcome(true), slint_bridge::RecoveryEvent::Copied);
    assert_eq!(copy_outcome(false), slint_bridge::RecoveryEvent::Dismissed);
}

#[test]
fn popup_is_dragged_by_its_header() {
    assert_eq!(popup_position(AREA, 440, 300), (740, 600));
    assert!(drags(100, 0, 440, 96) && drags(100, 55, 440, 96));
    assert!(!drags(100, 56, 440, 96) && !drags(100, -1, 440, 96));
    assert!(drags(392, 10, 440, 96) && !drags(393, 10, 440, 96));
    assert!(drags(100, 111, 880, 192) && !drags(100, 112, 880, 192));
    assert!(drags(100, 55, 440, 48));
    assert_eq!(unpack_point(0x0002_0001), (1, 2));
    assert_eq!(unpack_point(0xFFFF_8000), (-32768, -1));
}

#[test]
fn only_one_instance() {
    assert!(acquired(Ok(()), false).is_ok());
    let err = acquired(Ok(()), true).unwrap_err();
    assert!(matches!(err, AcquireError::AlreadyRunning(_)));
    assert!(err.message().contains("already running"));
    let err = acquired(Err("denied".into()), true).unwrap_err();
    assert_eq!(err.message(), "CreateMutexW: denied");
}

/// A machine that a delivery runs on.
struct Machine {
    clipboard: Option<String>,
    /// How many tries to open the clipboard fail, in each access.
    busy: u32,
    failures: u32,
    injected: u32,
    slept: Vec<u64>,
    opened: u32,
}

impl Machine {
    fn new(clipboard: Option<&str>) -> Self {
        Machine {
            clipboard: clipboard.map(|t| t.to_string()),
            busy: 0,
            failures: 0,
            injected: 4,
            slept: vec![],
            opened: 0,
        }
    }

    fn carry_out(&mut self, mut run: PasteRun) -> Option<String> {
        let mut action = run.action();
        loop {
            let event = match action {
                PasteAction::Open => {
                    self.opened += 1;
                    let opened = self.failures == self.busy;
                    self.failures = if opened { 0 } else { self.failures + 1 };
                    PasteEvent::Opened(opened)
                }
                PasteAction::Pause(ms) => {
                    self.slept.push(ms);
                    PasteEvent::Paused
                }
                PasteAction::Read => PasteEvent::Text(self.clipboard.clone()),
                PasteAction::Write(units) => {
                    assert_eq!(units.last(), Some(&0));
                    let text = String::from_utf16(&units[..units.len() - 1]).unwrap();
                    self.clipboard = Some(text);
                    PasteEvent::Changed(None)
                }
                PasteAction::Clear => {
                    self.clipboard = None;
                    PasteEvent::Changed(None)
                }
                PasteAction::Inject(keys) => {
                    PasteEvent::Injected(self.injected.min(keys.len() as u32))
                }
                PasteAction::Finish(fault) => return fault,
            };
            action = run.next(event);
        }
    }
}

#[test]
fn deliveries_restore_the_clipboard() {
    for before in [Some("old"), None] {
        let mut m = Machine::new(before);
        assert_eq!(m.carry_out(PasteRun::start("new", Config::default())), None);
        assert_eq!(m.clipboard.as_deref(), before);
        assert_eq!((m.opened, m.slept), (3, vec![80]));

        let mut m = Machine::new(before);
        m.injected = 1;
        m.busy = 11;
        let fault = m.carry_out(PasteRun::start("new", Config::default())).unwrap();
        assert!(fault.starts_with("SendInput(Ctrl+V): SendInput injected 1/4 events"));
        assert_eq!(m.clipboard.as_deref(), before);
        assert_eq!((m.opened, m.slept.len()), (36, 34));
    }
}

#[test]
fn a_clipboard_that_stays_closed() {
    let mut m = Machine::new(Some("old"));
    m.busy = u32::MAX;
    assert_eq!(
        m.carry_out(PasteRun::start("new", Config::default())).as_deref(),
        Some("write our text to clipboard: could not open clipboard after 12 attempts")
    );
    assert_eq!((m.opened, m.slept), (24, vec![12; 24]));
    assert_eq!(m.clipboard.as_deref(), Some("old"));
    let never = Config { open_attempts: 0, ..Config::default() };
    let mut m = Machine::new(Some("old"));
    assert!(m.carry_out(PasteRun::start("new", never)).unwrap().ends_with("after 0 attempts"));
    assert_eq!(m.opened, 0);
}

#[test]
fn typing_and_nothing_leave_the_clipboard() {
    let typing = Config { strategy: Strategy::SendInput, ..Config::default() };
    let mut m = Machine::new(Some("old"));
    m.injected = 64;
    assert_eq!(m.carry_out(PasteRun::start(&"x".repeat(40), typing)), None);
    assert_eq!((m.opened, m.clipboard.as_deref()), (0, Some("old")));
    m.injected = 10;
    assert_eq!(
        m.carry_out(PasteRun::start(&"x".repeat(40), typing)).as_deref(),
        Some("SendInput injected 10/64 events")
    );
    assert_eq!(m.carry_out(PasteRun::start("", Config::default())), None);
    assert_eq!(m.opened, 0);
}

#[test]
fn copies_stay_on_the_clipboard() {
    let mut m = Machine::new(Some("old"));
    assert_eq!(m.carry_out(PasteRun::start_copy("kept")), None);
    assert_eq!(m.clipboard.as_deref(), Some("kept"));
    m.busy = u32::MAX;
    assert_eq!(
        m.carry_out(PasteRun::start_copy("x")).as_deref(),
        Some("could not open clipboard after 12 attempts")
    );
    let mut run = PasteRun::start_copy("x");
    run.next(PasteEvent::Paused);
    run.next(PasteEvent::Opened(true));
    assert!(matches!(
        run.next(PasteEvent::Changed(Some("denied".into()))),
        PasteAction::Finish(Some(what)) if what == "denied"
    ));
}

#[test]
fn layouts_must_fit() {
    assert!(metrics().can_lay_out(500, AREA));
    let huge = Metrics { padding: i32::MAX / 2, ..metrics() };
    assert!(!huge.can_lay_out(500, AREA));
    let far = Rect { left: 0, top: 0, right: i32::MAX, bottom: i32::MIN };
    assert!(!metrics().can_lay_out(500, far));
    assert!(can_place(AREA, 100, 100, 10) && !can_place(far, 100, 100, 10));
}
