use airtalk::ui::audio::DeviceChoice;
use airtalk::ui::autostart::{self, AutostartChange};
use airtalk::ui::device_pref;
use airtalk::ui::hotkey::{Mode, Trigger};
use airtalk::ui::settings::form::{
    device_options, form_request, initial_form, optional_secret, selected_device, InputDevice,
};
use airtalk::ui::settings::model::{
    audio_choice_from_config, config_to_device_choice, device_choice_to_config,
    hotkey_config_from_config, mode_from_index, mode_to_index, normalize_config,
    trigger_from_index, trigger_to_index, validate_config, validate_hotwords, AppConfig,
};
use airtalk::ui::settings::spawn::{build_spawn_config, KeySources};
use airtalk::ui::settings::storage::{
    load_config, load_snapshot, save_audio_choice, save_request, support_file, SaveRequest,
    SaveStep, Secret, SettingsSnapshot, SupportFile,
};
use airtalk::ui::settings::{MAINLAND_ASR_URL, MAINLAND_LLM_URL};

fn named(name: &str) -> DeviceChoice {
    DeviceChoice::Named(name.into())
}

fn snapshot() -> SettingsSnapshot {
    SettingsSnapshot {
        config: AppConfig::default(),
        asr_key_saved: true,
        llm_key_saved: false,
        autostart_enabled: true,
    }
}

fn request(config: AppConfig) -> SaveRequest {
    SaveRequest {
        config,
        new_asr_key: None,
        clear_asr_key: false,
        new_llm_key: None,
        clear_llm_key: false,
        autostart_enabled: false,
    }
}

#[test]
fn defaults() {
    let c = AppConfig::default();
    assert_eq!(c.asr.lang, "auto");
    assert_eq!(c.asr.base_url, MAINLAND_ASR_URL);
    assert_eq!(c.asr.hotwords_content, "");
    assert!(!c.llm.enabled && !c.audio.instant_record);
    assert_eq!(c.llm.base_url, MAINLAND_LLM_URL);
    assert_eq!(c.llm.model, "qwen-flash");
    assert_eq!(c.audio.input_device, "auto");
    assert_eq!((c.hotkey.trigger.as_str(), c.hotkey.mode.as_str()), ("right_alt", "combo"));
    assert!(validate_config(&c).is_ok());
}

#[test]
fn normalising_fills_and_trims() {
    let mut c = AppConfig::default();
    c.asr.lang = "  ".into();
    c.asr.base_url = " http://x ".into();
    c.llm.model = "\t".into();
    c.audio.input_device = "".into();
    c.asr.hotwords_content = " React \r\n Vite\r\n\r\n".into();
    c.hotkey.trigger = "f13".into();
    c.hotkey.mode = "HOLD".into();
    normalize_config(&mut c);
    assert_eq!(c.asr.lang, "auto");
    assert_eq!(c.asr.base_url, "http://x");
    assert_eq!(c.llm.model, "qwen-flash");
    assert_eq!(c.audio.input_device, "auto");
    assert_eq!(c.hotkey.trigger, "right_alt");
    assert_eq!(c.hotkey.mode, "combo");
    let once = c.asr.hotwords_content.clone();
    normalize_config(&mut c);
    assert_eq!(c.asr.hotwords_content, once);
    assert!(validate_config(&c).is_ok());
}

#[test]
fn validation_names_the_field() {
    let fault = |change: fn(&mut AppConfig)| {
        let mut c = AppConfig::default();
        c.llm.enabled = true;
        change(&mut c);
        validate_config(&c).unwrap_err()
    };
    assert!(fault(|c| c.asr.lang = " ".into()).contains("ASR language"));
    assert!(fault(|c| c.asr.base_url = "".into()).contains("ASR base URL"));
    assert!(fault(|c| c.asr.hotwords_content = "a!".into()).contains("'!'"));
    assert!(fault(|c| c.llm.base_url = "".into()).contains("LLM base URL"));
    assert!(fault(|c| c.llm.model = "".into()).contains("LLM model"));
    let mut off = AppConfig::default();
    off.llm.model = "".into();
    assert!(validate_config(&off).is_ok());
}

#[test]
fn places_and_names_match() {
    for i in 0..9 {
        assert_eq!(trigger_to_index(&trigger_from_index(i)), i);
    }
    for i in 0..3 {
        assert_eq!(mode_to_index(&mode_from_index(i)), i);
    }
    assert_eq!(trigger_from_index(9), "right_alt");
    assert_eq!(trigger_from_index(-1), "right_alt");
    assert_eq!(mode_from_index(3), "combo");
    assert_eq!((trigger_to_index("x"), mode_to_index("x")), (0, 0));
    assert_eq!(trigger_from_index(8), "caps_lock");
    assert_eq!((mode_from_index(1), mode_from_index(2)), ("hold".into(), "tap".into()));
}

#[test]
fn hotkey_comes_from_the_names() {
    let mut c = AppConfig::default();
    c.hotkey.trigger = "left_win".into();
    c.hotkey.mode = "tap".into();
    let h = hotkey_config_from_config(&c);
    assert_eq!((h.trigger, h.mode), (Trigger::LeftWin, Mode::Tap));
    c.hotkey.trigger = "?".into();
    c.hotkey.mode = "?".into();
    let h = hotkey_config_from_config(&c);
    assert_eq!((h.trigger, h.mode), (Trigger::RightAlt, Mode::Combo));
}

#[test]
fn device_choice_reads_back() {
    assert_eq!(config_to_device_choice(" Mic "), named("Mic"));
    assert_eq!(config_to_device_choice("auto"), DeviceChoice::Auto);
    assert_eq!(config_to_device_choice(" "), DeviceChoice::Auto);
    assert_eq!(device_choice_to_config(&DeviceChoice::Auto), "auto");
    for choice in [DeviceChoice::Auto, named("USB Mic")] {
        assert_eq!(config_to_device_choice(&device_choice_to_config(&choice)), choice);
        assert_eq!(device_pref::load(Some(&device_pref::save(&choice))), choice);
    }
    assert_eq!(device_pref::load(None), DeviceChoice::Auto);
    assert_eq!(audio_choice_from_config(&AppConfig::default()), DeviceChoice::Auto);
}

#[test]
fn snapshot_sees_keys_and_autostart() {
    let s = load_snapshot(None, Some("k".into()), None, Some(vec![97, 0]));
    assert!(s.asr_key_saved && !s.llm_key_saved && s.autostart_enabled);
    assert!(!load_snapshot(None, None, None, Some(vec![0])).autostart_enabled);
    let mut stored = AppConfig::default();
    stored.asr.lang = " en ".into();
    assert_eq!(load_config(Some(stored)).asr.lang, "en");
    assert_eq!(load_config(None).asr.lang, "auto");
}

#[test]
fn tidying_keeps_the_verdict() {
    let lines = ["  Rust  \r\nVerus\r\n\r\n", "\n\n a  b \n", "ok\r\r\nno/slash", "# x/y", "\t\n"];
    for line in lines {
        let mut config = AppConfig::default();
        config.asr.hotwords_content = line.into();
        let before = validate_hotwords(line).is_ok();
        normalize_config(&mut config);
        assert_eq!(validate_hotwords(&config.asr.hotwords_content).is_ok(), before, "{line:?}");
    }
}

#[test]
fn saving_goes_step_by_step() {
    let mut req = request(AppConfig::default());
    req.config.asr.hotwords_content = " React ".into();
    req.clear_asr_key = true;
    req.new_asr_key = Some("new".into());
    req.new_llm_key = Some("llm".into());
    req.autostart_enabled = true;
    let steps = save_request(req).unwrap();
    assert_eq!(steps.len(), 7);
    assert!(matches!(&steps[0], SaveStep::WriteConfig(c) if c.asr.hotwords_content == "React"));
    assert!(matches!(&steps[1], SaveStep::WriteHotwords(SupportFile::Contents(s)) if s == "React"));
    assert!(matches!(steps[2], SaveStep::RemovePrompt));
    assert!(matches!(steps[3], SaveStep::DeleteSecret(Secret::Asr)));
    assert!(matches!(&steps[4], SaveStep::StoreSecret(Secret::Asr, s) if s == "new"));
    assert!(matches!(&steps[5], SaveStep::StoreSecret(Secret::Llm, s) if s == "llm"));
    assert!(matches!(steps[6], SaveStep::SetAutostart(true)));
}

#[test]
fn saved_settings_load() {
    for (clear, new, had) in [
        (false, None, true),
        (true, None, true),
        (true, Some("new"), true),
        (false, Some("new"), false),
        (false, None, false),
    ] {
        let mut req = request(AppConfig::default());
        req.config.asr.lang = " en ".into();
        req.clear_asr_key = clear;
        req.new_asr_key = new.map(String::from);
        req.autostart_enabled = true;
        let mut config = None;
        let mut key = if had { Some("old".to_string()) } else { None };
        let mut value = None;
        for step in save_request(req).unwrap() {
            match step {
                SaveStep::WriteConfig(c) => config = Some(c),
                SaveStep::DeleteSecret(Secret::Asr) => key = None,
                SaveStep::StoreSecret(Secret::Asr, k) => key = Some(k),
                SaveStep::SetAutostart(on) => match autostart::set(on, "C:\\airtalk.exe") {
                    AutostartChange::Write(units) => value = Some(units),
                    AutostartChange::Delete => value = None,
                },
                _ => (),
            }
        }
        let loaded = load_snapshot(config, key, None, value);
        assert_eq!(loaded.config.asr.lang, "en");
        assert_eq!(loaded.asr_key_saved, new.is_some() || (!clear && had));
        assert!(!loaded.llm_key_saved && loaded.autostart_enabled);
    }
}

#[test]
fn refused_settings_are_not_saved() {
    let mut req = request(AppConfig::default());
    req.config.asr.hotwords_content = "a/b".into();
    assert!(save_request(req).unwrap_err().contains("'/'"));
}

#[test]
fn device_choice_is_saved_alone() {
    let mut stored = AppConfig::default();
    stored.asr.lang = "zh".into();
    let steps = save_audio_choice(Some(stored), &named("Mic"));
    assert!(matches!(
        &steps[0],
        SaveStep::WriteConfig(c) if c.audio.input_device == "Mic" && c.asr.lang == "zh"
    ));
    assert!(matches!(steps[1], SaveStep::WriteHotwords(SupportFile::Absent)));
    assert!(matches!(support_file(" \n"), SupportFile::Absent));
}

#[test]
fn secrets_have_their_names() {
    assert_eq!(Secret::Asr.target(), "airtalk/asr_api_key");
    assert_eq!(Secret::Llm.target(), "airtalk/llm_api_key");
}

fn keys(stored: Option<&str>, environment: Option<&str>) -> KeySources {
    KeySources {
        stored: stored.map(String::from),
        environment: environment.map(String::from),
    }
}

#[test]
fn engine_is_started_with_the_settings() {
    let mut c = AppConfig::default();
    c.asr.base_url = "http://asr".into();
    let spawn = build_spawn_config(
        "core.exe".into(),
        &c,
        Some("words.txt".into()),
        keys(Some("stored"), Some("env")),
        keys(None, None),
    )
    .unwrap();
    assert_eq!(spawn.exe, "core.exe");
    assert_eq!(
        spawn.args,
        vec![
            "--asr-base-url", "http://asr", "--asr-lang", "auto", "--hotwords-file", "words.txt",
            "--no-llm"
        ]
    );
    assert_eq!(spawn.env, vec![("AIRTALK_ASR_API_KEY".to_string(), "stored".to_string())]);

    c.llm.enabled = true;
    let build = |asr, llm| build_spawn_config("e".into(), &c, None, asr, llm);
    let spawn = build(keys(None, Some("env")), keys(Some("l"), None)).unwrap();
    assert_eq!(spawn.args.last().unwrap(), "qwen-flash");
    assert_eq!(spawn.env[0].1, "env");
    assert_eq!(spawn.env[1], ("AIRTALK_LLM_API_KEY".to_string(), "l".to_string()));
    let err = build(keys(None, None), keys(None, None)).unwrap_err();
    assert_eq!(err, "ASR API key is not configured");
    let err = build(keys(Some("a"), None), keys(None, None)).unwrap_err();
    assert_eq!(err, "LLM API key is not configured");
}

fn devices() -> Vec<InputDevice> {
    ["A", "B"]
        .iter()
        .map(|n| InputDevice { name: n.to_string(), label: format!("Mic {n}") })
        .collect()
}

#[test]
fn device_rows_mark_missing_ones() {
    let mut c = AppConfig::default();
    let (rows, at) = device_options(&c, &devices(), Some("Mic A"), "");
    assert_eq!(rows, vec!["Auto (Mic A)", "Mic A", "Mic B"]);
    assert_eq!(at, 0);
    c.audio.input_device = "B".into();
    assert_eq!(device_options(&c, &devices(), None, "Mic B").1, 2);
    c.audio.input_device = "C".into();
    let (rows, at) = device_options(&c, &devices(), None, "Mic C");
    assert_eq!(rows, vec!["Auto (no device)", "Mic C [inactive]", "Mic A", "Mic B"]);
    assert_eq!(at, 1);
}

#[test]
fn untouched_device_is_kept() {
    let mut c = AppConfig::default();
    for stored in ["auto", "A", "B", "C"] {
        c.audio.input_device = stored.into();
        let (_, at) = device_options(&c, &devices(), None, stored);
        assert_eq!(selected_device(at, &c, &devices()), stored);
    }
    assert_eq!(selected_device(3, &c, &devices()), "B");
    assert_eq!(selected_device(9, &c, &devices()), "C");
    assert_eq!(selected_device(-1, &c, &devices()), "auto");
}

#[test]
fn form_starts_from_the_snapshot() {
    let mut s = snapshot();
    s.config.llm.base_url = "https://dashscope-intl.aliyuncs.com/v1".into();
    s.config.hotkey.mode = "tap".into();
    let form = initial_form(&s, 2);
    assert_eq!((form.device_index, form.region_index), (2, 1));
    assert_eq!((form.hotkey_trigger_index, form.hotkey_mode_index), (0, 2));
    assert!(form.autostart_enabled && form.asr_key_input.is_empty());
}

#[test]
fn form_gives_a_request() {
    let s = snapshot();
    let mut form = initial_form(&s, 1);
    form.asr_lang = " en ".into();
    form.asr_key_input = " typed ".into();
    form.llm_key_input = " typed ".into();
    form.llm_key_pending_clear = true;
    let req = form_request(form, &s, &devices());
    assert_eq!(req.config.asr.lang, "en");
    assert_eq!(req.config.audio.input_device, "A");
    // A saved key is not overwritten unless it is cleared first.
    assert_eq!(req.new_asr_key, None);
    assert_eq!(req.new_llm_key.as_deref(), Some("typed"));
    assert!(!req.clear_asr_key && req.clear_llm_key && req.autostart_enabled);
}

#[test]
fn secrets_are_trimmed() {
    assert_eq!(optional_secret("  "), None);
    assert_eq!(optional_secret(" k "), Some("k".to_string()));
}
