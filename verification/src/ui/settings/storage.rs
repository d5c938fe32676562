//! Loading and saving: what the stored settings mean, and what saving does.
//!
//! Reading and writing files, credentials and the registry are the caller's.

use crate::text;
use crate::ui::audio::DeviceChoice;
use crate::ui::autostart;
use crate::ui::settings::{ASR_CRED_TARGET, LLM_CRED_TARGET};
use crate::ui::settings::model::{
    self, device_choice_to_config, normalize_config, validate_config, AppConfig, ConfigView,
};
use crate::ui::wide;
use vstd::prelude::*;

verus! {

/// The settings as they are in force.
#[derive(Debug, Clone)]
pub struct SettingsSnapshot {
    pub config: AppConfig,
    pub asr_key_saved: bool,
    pub llm_key_saved: bool,
    pub autostart_enabled: bool,
}

/// What is to be saved.
#[derive(Debug, Clone)]
pub struct SaveRequest {
    pub config: AppConfig,
    pub new_asr_key: Option<String>,
    pub clear_asr_key: bool,
    pub new_llm_key: Option<String>,
    pub clear_llm_key: bool,
    pub autostart_enabled: bool,
}

/// The settings in force when a configuration file holds `stored`: its normal
/// form, or the defaults if there is no file.
pub open spec fn in_force(stored: Option<ConfigView>) -> ConfigView {
    match stored {
        Some(config) => model::normalized(config),
        None => model::default_config(),
    }
}

/// The settings that a decoded configuration file puts in force.
pub open spec fn loaded(stored: Option<AppConfig>) -> ConfigView {
    in_force(
        match stored {
            Some(config) => Some(config@),
            None => None,
        },
    )
}

/// Whether a registry value turns autostart on.
pub open spec fn turns_on(value: Option<Seq<u16>>) -> bool {
    value matches Some(units) && wide::without_zeros(units).len() > 0
}

/// The settings in force, from the decoded configuration file.
pub fn load_config(stored: Option<AppConfig>) -> (r: AppConfig)
    ensures
        r@ == loaded(stored),
{
    match stored {
        Some(config) => {
            let mut config = config;
            normalize_config(&mut config);
            config
        },
        None => AppConfig::default(),
    }
}

/// The settings in force, from the decoded configuration file, the stored keys
/// and the autostart value.
pub fn load_snapshot(
    stored: Option<AppConfig>,
    asr_key: Option<String>,
    llm_key: Option<String>,
    autostart_value: Option<Vec<u16>>,
) -> (r: SettingsSnapshot)
    ensures
        r.config@ == loaded(stored),
        r.asr_key_saved == asr_key is Some,
        r.llm_key_saved == llm_key is Some,
        r.autostart_enabled == turns_on(
            match autostart_value {
                Some(units) => Some(units@),
                None => None,
            },
        ),
{
    SettingsSnapshot {
        config: load_config(stored),
        asr_key_saved: asr_key.is_some(),
        llm_key_saved: llm_key.is_some(),
        autostart_enabled: autostart::is_enabled(autostart_value),
    }
}

/// A stored key.
#[derive(Debug, Clone, Copy, PartialEq, Eq, Structural)]
pub enum Secret {
    Asr,
    Llm,
}

impl Secret {
    /// The name under which the key is kept.
    pub fn target(self) -> (r: &'static str)
        ensures
            r@ == (match self {
                Secret::Asr => ASR_CRED_TARGET@,
                Secret::Llm => LLM_CRED_TARGET@,
            }),
    {
        match self {
            Secret::Asr => ASR_CRED_TARGET,
            Secret::Llm => LLM_CRED_TARGET,
        }
    }
}

/// What becomes of a file that is only there when it has contents.
#[derive(Debug)]
pub enum SupportFile {
    Absent,
    Contents(String),
}

/// The contents of a support file, or none if there would be only whitespace.
pub open spec fn support_contents(raw: Seq<char>) -> Option<Seq<char>> {
    if text::trimmed(raw).len() == 0 {
        None
    } else {
        Some(text::trimmed(raw))
    }
}

impl View for SupportFile {
    type V = Option<Seq<char>>;

    open spec fn view(&self) -> Option<Seq<char>> {
        match *self {
            SupportFile::Absent => None,
            SupportFile::Contents(s) => Some(s@),
        }
    }
}

pub fn support_file(raw: &str) -> (r: SupportFile)
    ensures
        r@ == support_contents(raw@),
{
    let content = text::trim(raw);
    if content.as_str().is_empty() {
        SupportFile::Absent
    } else {
        SupportFile::Contents(content)
    }
}

/// One step of saving.
#[derive(Debug)]
pub enum SaveStep {
    /// Write the configuration file.
    WriteConfig(AppConfig),
    /// Write or remove the hotword file.
    WriteHotwords(SupportFile),
    /// Remove a prompt file that an earlier version left.
    RemovePrompt,
    DeleteSecret(Secret),
    StoreSecret(Secret, String),
    SetAutostart(bool),
}

/// A step with its texts as characters.
pub enum StepView {
    WriteConfig(ConfigView),
    WriteHotwords(Option<Seq<char>>),
    RemovePrompt,
    DeleteSecret(Secret),
    StoreSecret(Secret, Seq<char>),
    SetAutostart(bool),
}

impl View for SaveStep {
    type V = StepView;

    open spec fn view(&self) -> StepView {
        match *self {
            SaveStep::WriteConfig(config) => StepView::WriteConfig(config@),
            SaveStep::WriteHotwords(file) => StepView::WriteHotwords(file@),
            SaveStep::RemovePrompt => StepView::RemovePrompt,
            SaveStep::DeleteSecret(secret) => StepView::DeleteSecret(secret),
            SaveStep::StoreSecret(secret, value) => StepView::StoreSecret(secret, value@),
            SaveStep::SetAutostart(on) => StepView::SetAutostart(on),
        }
    }
}

pub open spec fn step_views(steps: Seq<SaveStep>) -> Seq<StepView> {
    steps.map_values(|s: SaveStep| s@)
}

/// The steps that write the settings.
pub open spec fn config_steps(config: ConfigView) -> Seq<StepView> {
    seq![
        StepView::WriteConfig(config),
        StepView::WriteHotwords(support_contents(config.hotwords)),
        StepView::RemovePrompt,
    ]
}

/// The steps for one key: an old one goes before a new one comes.
pub open spec fn secret_steps(secret: Secret, clear: bool, value: Option<String>) -> Seq<StepView> {
    let cleared = if clear {
        seq![StepView::DeleteSecret(secret)]
    } else {
        seq![]
    };
    match value {
        Some(v) => cleared.push(StepView::StoreSecret(secret, v@)),
        None => cleared,
    }
}

/// Everything that saving does, in order.
pub open spec fn save_steps(req: SaveRequest) -> Seq<StepView> {
    config_steps(model::normalized(req.config@)) + secret_steps(
        Secret::Asr,
        req.clear_asr_key,
        req.new_asr_key,
    ) + secret_steps(Secret::Llm, req.clear_llm_key, req.new_llm_key) + seq![
        StepView::SetAutostart(req.autostart_enabled),
    ]
}

/// The steps that write the settings.
pub fn save_config(config: AppConfig) -> (r: Vec<SaveStep>)
    ensures
        step_views(r@) == config_steps(config@),
{
    let hotwords = support_file(config.asr.hotwords_content.as_str());
    let mut steps: Vec<SaveStep> = Vec::new();
    steps.push(SaveStep::WriteConfig(config));
    steps.push(SaveStep::WriteHotwords(hotwords));
    steps.push(SaveStep::RemovePrompt);
    assert(step_views(steps@) =~= config_steps(config@));
    steps
}

fn push_secret_steps(steps: &mut Vec<SaveStep>, secret: Secret, clear: bool, value: Option<String>)
    ensures
        step_views(final(steps)@) == step_views(old(steps)@) + secret_steps(secret, clear, value),
{
    if clear {
        steps.push(SaveStep::DeleteSecret(secret));
    }
    if let Some(v) = value {
        steps.push(SaveStep::StoreSecret(secret, v));
    }
    assert(step_views(steps@) =~= step_views(old(steps)@) + secret_steps(secret, clear, value));
}

/// What saving does. Settings that are refused save nothing at all.
pub fn save_request(req: SaveRequest) -> (r: Result<Vec<SaveStep>, String>)
    ensures
        match model::config_fault(model::normalized(req.config@)) {
            Some(what) => r matches Err(got) && got@ == what,
            None => r matches Ok(steps) && step_views(steps@) == save_steps(req),
        },
{
    let mut config = req.config;
    normalize_config(&mut config);
    match validate_config(&config) {
        Ok(_) => {},
        Err(e) => {
            return Err(e);
        },
    }
    let mut steps = save_config(config);
    push_secret_steps(&mut steps, Secret::Asr, req.clear_asr_key, req.new_asr_key);
    push_secret_steps(&mut steps, Secret::Llm, req.clear_llm_key, req.new_llm_key);
    let ghost before = step_views(steps@);
    steps.push(SaveStep::SetAutostart(req.autostart_enabled));
    assert(step_views(steps@) =~= before + seq![StepView::SetAutostart(req.autostart_enabled)]);
    Ok(steps)
}

/// What saving a choice of microphone does: the settings in force with that
/// device are written.
pub fn save_audio_choice(stored: Option<AppConfig>, choice: &DeviceChoice) -> (r: Vec<SaveStep>)
    ensures
        step_views(r@) == config_steps(
            (ConfigView { input_device: model::stored_choice(choice@), ..loaded(stored) }),
        ),
{
    let mut config = load_config(stored);
    let ghost before = config@;
    config.audio.input_device = device_choice_to_config(choice);
    assert(config@ =~= (ConfigView { input_device: model::stored_choice(choice@), ..before }));
    save_config(config)
}

// ─── Laws ──────────────────────────────────────────────────────────────

/// The model's steps are those of saving, in order and one for one.
pub proof fn law_steps_are_modelled_one_for_one(steps: Seq<SaveStep>, i: int)
    requires
        0 <= i < steps.len(),
    ensures
        step_views(steps).len() == steps.len(),
        match steps[i] {
            SaveStep::WriteConfig(config) => step_views(steps)[i] == StepView::WriteConfig(config@),
            SaveStep::WriteHotwords(SupportFile::Absent) => step_views(steps)[i]
                == StepView::WriteHotwords(None),
            SaveStep::WriteHotwords(SupportFile::Contents(s)) => step_views(steps)[i]
                == StepView::WriteHotwords(Some(s@)),
            SaveStep::RemovePrompt => step_views(steps)[i] is RemovePrompt,
            SaveStep::DeleteSecret(secret) => step_views(steps)[i] == StepView::DeleteSecret(
                secret,
            ),
            SaveStep::StoreSecret(secret, value) => step_views(steps)[i] == StepView::StoreSecret(
                secret,
                value@,
            ),
            SaveStep::SetAutostart(on) => step_views(steps)[i] == StepView::SetAutostart(on),
        },
{
}

/// What loads is the file in its normal form, or the defaults without a file.
pub proof fn law_what_loads_is_normal(config: AppConfig)
    ensures
        loaded(Some(config)) == model::normalized(config@),
        loaded(None) == model::default_config(),
{
}

} // verus!
