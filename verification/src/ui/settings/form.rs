//! The settings window: what it shows, and what its contents mean when the user
//! saves.

use crate::text;
use crate::ui::audio::DeviceChoice;
use crate::ui::settings::model::{
    self, audio_choice_from_config, mode_from_index, mode_to_index, trigger_from_index,
    trigger_to_index, AppConfig, AsrConfig, AudioConfig, ConfigView, HotkeyConfig, LlmConfig,
    AUTO_DEVICE,
};
use crate::ui::settings::storage::{SaveRequest, SettingsSnapshot};
use vstd::prelude::*;

verus! {

/// How the settings window ended.
#[derive(Debug)]
pub enum SettingsEvent {
    Applied(SettingsSnapshot),
    Cancelled,
    Failed(String),
}

// ─── Devices ───────────────────────────────────────────────────────────

/// An input device: the name by which it is opened, and the one that is shown.
#[derive(Debug, Clone)]
pub struct InputDevice {
    pub name: String,
    pub label: String,
}

/// The names of the devices.
pub open spec fn names(devices: Seq<InputDevice>) -> Seq<Seq<char>> {
    devices.map_values(|d: InputDevice| d.name@)
}

/// The place of the first device with that name.
pub open spec fn place_of(devices: Seq<InputDevice>, name: Seq<char>) -> Option<int>
    decreases devices.len(),
{
    if devices.len() == 0 {
        None
    } else if devices.first().name@ == name {
        Some(0)
    } else {
        match place_of(devices.drop_first(), name) {
            Some(i) => Some(i + 1),
            None => None,
        }
    }
}

fn find_device(devices: &[InputDevice], name: &str) -> (r: Option<usize>)
    ensures
        (match r {
            Some(i) => Some(i as int),
            None => None,
        }) == place_of(devices@, name@),
        r matches Some(i) ==> i < devices@.len() && devices@[i as int].name@ == name@,
{
    let mut i: usize = 0;
    assert(devices@.skip(0) =~= devices@);
    while i < devices.len()
        invariant
            i <= devices@.len(),
            place_of(devices@, name@) == (match place_of(devices@.skip(i as int), name@) {
                Some(k) => Some(k + i),
                None => None,
            }),
        decreases devices@.len() - i,
    {
        assert(devices@.skip(i as int).drop_first() =~= devices@.skip(i + 1));
        if text::same(devices[i].name.as_str(), name) {
            return Some(i);
        }
        i += 1;
    }
    None
}

/// Whether the chosen device is not among the devices.
pub open spec fn missing(devices: Seq<InputDevice>, choice: Option<Seq<char>>) -> bool {
    choice matches Some(name) && place_of(devices, name) is None
}

/// The rows of the device list: the default with the device it stands for, then
/// the chosen device if it is not connected, then the devices.
pub open spec fn device_rows(
    devices: Seq<InputDevice>,
    default_label: Option<Seq<char>>,
    choice: Option<Seq<char>>,
    choice_label: Seq<char>,
) -> Seq<Seq<char>> {
    let auto_row = match default_label {
        Some(label) => "Auto ("@ + label + ")"@,
        None => "Auto (no device)"@,
    };
    let inactive = if missing(devices, choice) {
        seq![choice_label + " [inactive]"@]
    } else {
        seq![]
    };
    seq![auto_row] + inactive + devices.map_values(|d: InputDevice| d.label@)
}

/// The row that shows the choice.
pub open spec fn selected_row(devices: Seq<InputDevice>, choice: Option<Seq<char>>) -> int {
    match choice {
        None => 0,
        Some(name) => match place_of(devices, name) {
            Some(i) => i + 1,
            None => 1,
        },
    }
}

/// Builds the device list. `choice_label` is how the chosen device is shown.
pub fn device_options(
    config: &AppConfig,
    devices: &[InputDevice],
    default_label: Option<&str>,
    choice_label: &str,
) -> (r: (Vec<String>, i32))
    requires
        devices@.len() < i32::MAX,
    ensures
        text::texts(r.0@) == device_rows(
            devices@,
            match default_label {
                Some(label) => Some(label@),
                None => None,
            },
            model::choice_of(config@.input_device),
            choice_label@,
        ),
        r.1 == selected_row(devices@, model::choice_of(config@.input_device)),
{
    let choice = audio_choice_from_config(config);
    let place = match &choice {
        DeviceChoice::Named(name) => find_device(devices, name.as_str()),
        DeviceChoice::Auto => None,
    };
    let named = match &choice {
        DeviceChoice::Named(_) => true,
        DeviceChoice::Auto => false,
    };
    let preferred_missing = named && place.is_none();

    let mut options: Vec<String> = Vec::new();
    options.push(
        match default_label {
            Some(label) => "Auto (".to_owned().concat(label).concat(")"),
            None => "Auto (no device)".to_owned(),
        },
    );
    if preferred_missing {
        options.push(choice_label.to_owned().concat(" [inactive]"));
    }
    let ghost head = text::texts(options@);
    let ghost labels = devices@.map_values(|d: InputDevice| d.label@);
    let mut i: usize = 0;
    assert(head + labels.take(0) =~= head);
    while i < devices.len()
        invariant
            i <= devices@.len(),
            labels == devices@.map_values(|d: InputDevice| d.label@),
            text::texts(options@) == head + labels.take(i as int),
        decreases devices@.len() - i,
    {
        let ghost before = text::texts(options@);
        options.push(devices[i].label.clone());
        assert(text::texts(options@) =~= before.push(labels[i as int]));
        assert(head + labels.take(i + 1) =~= before.push(labels[i as int]));
        i += 1;
    }
    assert(labels.take(labels.len() as int) =~= labels);
    let ghost wanted = device_rows(
        devices@,
        match default_label {
            Some(label) => Some(label@),
            None => None,
        },
        choice@,
        choice_label@,
    );
    assert(text::texts(options@) =~= wanted);
    let selected: i32 = if !named {
        0
    } else {
        match place {
            Some(i) => i as i32 + 1,
            None => 1,
        }
    };
    (options, selected)
}

/// The device that a row of the list stands for. Rows behind the list keep what
/// is stored.
pub open spec fn row_device(index: int, config: ConfigView, devices: Seq<InputDevice>) -> Seq<char> {
    let choice = model::choice_of(config.input_device);
    let first = if missing(devices, choice) {
        2int
    } else {
        1
    };
    if index <= 0 {
        AUTO_DEVICE@
    } else if missing(devices, choice) && index == 1 {
        choice->0
    } else if index - first < devices.len() {
        devices[index - first].name@
    } else {
        config.input_device
    }
}

/// The device that the selected row stands for.
pub fn selected_device(index: i32, config: &AppConfig, devices: &[InputDevice]) -> (r: String)
    ensures
        r@ == row_device(index as int, config@, devices@),
{
    if index <= 0 {
        return AUTO_DEVICE.to_owned();
    }
    let mut first: i32 = 1;
    if let DeviceChoice::Named(name) = audio_choice_from_config(config) {
        if find_device(devices, name.as_str()).is_none() {
            if index == 1 {
                return name;
            }
            first = 2;
        }
    }
    let place: usize = (index - first) as usize;
    if place < devices.len() {
        devices[place].name.clone()
    } else {
        config.audio.input_device.clone()
    }
}

/// Saving without touching the device list keeps the choice, connected or not.
pub proof fn law_untouched_device_is_kept(config: ConfigView, devices: Seq<InputDevice>)
    ensures
        model::choice_of(config.input_device) matches Some(name) ==> row_device(
            selected_row(devices, model::choice_of(config.input_device)),
            config,
            devices,
        ) == name,
        model::choice_of(config.input_device) is None ==> row_device(
            selected_row(devices, model::choice_of(config.input_device)),
            config,
            devices,
        ) == AUTO_DEVICE@,
{
    if let Some(name) = model::choice_of(config.input_device) {
        lemma_place_is_named(devices, name);
    }
}

proof fn lemma_place_is_named(devices: Seq<InputDevice>, name: Seq<char>)
    ensures
        place_of(devices, name) matches Some(i) ==> 0 <= i < devices.len() && devices[i].name@
            == name,
    decreases devices.len(),
{
    if devices.len() > 0 && devices.first().name@ != name {
        lemma_place_is_named(devices.drop_first(), name);
    }
}

// ─── The form ──────────────────────────────────────────────────────────

/// The contents of the window.
#[derive(Debug)]
pub struct SettingsForm {
    pub device_index: i32,
    pub instant_record: bool,
    pub autostart_enabled: bool,
    pub asr_lang: String,
    pub asr_base_url: String,
    pub asr_hotwords: String,
    /// 0 for mainland China, 1 for the international endpoints.
    pub region_index: i32,
    pub llm_enabled: bool,
    pub llm_base_url: String,
    pub llm_model: String,
    /// What was typed as a key.
    pub asr_key_input: String,
    pub asr_key_pending_clear: bool,
    pub llm_key_input: String,
    pub llm_key_pending_clear: bool,
    pub hotkey_trigger_index: i32,
    pub hotkey_mode_index: i32,
}

/// The contents of the window when it opens. The region is guessed from the
/// cleanup endpoint.
pub fn initial_form(snapshot: &SettingsSnapshot, device_index: i32) -> (r: SettingsForm)
    ensures
        r.device_index == device_index,
        r.instant_record == snapshot.config@.instant_record,
        r.autostart_enabled == snapshot.autostart_enabled,
        r.asr_lang@ == snapshot.config@.lang,
        r.asr_base_url@ == snapshot.config@.asr_url,
        r.asr_hotwords@ == snapshot.config@.hotwords,
        r.region_index == (if text::occurs(snapshot.config@.llm_url, "dashscope-intl"@) {
            1int
        } else {
            0
        }),
        r.llm_enabled == snapshot.config@.llm_enabled,
        r.llm_base_url@ == snapshot.config@.llm_url,
        r.llm_model@ == snapshot.config@.llm_model,
        r.asr_key_input@.len() == 0,
        r.llm_key_input@.len() == 0,
        !r.asr_key_pending_clear,
        !r.llm_key_pending_clear,
        r.hotkey_trigger_index as int == (match model::trigger_place(snapshot.config@.trigger) {
            Some(i) => i,
            None => 0,
        }),
        r.hotkey_mode_index as int == (match model::mode_place(snapshot.config@.mode) {
            Some(i) => i,
            None => 0,
        }),
{
    let config = &snapshot.config;
    SettingsForm {
        device_index,
        instant_record: config.audio.instant_record,
        autostart_enabled: snapshot.autostart_enabled,
        asr_lang: config.asr.lang.clone(),
        asr_base_url: config.asr.base_url.clone(),
        asr_hotwords: config.asr.hotwords_content.clone(),
        region_index: if text::contains(config.llm.base_url.as_str(), "dashscope-intl") {
            1
        } else {
            0
        },
        llm_enabled: config.llm.enabled,
        llm_base_url: config.llm.base_url.clone(),
        llm_model: config.llm.model.clone(),
        asr_key_input: String::new(),
        asr_key_pending_clear: false,
        llm_key_input: String::new(),
        llm_key_pending_clear: false,
        hotkey_trigger_index: trigger_to_index(config.hotkey.trigger.as_str()),
        hotkey_mode_index: mode_to_index(config.hotkey.mode.as_str()),
    }
}

/// A key that was typed, without whitespace around it. Nothing typed is none.
pub open spec fn typed_key(raw: Seq<char>) -> Option<Seq<char>> {
    if text::trimmed(raw).len() == 0 {
        None
    } else {
        Some(text::trimmed(raw))
    }
}

pub fn optional_secret(raw: &str) -> (r: Option<String>)
    ensures
        (match r {
            Some(k) => Some(k@),
            None => None,
        }) == typed_key(raw@),
{
    let trimmed = text::trim(raw);
    if trimmed.as_str().is_empty() {
        None
    } else {
        Some(trimmed)
    }
}

/// The new key that the window asks for. A field whose key is saved and not
/// marked for removal was locked, and what it still holds does not count.
pub open spec fn entered_key(saved: bool, pending_clear: bool, input: Seq<char>) -> Option<
    Seq<char>,
> {
    if saved && !pending_clear {
        None
    } else {
        typed_key(input)
    }
}

fn enter_key(saved: bool, pending_clear: bool, input: &str) -> (r: Option<String>)
    ensures
        (match r {
            Some(k) => Some(k@),
            None => None,
        }) == entered_key(saved, pending_clear, input@),
{
    if saved && !pending_clear {
        None
    } else {
        optional_secret(input)
    }
}

/// The settings that the window asks for.
pub open spec fn form_config(form: SettingsForm, config: ConfigView, devices: Seq<InputDevice>) -> ConfigView {
    ConfigView {
        lang: text::trimmed(form.asr_lang@),
        hotwords: form.asr_hotwords@,
        asr_url: text::trimmed(form.asr_base_url@),
        llm_enabled: form.llm_enabled,
        llm_url: text::trimmed(form.llm_base_url@),
        llm_model: text::trimmed(form.llm_model@),
        input_device: row_device(form.device_index as int, config, devices),
        instant_record: form.instant_record,
        trigger: model::trigger_name_at(form.hotkey_trigger_index as int),
        mode: model::mode_name_at(form.hotkey_mode_index as int),
    }
}

/// What saving the window's contents asks for.
pub fn form_request(form: SettingsForm, snapshot: &SettingsSnapshot, devices: &[InputDevice]) -> (r:
    SaveRequest)
    ensures
        r.config@ == form_config(form, snapshot.config@, devices@),
        (match r.new_asr_key {
            Some(k) => Some(k@),
            None => None,
        }) == entered_key(
            snapshot.asr_key_saved,
            form.asr_key_pending_clear,
            form.asr_key_input@,
        ),
        r.clear_asr_key == form.asr_key_pending_clear,
        (match r.new_llm_key {
            Some(k) => Some(k@),
            None => None,
        }) == entered_key(
            snapshot.llm_key_saved,
            form.llm_key_pending_clear,
            form.llm_key_input@,
        ),
        r.clear_llm_key == form.llm_key_pending_clear,
        r.autostart_enabled == form.autostart_enabled,
{
    let config = AppConfig {
        asr: AsrConfig {
            lang: text::trim(form.asr_lang.as_str()),
            hotwords_content: form.asr_hotwords,
            base_url: text::trim(form.asr_base_url.as_str()),
        },
        llm: LlmConfig {
            enabled: form.llm_enabled,
            base_url: text::trim(form.llm_base_url.as_str()),
            model: text::trim(form.llm_model.as_str()),
        },
        audio: AudioConfig {
            input_device: selected_device(form.device_index, &snapshot.config, devices),
            instant_record: form.instant_record,
        },
        hotkey: HotkeyConfig {
            trigger: trigger_from_index(form.hotkey_trigger_index),
            mode: mode_from_index(form.hotkey_mode_index),
        },
    };
    SaveRequest {
        config,
        new_asr_key: enter_key(
            snapshot.asr_key_saved,
            form.asr_key_pending_clear,
            form.asr_key_input.as_str(),
        ),
        clear_asr_key: form.asr_key_pending_clear,
        new_llm_key: enter_key(
            snapshot.llm_key_saved,
            form.llm_key_pending_clear,
            form.llm_key_input.as_str(),
        ),
        clear_llm_key: form.llm_key_pending_clear,
        autostart_enabled: form.autostart_enabled,
    }
}

// ─── Laws ──────────────────────────────────────────────────────────────

/// A row stands for the device that it shows: the first row for the default, a
/// row with a device's label for that device, and the row of a device that is not
/// connected for the stored choice. There are no other rows.
pub proof fn law_a_row_stands_for_what_it_shows(
    config: ConfigView,
    devices: Seq<InputDevice>,
    default_label: Option<Seq<char>>,
    choice_label: Seq<char>,
    i: int,
)
    ensures
        ({
            let choice = model::choice_of(config.input_device);
            let rows = device_rows(devices, default_label, choice, choice_label);
            let gone = choice is Some && forall|k: int|
                0 <= k < devices.len() ==> (#[trigger] devices[k]).name@ != choice->0;
            let first = if gone {
                2int
            } else {
                1
            };
            &&& rows.len() == first + devices.len()
            &&& rows[0] == (match default_label {
                Some(label) => "Auto ("@ + label + ")"@,
                None => "Auto (no device)"@,
            })
            &&& row_device(0, config, devices) == "auto"@
            &&& gone ==> rows[1] == choice_label + " [inactive]"@ && row_device(1, config, devices)
                == choice->0
            &&& 0 <= i < devices.len() ==> rows[first + i] == devices[i].label@ && row_device(
                first + i,
                config,
                devices,
            ) == devices[i].name@
            &&& i >= first + devices.len() ==> row_device(i, config, devices)
                == config.input_device
            &&& i < 0 ==> row_device(i, config, devices) == "auto"@
        }),
{
    let choice = model::choice_of(config.input_device);
    if let Some(name) = choice {
        let k = lemma_first_place(devices, name);
        if k < devices.len() {
            assert(devices[k].name@ == name);
        }
    }
}

/// Where the first device of that name stands, or how many devices there are.
proof fn lemma_first_place(devices: Seq<InputDevice>, name: Seq<char>) -> (k: int)
    ensures
        0 <= k <= devices.len(),
        forall|j: int| 0 <= j < k ==> (#[trigger] devices[j]).name@ != name,
        k < devices.len() ==> devices[k].name@ == name && place_of(devices, name) == Some(k),
        k == devices.len() ==> place_of(devices, name) is None,
    decreases devices.len(),
{
    if devices.len() == 0 || devices.first().name@ == name {
        0
    } else {
        let rest = devices.drop_first();
        let k = lemma_first_place(rest, name);
        assert forall|j: int| 0 <= j < k + 1 implies (#[trigger] devices[j]).name@ != name by {
            if j > 0 {
                assert(rest[j - 1] == devices[j]);
            }
        }
        if k < rest.len() {
            assert(rest[k] == devices[k + 1]);
        }
        k + 1
    }
}

/// The row that is selected is the first one for the default, the row of the
/// first device of the chosen name, or the row of a device that is not connected.
pub proof fn law_the_selected_row_shows_the_choice(
    devices: Seq<InputDevice>,
    choice: Option<Seq<char>>,
) -> (k: int)
    ensures
        0 <= k <= devices.len(),
        choice is None ==> selected_row(devices, choice) == 0,
        choice matches Some(name) ==> {
            &&& forall|j: int| 0 <= j < k ==> (#[trigger] devices[j]).name@ != name
            &&& k < devices.len() ==> devices[k].name@ == name && selected_row(devices, choice) == k
                + 1
            &&& k == devices.len() ==> selected_row(devices, choice) == 1
        },
{
    match choice {
        Some(name) => lemma_first_place(devices, name),
        None => 0,
    }
}

/// Saving a window that nobody touched keeps the settings: whatever the window
/// showed, what it asks for is the same in its normal form. The device may be
/// spelt anew, but it is the same device.
pub proof fn law_untouched_settings_are_kept(
    form: SettingsForm,
    config: ConfigView,
    devices: Seq<InputDevice>,
)
    requires
        form.instant_record == config.instant_record,
        form.asr_lang@ == config.lang,
        form.asr_base_url@ == config.asr_url,
        form.asr_hotwords@ == config.hotwords,
        form.llm_enabled == config.llm_enabled,
        form.llm_base_url@ == config.llm_url,
        form.llm_model@ == config.llm_model,
        form.hotkey_trigger_index as int == (match model::trigger_place(config.trigger) {
            Some(i) => i,
            None => 0,
        }),
        form.hotkey_mode_index as int == (match model::mode_place(config.mode) {
            Some(i) => i,
            None => 0,
        }),
        form.device_index == selected_row(devices, model::choice_of(config.input_device)),
    ensures
        ({
            let kept = model::normalized(config);
            let asked = model::normalized(form_config(form, config, devices));
            &&& asked == ConfigView { input_device: asked.input_device, ..kept }
            &&& model::choice_of(asked.input_device) == model::choice_of(config.input_device)
        }),
{
    let asked = form_config(form, config, devices);
    lemma_trimmed_twice(config.lang);
    lemma_trimmed_twice(config.asr_url);
    lemma_trimmed_twice(config.llm_url);
    lemma_trimmed_twice(config.llm_model);
    lemma_trimmed_twice(config.input_device);
    model::law_places_and_names_match(0, config.trigger);
    model::law_places_and_names_match(0, config.mode);
    model::law_places_and_names_match(0, "right_alt"@);
    law_untouched_device_is_kept(config, devices);
    reveal_strlit("auto");
    text::lemma_trimmed_already("auto"@);
    assert(model::trigger_name_at(0) == "right_alt"@);
    assert(model::mode_name_at(0) == "combo"@);
    assert(text::same_but_case("auto"@, "auto"@));
    assert(model::normalized(asked) =~= ConfigView {
        input_device: model::normalized(asked).input_device,
        ..model::normalized(config)
    });
}

proof fn lemma_trimmed_twice(s: Seq<char>)
    ensures
        text::trimmed(text::trimmed(s)) == text::trimmed(s),
{
    text::lemma_trimmed_ends(s);
    text::lemma_trimmed_already(text::trimmed(s));
}

/// The window asks for what it shows: texts without the whitespace around them,
/// the hotwords as they are, and the trigger, the mode and the device of the
/// selected rows.
pub proof fn law_the_window_asks_for_what_it_shows(
    form: SettingsForm,
    config: ConfigView,
    devices: Seq<InputDevice>,
)
    ensures
        ({
            let asked = form_config(form, config, devices);
            &&& asked.lang == text::trimmed(form.asr_lang@)
            &&& asked.hotwords == form.asr_hotwords@
            &&& asked.asr_url == text::trimmed(form.asr_base_url@)
            &&& asked.llm_enabled == form.llm_enabled
            &&& asked.llm_url == text::trimmed(form.llm_base_url@)
            &&& asked.llm_model == text::trimmed(form.llm_model@)
            &&& asked.input_device == row_device(form.device_index as int, config, devices)
            &&& asked.instant_record == form.instant_record
            &&& 0 <= form.hotkey_trigger_index < 9 ==> model::trigger_place(asked.trigger) == Some(
                form.hotkey_trigger_index as int,
            )
            &&& 0 <= form.hotkey_mode_index < 3 ==> model::mode_place(asked.mode) == Some(
                form.hotkey_mode_index as int,
            )
        }),
{
    model::law_places_and_names_match(form.hotkey_trigger_index as int, seq![]);
    model::law_places_and_names_match(form.hotkey_mode_index as int, seq![]);
}

/// A key that is saved stays unless it is marked for removal, whatever its field
/// still holds; otherwise what was typed is the new key, without the whitespace
/// around it, and nothing typed is none.
pub proof fn law_saved_keys_are_not_overwritten(
    saved: bool,
    pending_clear: bool,
    input: Seq<char>,
)
    ensures
        saved && !pending_clear ==> entered_key(saved, pending_clear, input) is None,
        !saved || pending_clear ==> entered_key(saved, pending_clear, input) == typed_key(input),
        typed_key(input) is None <==> forall|i: int|
            0 <= i < input.len() ==> text::whitespace(#[trigger] input[i]),
        typed_key(input) matches Some(key) ==> key == text::trimmed(input),
{
    let (from, to) = text::law_trimming_takes_the_whitespace_off(input);
    if from < to {
        assert(!text::whitespace(input[from]));
    }
}

} // verus!
