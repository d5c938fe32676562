//! The settings and their rules.

use crate::text;
use crate::ui::audio::DeviceChoice;
use crate::ui::hotkey;
use crate::ui::settings::{MAINLAND_ASR_URL, MAINLAND_LLM_URL};
use vstd::prelude::*;

verus! {

/// Everything that is stored in the configuration file.
#[derive(Debug, Clone)]
pub struct AppConfig {
    pub asr: AsrConfig,
    pub llm: LlmConfig,
    pub audio: AudioConfig,
    pub hotkey: HotkeyConfig,
}

#[derive(Debug, Clone)]
pub struct AsrConfig {
    pub lang: String,
    /// Hotwords, one per line.
    pub hotwords_content: String,
    pub base_url: String,
}

#[derive(Debug, Clone)]
pub struct LlmConfig {
    pub enabled: bool,
    pub base_url: String,
    pub model: String,
}

#[derive(Debug, Clone)]
pub struct AudioConfig {
    /// Name of the input device, or `auto`.
    pub input_device: String,
    /// Keep the microphone running between recordings.
    pub instant_record: bool,
}

/// The hotkey by the names of its trigger and its mode.
#[derive(Debug, Clone)]
pub struct HotkeyConfig {
    pub trigger: String,
    pub mode: String,
}

/// The settings with their texts as characters.
#[verifier::ext_equal]
pub struct ConfigView {
    pub lang: Seq<char>,
    pub hotwords: Seq<char>,
    pub asr_url: Seq<char>,
    pub llm_enabled: bool,
    pub llm_url: Seq<char>,
    pub llm_model: Seq<char>,
    pub input_device: Seq<char>,
    pub instant_record: bool,
    pub trigger: Seq<char>,
    pub mode: Seq<char>,
}

impl View for AppConfig {
    type V = ConfigView;

    open spec fn view(&self) -> ConfigView {
        ConfigView {
            lang: self.asr.lang@,
            hotwords: self.asr.hotwords_content@,
            asr_url: self.asr.base_url@,
            llm_enabled: self.llm.enabled,
            llm_url: self.llm.base_url@,
            llm_model: self.llm.model@,
            input_device: self.audio.input_device@,
            instant_record: self.audio.instant_record,
            trigger: self.hotkey.trigger@,
            mode: self.hotkey.mode@,
        }
    }
}

// ─── Defaults ──────────────────────────────────────────────────────────

pub const DEFAULT_TRIGGER: &'static str = "right_alt";

pub const DEFAULT_MODE: &'static str = "combo";

pub const DEFAULT_LANG: &'static str = "auto";

pub const DEFAULT_LLM_MODEL: &'static str = "qwen-flash";

/// Stands for the system's default device.
pub const AUTO_DEVICE: &'static str = "auto";

/// The settings of a fresh installation.
pub open spec fn default_config() -> ConfigView {
    ConfigView {
        lang: DEFAULT_LANG@,
        hotwords: seq![],
        asr_url: MAINLAND_ASR_URL@,
        llm_enabled: false,
        llm_url: MAINLAND_LLM_URL@,
        llm_model: DEFAULT_LLM_MODEL@,
        input_device: AUTO_DEVICE@,
        instant_record: false,
        trigger: DEFAULT_TRIGGER@,
        mode: DEFAULT_MODE@,
    }
}

impl Default for HotkeyConfig {
    fn default() -> (r: Self)
        ensures
            r.trigger@ == DEFAULT_TRIGGER@,
            r.mode@ == DEFAULT_MODE@,
    {
        HotkeyConfig { trigger: DEFAULT_TRIGGER.to_owned(), mode: DEFAULT_MODE.to_owned() }
    }
}

impl Default for AppConfig {
    fn default() -> (r: Self)
        ensures
            r@ == default_config(),
    {
        AppConfig {
            asr: AsrConfig {
                lang: DEFAULT_LANG.to_owned(),
                hotwords_content: String::new(),
                base_url: MAINLAND_ASR_URL.to_owned(),
            },
            llm: LlmConfig {
                enabled: false,
                base_url: MAINLAND_LLM_URL.to_owned(),
                model: DEFAULT_LLM_MODEL.to_owned(),
            },
            audio: AudioConfig { input_device: AUTO_DEVICE.to_owned(), instant_record: false },
            hotkey: HotkeyConfig::default(),
        }
    }
}

// ─── The hotkey by name and by place ───────────────────────────────────

/// How many triggers there are to choose from.
pub const TRIGGER_COUNT: i32 = 9;

/// How many modes there are to choose from.
pub const MODE_COUNT: i32 = 3;

/// The trigger at each place of the list.
pub open spec fn trigger_at(i: int) -> hotkey::Trigger {
    if i == 0 {
        hotkey::Trigger::RightAlt
    } else if i == 1 {
        hotkey::Trigger::LeftAlt
    } else if i == 2 {
        hotkey::Trigger::RightCtrl
    } else if i == 3 {
        hotkey::Trigger::LeftCtrl
    } else if i == 4 {
        hotkey::Trigger::RightShift
    } else if i == 5 {
        hotkey::Trigger::LeftShift
    } else if i == 6 {
        hotkey::Trigger::RightWin
    } else if i == 7 {
        hotkey::Trigger::LeftWin
    } else {
        hotkey::Trigger::CapsLock
    }
}

/// The name of a trigger.
pub open spec fn trigger_name(t: hotkey::Trigger) -> Seq<char> {
    match t {
        hotkey::Trigger::RightAlt => "right_alt"@,
        hotkey::Trigger::LeftAlt => "left_alt"@,
        hotkey::Trigger::RightCtrl => "right_ctrl"@,
        hotkey::Trigger::LeftCtrl => "left_ctrl"@,
        hotkey::Trigger::RightShift => "right_shift"@,
        hotkey::Trigger::LeftShift => "left_shift"@,
        hotkey::Trigger::RightWin => "right_win"@,
        hotkey::Trigger::LeftWin => "left_win"@,
        hotkey::Trigger::CapsLock => "caps_lock"@,
    }
}

/// The mode at each place of the list.
pub open spec fn mode_at(i: int) -> hotkey::Mode {
    if i == 0 {
        hotkey::Mode::Combo
    } else if i == 1 {
        hotkey::Mode::Hold
    } else {
        hotkey::Mode::Tap
    }
}

/// The name of a mode.
pub open spec fn mode_name(m: hotkey::Mode) -> Seq<char> {
    match m {
        hotkey::Mode::Combo => "combo"@,
        hotkey::Mode::Hold => "hold"@,
        hotkey::Mode::Tap => "tap"@,
    }
}

/// The place of the trigger with that name.
pub open spec fn trigger_place(name: Seq<char>) -> Option<int> {
    if exists|i: int| 0 <= i < TRIGGER_COUNT && trigger_name(#[trigger] trigger_at(i)) == name {
        Some(choose|i: int| 0 <= i < TRIGGER_COUNT && trigger_name(#[trigger] trigger_at(i)) == name)
    } else {
        None
    }
}

/// The place of the mode with that name.
pub open spec fn mode_place(name: Seq<char>) -> Option<int> {
    if exists|i: int| 0 <= i < MODE_COUNT && mode_name(#[trigger] mode_at(i)) == name {
        Some(choose|i: int| 0 <= i < MODE_COUNT && mode_name(#[trigger] mode_at(i)) == name)
    } else {
        None
    }
}

/// No two triggers share a name, and no two modes.
pub proof fn law_names_are_distinct(i: int, j: int)
    ensures
        0 <= i < TRIGGER_COUNT && 0 <= j < TRIGGER_COUNT && trigger_name(trigger_at(i))
            == trigger_name(trigger_at(j)) ==> i == j,
        0 <= i < MODE_COUNT && 0 <= j < MODE_COUNT && mode_name(mode_at(i)) == mode_name(mode_at(j))
            ==> i == j,
{
    reveal_strlit("right_alt");
    reveal_strlit("left_alt");
    reveal_strlit("right_ctrl");
    reveal_strlit("left_ctrl");
    reveal_strlit("right_shift");
    reveal_strlit("left_shift");
    reveal_strlit("right_win");
    reveal_strlit("left_win");
    reveal_strlit("caps_lock");
    reveal_strlit("combo");
    reveal_strlit("hold");
    reveal_strlit("tap");
    if 0 <= i < TRIGGER_COUNT && 0 <= j < TRIGGER_COUNT && i != j {
        let a = trigger_name(trigger_at(i));
        let b = trigger_name(trigger_at(j));
        assert(a.len() != b.len() || a[0] != b[0] || a[6] != b[6]);
    }
    if 0 <= i < MODE_COUNT && 0 <= j < MODE_COUNT && i != j {
        assert(mode_name(mode_at(i)).len() != mode_name(mode_at(j)).len());
    }
}

fn trigger_of(i: i32) -> (r: hotkey::Trigger)
    requires
        0 <= i < TRIGGER_COUNT,
    ensures
        r == trigger_at(i as int),
{
    match i {
        0 => hotkey::Trigger::RightAlt,
        1 => hotkey::Trigger::LeftAlt,
        2 => hotkey::Trigger::RightCtrl,
        3 => hotkey::Trigger::LeftCtrl,
        4 => hotkey::Trigger::RightShift,
        5 => hotkey::Trigger::LeftShift,
        6 => hotkey::Trigger::RightWin,
        7 => hotkey::Trigger::LeftWin,
        _ => hotkey::Trigger::CapsLock,
    }
}

fn name_of_trigger(t: hotkey::Trigger) -> (r: &'static str)
    ensures
        r@ == trigger_name(t),
{
    match t {
        hotkey::Trigger::RightAlt => "right_alt",
        hotkey::Trigger::LeftAlt => "left_alt",
        hotkey::Trigger::RightCtrl => "right_ctrl",
        hotkey::Trigger::LeftCtrl => "left_ctrl",
        hotkey::Trigger::RightShift => "right_shift",
        hotkey::Trigger::LeftShift => "left_shift",
        hotkey::Trigger::RightWin => "right_win",
        hotkey::Trigger::LeftWin => "left_win",
        hotkey::Trigger::CapsLock => "caps_lock",
    }
}

fn mode_of(i: i32) -> (r: hotkey::Mode)
    requires
        0 <= i < MODE_COUNT,
    ensures
        r == mode_at(i as int),
{
    match i {
        0 => hotkey::Mode::Combo,
        1 => hotkey::Mode::Hold,
        _ => hotkey::Mode::Tap,
    }
}

fn name_of_mode(m: hotkey::Mode) -> (r: &'static str)
    ensures
        r@ == mode_name(m),
{
    match m {
        hotkey::Mode::Combo => "combo",
        hotkey::Mode::Hold => "hold",
        hotkey::Mode::Tap => "tap",
    }
}

/// Looks a trigger up by its name.
fn find_trigger(key: &str) -> (r: Option<i32>)
    ensures
        match r {
            Some(i) => trigger_place(key@) == Some(i as int) && 0 <= i < TRIGGER_COUNT
                && trigger_name(trigger_at(i as int)) == key@,
            None => trigger_place(key@) is None,
        },
{
    let mut i: i32 = 0;
    while i < TRIGGER_COUNT
        invariant
            0 <= i <= TRIGGER_COUNT,
            forall|j: int| 0 <= j < i ==> trigger_name(#[trigger] trigger_at(j)) != key@,
        decreases TRIGGER_COUNT - i,
    {
        if text::same(name_of_trigger(trigger_of(i)), key) {
            proof {
                let place = choose|j: int|
                    0 <= j < TRIGGER_COUNT && trigger_name(#[trigger] trigger_at(j)) == key@;
                assert(trigger_name(trigger_at(i as int)) == key@);
                law_names_are_distinct(place, i as int);
            }
            return Some(i);
        }
        i += 1;
    }
    None
}

/// Looks a mode up by its name.
fn find_mode(key: &str) -> (r: Option<i32>)
    ensures
        match r {
            Some(i) => mode_place(key@) == Some(i as int) && 0 <= i < MODE_COUNT && mode_name(
                mode_at(i as int),
            ) == key@,
            None => mode_place(key@) is None,
        },
{
    let mut i: i32 = 0;
    while i < MODE_COUNT
        invariant
            0 <= i <= MODE_COUNT,
            forall|j: int| 0 <= j < i ==> mode_name(#[trigger] mode_at(j)) != key@,
        decreases MODE_COUNT - i,
    {
        if text::same(name_of_mode(mode_of(i)), key) {
            proof {
                let place = choose|j: int|
                    0 <= j < MODE_COUNT && mode_name(#[trigger] mode_at(j)) == key@;
                assert(mode_name(mode_at(i as int)) == key@);
                law_names_are_distinct(place, i as int);
            }
            return Some(i);
        }
        i += 1;
    }
    None
}

/// The hotkey that the settings name. An unknown trigger is the right Alt key,
/// an unknown mode is the combined one.
pub open spec fn hotkey_of(config: ConfigView) -> hotkey::Config {
    hotkey::Config {
        trigger: match trigger_place(config.trigger) {
            Some(i) => trigger_at(i),
            None => hotkey::Trigger::RightAlt,
        },
        mode: match mode_place(config.mode) {
            Some(i) => mode_at(i),
            None => hotkey::Mode::Combo,
        },
    }
}

pub fn hotkey_config_from_config(config: &AppConfig) -> (r: hotkey::Config)
    ensures
        r == hotkey_of(config@),
{
    hotkey::Config {
        trigger: match find_trigger(config.hotkey.trigger.as_str()) {
            Some(i) => trigger_of(i),
            None => hotkey::Trigger::RightAlt,
        },
        mode: match find_mode(config.hotkey.mode.as_str()) {
            Some(i) => mode_of(i),
            None => hotkey::Mode::Combo,
        },
    }
}

/// The place of a trigger in the list; an unknown one stands first.
pub fn trigger_to_index(key: &str) -> (r: i32)
    ensures
        r as int == (match trigger_place(key@) {
            Some(i) => i,
            None => 0,
        }),
{
    match find_trigger(key) {
        Some(i) => i,
        None => 0,
    }
}

/// The place of a mode in the list; an unknown one stands first.
pub fn mode_to_index(key: &str) -> (r: i32)
    ensures
        r as int == (match mode_place(key@) {
            Some(i) => i,
            None => 0,
        }),
{
    match find_mode(key) {
        Some(i) => i,
        None => 0,
    }
}

/// The name of the trigger at a place. Before the list it is the first one,
/// behind it the default.
pub open spec fn trigger_name_at(idx: int) -> Seq<char> {
    if idx <= 0 {
        trigger_name(trigger_at(0))
    } else if idx < TRIGGER_COUNT {
        trigger_name(trigger_at(idx))
    } else {
        DEFAULT_TRIGGER@
    }
}

pub fn trigger_from_index(idx: i32) -> (r: String)
    ensures
        r@ == trigger_name_at(idx as int),
{
    if idx <= 0 {
        name_of_trigger(trigger_of(0)).to_owned()
    } else if idx < TRIGGER_COUNT {
        name_of_trigger(trigger_of(idx)).to_owned()
    } else {
        DEFAULT_TRIGGER.to_owned()
    }
}

/// The name of the mode at a place. Before the list it is the first one, behind
/// it the default.
pub open spec fn mode_name_at(idx: int) -> Seq<char> {
    if idx <= 0 {
        mode_name(mode_at(0))
    } else if idx < MODE_COUNT {
        mode_name(mode_at(idx))
    } else {
        DEFAULT_MODE@
    }
}

pub fn mode_from_index(idx: i32) -> (r: String)
    ensures
        r@ == mode_name_at(idx as int),
{
    if idx <= 0 {
        name_of_mode(mode_of(0)).to_owned()
    } else if idx < MODE_COUNT {
        name_of_mode(mode_of(idx)).to_owned()
    } else {
        DEFAULT_MODE.to_owned()
    }
}

/// Going from a place in the list to its name and back, and from a known name
/// to its place and back, changes nothing.
pub proof fn law_places_and_names_match(i: int, name: Seq<char>)
    ensures
        0 <= i < TRIGGER_COUNT ==> trigger_place(trigger_name_at(i)) == Some(i),
        trigger_place(name) matches Some(p) ==> trigger_name_at(p) == name,
        0 <= i < MODE_COUNT ==> mode_place(mode_name_at(i)) == Some(i),
        mode_place(name) matches Some(p) ==> mode_name_at(p) == name,
{
    if 0 <= i < TRIGGER_COUNT {
        let name_at = trigger_name_at(i);
        assert(trigger_name(trigger_at(i)) == name_at);
        let p = choose|j: int|
            0 <= j < TRIGGER_COUNT && trigger_name(#[trigger] trigger_at(j)) == name_at;
        law_names_are_distinct(p, i);
    }
    if 0 <= i < MODE_COUNT {
        let name_at = mode_name_at(i);
        assert(mode_name(mode_at(i)) == name_at);
        let p = choose|j: int| 0 <= j < MODE_COUNT && mode_name(#[trigger] mode_at(j)) == name_at;
        law_names_are_distinct(p, i);
    }
}

// ─── The input device by name ──────────────────────────────────────────

/// The device that a name stands for: the default if it is empty or `auto`.
pub open spec fn choice_of(raw: Seq<char>) -> Option<Seq<char>> {
    let name = text::trimmed(raw);
    if name.len() == 0 || text::same_but_case(name, AUTO_DEVICE@) {
        None
    } else {
        Some(name)
    }
}

pub fn config_to_device_choice(raw: &str) -> (r: DeviceChoice)
    ensures
        r@ == choice_of(raw@),
{
    let name = text::trim(raw);
    if name.as_str().is_empty() || text::eq_ignore_ascii_case(name.as_str(), AUTO_DEVICE) {
        DeviceChoice::Auto
    } else {
        DeviceChoice::Named(name)
    }
}

/// The name that stands for a device.
pub open spec fn stored_choice(choice: Option<Seq<char>>) -> Seq<char> {
    match choice {
        None => AUTO_DEVICE@,
        Some(name) => name,
    }
}

pub fn device_choice_to_config(choice: &DeviceChoice) -> (r: String)
    ensures
        r@ == stored_choice(choice@),
{
    match choice {
        DeviceChoice::Auto => AUTO_DEVICE.to_owned(),
        DeviceChoice::Named(name) => name.clone(),
    }
}

pub fn audio_choice_from_config(config: &AppConfig) -> (r: DeviceChoice)
    ensures
        r@ == choice_of(config@.input_device),
{
    config_to_device_choice(config.audio.input_device.as_str())
}

/// A stored choice reads back. A device whose name has whitespace around it,
/// or that is itself named `auto`, is the exception.
pub proof fn law_device_choice_reads_back(choice: Option<Seq<char>>)
    requires
        choice matches Some(name) ==> {
            &&& name.len() > 0
            &&& text::trimmed(name) == name
            &&& !text::same_but_case(name, AUTO_DEVICE@)
        },
    ensures
        choice_of(stored_choice(choice)) == choice,
{
    if choice is None {
        reveal_strlit("auto");
        text::lemma_trimmed_already(AUTO_DEVICE@);
    }
}

// ─── Validation ────────────────────────────────────────────────────────

/// Whether a character is a letter or a digit of any script.
pub uninterp spec fn alphanumeric(c: char) -> bool;

/// `char::is_alphanumeric`, which says whether a character is alphabetic or
/// numeric by its Unicode properties. Which characters these are is not said
/// here.
pub assume_specification[ char::is_alphanumeric ](c: char) -> (r: bool)
    ensures
        r == alphanumeric(c),
;

/// Whether a hotword may hold the character.
pub open spec fn allowed(c: char) -> bool {
    ||| alphanumeric(c)
    ||| c == ' '
    ||| c == '-'
    ||| c == '_'
    ||| c == '.'
    ||| c == '+'
    ||| c == '#'
}

/// The first character of a term that is not allowed.
pub open spec fn first_refused(term: Seq<char>) -> Option<char>
    decreases term.len(),
{
    if term.len() == 0 {
        None
    } else if !allowed(term.first()) {
        Some(term.first())
    } else {
        first_refused(term.drop_first())
    }
}

/// What is wrong with the line of the given number, if anything. Empty lines
/// and comments are fine.
pub open spec fn line_fault(line: Seq<char>, number: nat) -> Option<Seq<char>> {
    let term = text::trimmed(line);
    if term.len() == 0 || term[0] == '#' {
        None
    } else {
        match first_refused(term) {
            Some(c) => Some(
                "Hotword line "@ + text::decimal(number) + ": character '"@ + seq![c]
                    + "' not allowed. Use letters, digits, spaces, and - _ . + # only - one term per line."@,
            ),
            None => if text::occurs(term, "  "@) {
                Some(
                    "Hotword line "@ + text::decimal(number)
                        + " has multiple consecutive spaces."@,
                )
            } else {
                None
            },
        }
    }
}

/// What is wrong with the first faulty line from line `from` on.
pub open spec fn lines_fault(lines: Seq<Seq<char>>, from: int) -> Option<Seq<char>>
    decreases lines.len() - from,
{
    if from >= lines.len() {
        None
    } else if line_fault(lines[from], (from + 1) as nat) is Some {
        line_fault(lines[from], (from + 1) as nat)
    } else {
        lines_fault(lines, from + 1)
    }
}

/// What is wrong with hotwords, if anything.
pub open spec fn hotwords_fault(content: Seq<char>) -> Option<Seq<char>> {
    lines_fault(text::lines_of(content), 0)
}

fn is_allowed(c: char) -> (r: bool)
    ensures
        r == allowed(c),
{
    c.is_alphanumeric() || c == ' ' || c == '-' || c == '_' || c == '.' || c == '+' || c == '#'
}

fn find_refused(term: &str) -> (r: Option<char>)
    ensures
        r == first_refused(term@),
{
    let v = text::chars_of(term);
    let mut i: usize = 0;
    assert(v@.skip(0) =~= v@);
    while i < v.len()
        invariant
            v@ == term@,
            i <= v@.len(),
            first_refused(v@.skip(i as int)) == first_refused(v@),
        decreases v@.len() - i,
    {
        assert(v@.skip(i as int).drop_first() =~= v@.skip(i + 1));
        if !is_allowed(v[i]) {
            return Some(v[i]);
        }
        i += 1;
    }
    None
}

fn check_line(line: &str, number: usize) -> (r: Result<(), String>)
    ensures
        match line_fault(line@, number as nat) {
            Some(what) => r matches Err(got) && got@ == what,
            None => r is Ok,
        },
{
    let term = text::trim(line);
    if term.as_str().is_empty() || term.as_str().get_char(0) == '#' {
        return Ok(());
    }
    if let Some(c) = find_refused(term.as_str()) {
        let mut message = "Hotword line ".to_owned().concat(
            text::decimal_of(number as u64).as_str(),
        ).concat(": character '");
        let ghost before = message@;
        message.push(c);
        assert(message@ =~= before + seq![c]);
        return Err(
            message.concat(
                "' not allowed. Use letters, digits, spaces, and - _ . + # only - one term per line.",
            ),
        );
    }
    if text::contains(term.as_str(), "  ") {
        return Err(
            "Hotword line ".to_owned().concat(text::decimal_of(number as u64).as_str()).concat(
                " has multiple consecutive spaces.",
            ),
        );
    }
    Ok(())
}

/// Checks hotwords: one term per line, of letters, digits, single spaces and
/// `-_.+#`. The engine puts its own label before the list, so nothing else may
/// stand in it.
pub fn validate_hotwords(content: &str) -> (r: Result<(), String>)
    ensures
        match hotwords_fault(content@) {
            Some(what) => r matches Err(got) && got@ == what,
            None => r is Ok,
        },
{
    let lines = text::lines(content);
    let ghost all = text::lines_of(content@);
    let mut i: usize = 0;
    while i < lines.len()
        invariant
            i <= lines@.len(),
            text::texts(lines@) == all,
            all == text::lines_of(content@),
            lines_fault(all, i as int) == lines_fault(all, 0),
        decreases lines@.len() - i,
    {
        assert(text::texts(lines@)[i as int] == lines@[i as int]@);
        match check_line(lines[i].as_str(), i + 1) {
            Ok(_) => {},
            Err(e) => {
                return Err(e);
            },
        }
        i += 1;
    }
    Ok(())
}

/// What is wrong with the settings, if anything.
pub open spec fn config_fault(config: ConfigView) -> Option<Seq<char>> {
    if text::trimmed(config.lang).len() == 0 {
        Some("ASR language cannot be empty"@)
    } else if text::trimmed(config.asr_url).len() == 0 {
        Some("ASR base URL cannot be empty"@)
    } else if hotwords_fault(config.hotwords) is Some {
        hotwords_fault(config.hotwords)
    } else if config.llm_enabled && text::trimmed(config.llm_url).len() == 0 {
        Some("LLM base URL cannot be empty when cleanup is enabled"@)
    } else if config.llm_enabled && text::trimmed(config.llm_model).len() == 0 {
        Some("LLM model cannot be empty when cleanup is enabled"@)
    } else {
        None
    }
}

fn is_blank(s: &str) -> (r: bool)
    ensures
        r == (text::trimmed(s@).len() == 0),
{
    text::trim(s).as_str().is_empty()
}

/// Checks the settings.
pub fn validate_config(config: &AppConfig) -> (r: Result<(), String>)
    ensures
        match config_fault(config@) {
            Some(what) => r matches Err(got) && got@ == what,
            None => r is Ok,
        },
{
    if is_blank(config.asr.lang.as_str()) {
        return Err("ASR language cannot be empty".to_owned());
    }
    if is_blank(config.asr.base_url.as_str()) {
        return Err("ASR base URL cannot be empty".to_owned());
    }
    match validate_hotwords(config.asr.hotwords_content.as_str()) {
        Ok(_) => {},
        Err(e) => {
            return Err(e);
        },
    }
    if config.llm.enabled {
        if is_blank(config.llm.base_url.as_str()) {
            return Err("LLM base URL cannot be empty when cleanup is enabled".to_owned());
        }
        if is_blank(config.llm.model.as_str()) {
            return Err("LLM model cannot be empty when cleanup is enabled".to_owned());
        }
    }
    Ok(())
}

// ─── Normalisation ─────────────────────────────────────────────────────

/// A value without whitespace around it, or the default if nothing is left.
pub open spec fn value_or_default(value: Seq<char>, default: Seq<char>) -> Seq<char> {
    if text::trimmed(value).len() == 0 {
        default
    } else {
        text::trimmed(value)
    }
}

/// A text with line feeds as line ends, no whitespace at the ends of its
/// lines, and none around it.
pub open spec fn tidy_lines(value: Seq<char>) -> Seq<char> {
    let lines = text::lines_of(text::replaced(value, "\r\n"@, "\n"@));
    text::trimmed(text::joined(lines.map_values(|l: Seq<char>| text::trimmed_end(l)), "\n"@))
}

/// The settings in their normal form. An unknown trigger or mode becomes the
/// default, so that a typing error does not leave the hotkey dead.
pub open spec fn normalized(config: ConfigView) -> ConfigView {
    ConfigView {
        lang: value_or_default(config.lang, DEFAULT_LANG@),
        hotwords: tidy_lines(config.hotwords),
        asr_url: value_or_default(config.asr_url, MAINLAND_ASR_URL@),
        llm_enabled: config.llm_enabled,
        llm_url: value_or_default(config.llm_url, MAINLAND_LLM_URL@),
        llm_model: value_or_default(config.llm_model, DEFAULT_LLM_MODEL@),
        input_device: value_or_default(config.input_device, AUTO_DEVICE@),
        instant_record: config.instant_record,
        trigger: if trigger_place(config.trigger) is Some {
            config.trigger
        } else {
            DEFAULT_TRIGGER@
        },
        mode: if mode_place(config.mode) is Some {
            config.mode
        } else {
            DEFAULT_MODE@
        },
    }
}

fn trimmed_or_default(value: &str, default: &str) -> (r: String)
    ensures
        r@ == value_or_default(value@, default@),
{
    let trimmed = text::trim(value);
    if trimmed.as_str().is_empty() {
        default.to_owned()
    } else {
        trimmed
    }
}

fn normalize_multiline(value: &str) -> (r: String)
    ensures
        r@ == tidy_lines(value@),
{
    proof {
        reveal_strlit("\r\n");
    }
    let plain = text::replace(value, "\r\n", "\n");
    let lines = text::lines(plain.as_str());
    let ghost all = text::lines_of(plain@);
    let mut out: Vec<String> = Vec::new();
    let mut i: usize = 0;
    while i < lines.len()
        invariant
            i <= lines@.len(),
            text::texts(lines@) == all,
            text::texts(out@) == all.take(i as int).map_values(
                |l: Seq<char>| text::trimmed_end(l),
            ),
        decreases lines@.len() - i,
    {
        let ghost before = text::texts(out@);
        let line = text::trim_end(lines[i].as_str());
        assert(text::texts(lines@)[i as int] == lines@[i as int]@);
        out.push(line);
        assert(text::texts(out@) =~= before.push(line@));
        assert(text::texts(out@) =~= all.take(i + 1).map_values(
            |l: Seq<char>| text::trimmed_end(l),
        ));
        i += 1;
    }
    assert(all.take(all.len() as int) =~= all);
    text::trim(text::join(out.as_slice(), "\n").as_str())
}

/// Brings the settings into their normal form.
pub fn normalize_config(config: &mut AppConfig)
    ensures
        final(config)@ == normalized(old(config)@),
{
    config.asr.lang = trimmed_or_default(config.asr.lang.as_str(), DEFAULT_LANG);
    config.asr.hotwords_content = normalize_multiline(config.asr.hotwords_content.as_str());
    config.asr.base_url = trimmed_or_default(config.asr.base_url.as_str(), MAINLAND_ASR_URL);
    config.llm.base_url = trimmed_or_default(config.llm.base_url.as_str(), MAINLAND_LLM_URL);
    config.llm.model = trimmed_or_default(config.llm.model.as_str(), DEFAULT_LLM_MODEL);
    config.audio.input_device = trimmed_or_default(config.audio.input_device.as_str(), AUTO_DEVICE);
    if find_trigger(config.hotkey.trigger.as_str()).is_none() {
        config.hotkey.trigger = DEFAULT_TRIGGER.to_owned();
    }
    if find_mode(config.hotkey.mode.as_str()).is_none() {
        config.hotkey.mode = DEFAULT_MODE.to_owned();
    }
}

/// The model's settings are those of the file, each in its place.
pub proof fn law_settings_are_modelled_one_for_one(config: AppConfig)
    ensures
        config@.lang == config.asr.lang@,
        config@.hotwords == config.asr.hotwords_content@,
        config@.asr_url == config.asr.base_url@,
        config@.llm_enabled == config.llm.enabled,
        config@.llm_url == config.llm.base_url@,
        config@.llm_model == config.llm.model@,
        config@.input_device == config.audio.input_device@,
        config@.instant_record == config.audio.instant_record,
        config@.trigger == config.hotkey.trigger@,
        config@.mode == config.hotkey.mode@,
{
}

} // verus!
