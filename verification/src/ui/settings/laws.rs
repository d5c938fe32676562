//! Laws of the settings.

use crate::engine::config;
use crate::text;
use crate::ui::autostart;
use crate::ui::hotkey;
use crate::ui::settings::model::{self, ConfigView};
use crate::ui::settings::storage::{self, SaveRequest, Secret, StepView};
use crate::ui::wide;
use vstd::prelude::*;

verus! {

/// Settings in their normal form stay as they are.
pub proof fn law_normalising_twice_changes_nothing(config: ConfigView)
    ensures
        model::normalized(model::normalized(config)) == model::normalized(config),
{
    let once = model::normalized(config);
    reveal_strlit("auto");
    reveal_strlit("qwen-flash");
    reveal_strlit(
        "https://dashscope.aliyuncs.com/api/v1/services/aigc/multimodal-generation/generation",
    );
    reveal_strlit("https://dashscope.aliyuncs.com/compatible-mode/v1");
    lemma_value_settled(config.lang, "auto"@);
    lemma_value_settled(
        config.asr_url,
        "https://dashscope.aliyuncs.com/api/v1/services/aigc/multimodal-generation/generation"@,
    );
    lemma_value_settled(config.llm_url, "https://dashscope.aliyuncs.com/compatible-mode/v1"@);
    lemma_value_settled(config.llm_model, "qwen-flash"@);
    lemma_value_settled(config.input_device, "auto"@);
    lemma_tidy_lines_are_settled(config.hotwords);
    lemma_settled_lines_stay(once.hotwords);
    model::law_places_and_names_match(0, config.trigger);
    model::law_places_and_names_match(0, config.mode);
    assert(model::trigger_name_at(0) == "right_alt"@);
    assert(model::mode_name_at(0) == "combo"@);
    assert(model::normalized(once) =~= once);
}

/// After normalisation only the hotwords can be refused.
pub proof fn law_normal_settings_lack_nothing(config: ConfigView)
    ensures
        model::config_fault(model::normalized(config)) == crate::ui::settings::model::hotwords_fault(
            model::normalized(config).hotwords,
        ),
{
    reveal_strlit("auto");
    reveal_strlit("qwen-flash");
    reveal_strlit(
        "https://dashscope.aliyuncs.com/api/v1/services/aigc/multimodal-generation/generation",
    );
    reveal_strlit("https://dashscope.aliyuncs.com/compatible-mode/v1");
    lemma_value_settled(config.lang, "auto"@);
    lemma_value_settled(
        config.asr_url,
        "https://dashscope.aliyuncs.com/api/v1/services/aigc/multimodal-generation/generation"@,
    );
    lemma_value_settled(config.llm_url, "https://dashscope.aliyuncs.com/compatible-mode/v1"@);
    lemma_value_settled(config.llm_model, "qwen-flash"@);
}

/// A trimmed or defaulted value is not blank and stays as it is.
proof fn lemma_value_settled(value: Seq<char>, default: Seq<char>)
    requires
        default.len() > 0,
        !text::whitespace(default.first()),
        !text::whitespace(default.last()),
    ensures
        model::value_or_default(model::value_or_default(value, default), default) == model::value_or_default(
            value,
            default,
        ),
        text::trimmed(model::value_or_default(value, default)).len() > 0,
{
    text::lemma_trimmed_ends(value);
    text::lemma_trimmed_already(text::trimmed(value));
    text::lemma_trimmed_already(default);
}

/// Whether a text has no whitespace around it and none before its line feeds,
/// but for other line feeds.
spec fn settled(s: Seq<char>) -> bool {
    &&& s.len() > 0 ==> !text::whitespace(s.first()) && !text::whitespace(s.last())
    &&& clean_ends(s)
}

spec fn clean_ends(s: Seq<char>) -> bool {
    forall|i: int|
        0 < i < s.len() && #[trigger] s[i] == '\n' ==> s[i - 1] == '\n' || !text::whitespace(
            s[i - 1],
        )
}

proof fn lemma_tidy_lines_are_settled(value: Seq<char>)
    ensures
        settled(model::tidy_lines(value)),
{
    let plain = text::replaced(value, "\r\n"@, "\n"@);
    let lines = text::lines_of(plain).map_values(|l: Seq<char>| text::trimmed_end(l));
    reveal_strlit("\n");
    text::lemma_lines_have_no_line_feed(plain);
    assert forall|k: int| 0 <= k < lines.len() implies {
        &&& !(#[trigger] lines[k]).contains('\n')
        &&& lines[k].len() > 0 ==> !text::whitespace(lines[k].last())
    } by {
        let line = text::lines_of(plain)[k];
        text::lemma_trimmed_end(line);
        assert(lines[k] == text::trimmed_end(line));
        assert(!line.contains('\n'));
        if lines[k].contains('\n') {
            let j = choose|j: int| 0 <= j < lines[k].len() && lines[k][j] == '\n';
            assert(line[j] == '\n');
        }
    }
    lemma_joined_is_clean(lines);
    let whole = text::joined(lines, "\n"@);
    text::lemma_trimmed_ends(whole);
    let start = text::lemma_trimmed_is_part(whole);
    let part = text::trimmed(whole);
    assert forall|i: int| 0 < i < part.len() && #[trigger] part[i] == '\n' implies part[i - 1]
        == '\n' || !text::whitespace(part[i - 1]) by {
        assert(part[i] == whole[start + i]);
        assert(part[i - 1] == whole[start + i - 1]);
    }
}

proof fn lemma_joined_is_clean(lines: Seq<Seq<char>>)
    requires
        forall|k: int|
            0 <= k < lines.len() ==> {
                &&& !(#[trigger] lines[k]).contains('\n')
                &&& lines[k].len() > 0 ==> !text::whitespace(lines[k].last())
            },
    ensures
        clean_ends(text::joined(lines, "\n"@)),
        text::joined(lines, "\n"@).len() > 0 ==> text::joined(lines, "\n"@).last() == '\n'
            || !text::whitespace(text::joined(lines, "\n"@).last()),
    decreases lines.len(),
{
    reveal_strlit("\n");
    let whole = text::joined(lines, "\n"@);
    if lines.len() == 1 {
        assert(!lines[0].contains('\n'));
        assert forall|i: int| 0 < i < whole.len() implies #[trigger] whole[i] != '\n' by {
            assert(lines[0].contains(lines[0][i]));
        }
    } else if lines.len() > 1 {
        let earlier = lines.drop_last();
        let last = lines.last();
        assert forall|k: int| 0 <= k < earlier.len() implies {
            &&& !(#[trigger] earlier[k]).contains('\n')
            &&& earlier[k].len() > 0 ==> !text::whitespace(earlier[k].last())
        } by {
            assert(earlier[k] == lines[k]);
        }
        lemma_joined_is_clean(earlier);
        assert(lines[lines.len() - 1] == last);
        let head = text::joined(earlier, "\n"@);
        assert(whole == head + "\n"@ + last);
        assert forall|i: int| 0 < i < whole.len() && #[trigger] whole[i] == '\n' implies whole[i
            - 1] == '\n' || !text::whitespace(whole[i - 1]) by {
            if i < head.len() {
                assert(whole[i] == head[i]);
                assert(whole[i - 1] == head[i - 1]);
            } else if i == head.len() {
                assert(whole[i - 1] == head.last());
            } else {
                assert(whole[i] == last[i - head.len() - 1]);
                assert(last.contains(last[i - head.len() - 1]));
            }
        }
        if last.len() > 0 {
            assert(whole.last() == last.last());
        } else {
            assert(whole.last() == '\n');
        }
    }
}

proof fn lemma_settled_lines_stay(s: Seq<char>)
    requires
        settled(s),
    ensures
        model::tidy_lines(s) == s,
{
    reveal_strlit("\r\n");
    reveal_strlit("\n");
    assert(!text::occurs(s, "\r\n"@)) by {
        if text::occurs(s, "\r\n"@) {
            let i = choose|i: int| text::occurs_at(s, "\r\n"@, i);
            assert(s.subrange(i, i + 2)[0] == s[i]);
            assert(s.subrange(i, i + 2)[1] == s[i + 1]);
            assert(s[i + 1] == '\n' && s[i] == '\r');
        }
    }
    text::lemma_replaced_nothing(s, "\r\n"@, "\n"@);
    lemma_lines_rejoin(s);
    text::lemma_trimmed_already(s);
}

proof fn lemma_lines_rejoin(s: Seq<char>)
    requires
        clean_ends(s),
        s.len() > 0 ==> !text::whitespace(s.last()),
    ensures
        text::joined(
            text::lines_of(s).map_values(|l: Seq<char>| text::trimmed_end(l)),
            "\n"@,
        ) == s,
    decreases s.len(),
{
    reveal_strlit("\n");
    let trim = |l: Seq<char>| text::trimmed_end(l);
    let n = text::line_length(s) as int;
    text::lemma_line_length_is(s);
    if s.len() == 0 {
        assert(text::lines_of(s).map_values(trim) =~= Seq::<Seq<char>>::empty());
    } else if n >= s.len() {
        assert(text::lines_of(s).map_values(trim) =~= seq![text::trimmed_end(s)]);
    } else {
        let first = s.take(n);
        let rest = s.skip(n + 1);
        assert(s[n] == '\n');
        if n > 0 {
            assert(s[n - 1] != '\n');
            assert(first.last() == s[n - 1]);
            assert(!text::whitespace(s[n - 1]));
        }
        assert(text::without_return(first) == first);
        assert(text::trimmed_end(first) == first);
        assert(rest.len() > 0);
        assert(rest.last() == s.last());
        assert forall|i: int| 0 < i < rest.len() && #[trigger] rest[i] == '\n' implies rest[i - 1]
            == '\n' || !text::whitespace(rest[i - 1]) by {
            assert(rest[i] == s[n + 1 + i]);
            assert(rest[i - 1] == s[n + i]);
        }
        lemma_lines_rejoin(rest);
        let others = text::lines_of(rest);
        assert(others.len() > 0);
        let tail = others.map_values(trim);
        assert(text::lines_of(s) == seq![first] + others);
        assert(text::lines_of(s).map_values(trim) =~= seq![first] + tail);
        text::lemma_joined_first(first, tail, "\n"@);
        assert(first + "\n"@ + rest =~= s);
    }
}

// ─── Saving and loading ────────────────────────────────────────────────

/// What is stored: the configuration file, the hotword file, the keys and the
/// autostart value.
pub struct Stored {
    pub config: Option<ConfigView>,
    pub hotwords: Option<Seq<char>>,
    pub asr_key: Option<Seq<char>>,
    pub llm_key: Option<Seq<char>>,
    pub autostart: Option<Seq<u16>>,
}

impl Stored {
    /// What is stored after one step of saving, by an executable at `exe`. The
    /// steps that write put exactly that in the place of what was there.
    pub open spec fn after_step(self, step: StepView, exe: Seq<char>) -> Stored {
        match step {
            StepView::WriteConfig(config) => Stored { config: Some(config), ..self },
            StepView::WriteHotwords(hotwords) => Stored { hotwords, ..self },
            StepView::RemovePrompt => self,
            StepView::DeleteSecret(Secret::Asr) => Stored { asr_key: None, ..self },
            StepView::DeleteSecret(Secret::Llm) => Stored { llm_key: None, ..self },
            StepView::StoreSecret(Secret::Asr, key) => Stored { asr_key: Some(key), ..self },
            StepView::StoreSecret(Secret::Llm, key) => Stored { llm_key: Some(key), ..self },
            StepView::SetAutostart(on) => Stored {
                autostart: if on {
                    Some(wide::utf16(autostart::command_for(exe)).push(0))
                } else {
                    None
                },
                ..self
            },
        }
    }

    /// What is stored after several steps.
    pub open spec fn after(self, steps: Seq<StepView>, exe: Seq<char>) -> Stored
        decreases steps.len(),
    {
        if steps.len() == 0 {
            self
        } else {
            self.after(steps.drop_last(), exe).after_step(steps.last(), exe)
        }
    }
}

/// Loading gives what saving was asked for: the settings in their normal form, a
/// key if there is a new one or an old one that was not cleared, and autostart
/// as wanted. The hotword file holds the tidied hotwords.
pub proof fn law_saved_settings_load(stored: Stored, req: SaveRequest, exe: Seq<char>)
    ensures
        ({
            let saved = stored.after(storage::save_steps(req), exe);
            &&& storage::in_force(saved.config) == model::normalized(req.config@)
            &&& saved.asr_key is Some <==> req.new_asr_key is Some || (!req.clear_asr_key
                && stored.asr_key is Some)
            &&& saved.llm_key is Some <==> req.new_llm_key is Some || (!req.clear_llm_key
                && stored.llm_key is Some)
            &&& req.new_asr_key matches Some(key) ==> saved.asr_key == Some(key@)
            &&& req.new_llm_key matches Some(key) ==> saved.llm_key == Some(key@)
            &&& storage::turns_on(saved.autostart) == req.autostart_enabled
            &&& saved.hotwords == storage::support_contents(
                model::normalized(req.config@).hotwords,
            )
        }),
{
    let config = model::normalized(req.config@);
    law_normalising_twice_changes_nothing(req.config@);
    autostart::law_set_is_seen(exe);
    let first = storage::config_steps(config);
    let asr = storage::secret_steps(Secret::Asr, req.clear_asr_key, req.new_asr_key);
    let llm = storage::secret_steps(Secret::Llm, req.clear_llm_key, req.new_llm_key);
    let last = seq![StepView::SetAutostart(req.autostart_enabled)];
    lemma_after_parts(stored, first + asr + llm, last, exe);
    lemma_after_parts(stored, first + asr, llm, exe);
    lemma_after_parts(stored, first, asr, exe);
    reveal_with_fuel(Stored::after, 4);
    assert(last.drop_last() =~= Seq::<StepView>::empty());
    assert(first.drop_last().drop_last().drop_last() =~= Seq::<StepView>::empty());
    assert(first.drop_last().last() == first[1]);
    assert(first.drop_last().drop_last().last() == first[0]);
    lemma_after_secret(stored.after(first, exe), Secret::Asr, req.clear_asr_key, req.new_asr_key, exe);
    lemma_after_secret(
        stored.after(first + asr, exe),
        Secret::Llm,
        req.clear_llm_key,
        req.new_llm_key,
        exe,
    );
}

proof fn lemma_after_parts(stored: Stored, a: Seq<StepView>, b: Seq<StepView>, exe: Seq<char>)
    ensures
        stored.after(a + b, exe) == stored.after(a, exe).after(b, exe),
    decreases b.len(),
{
    if b.len() == 0 {
        assert(a + b =~= a);
    } else {
        assert((a + b).drop_last() =~= a + b.drop_last());
        lemma_after_parts(stored, a, b.drop_last(), exe);
    }
}

proof fn lemma_after_secret(
    stored: Stored,
    secret: Secret,
    clear: bool,
    value: Option<String>,
    exe: Seq<char>,
)
    ensures
        ({
            let kept = match secret {
                Secret::Asr => stored.asr_key,
                Secret::Llm => stored.llm_key,
            };
            let key = match value {
                Some(v) => Some(v@),
                None => if clear {
                    None
                } else {
                    kept
                },
            };
            stored.after(storage::secret_steps(secret, clear, value), exe) == match secret {
                Secret::Asr => Stored { asr_key: key, ..stored },
                Secret::Llm => Stored { llm_key: key, ..stored },
            }
        }),
{
    reveal_with_fuel(Stored::after, 3);
    let steps = storage::secret_steps(secret, clear, value);
    if steps.len() == 1 {
        assert(steps.drop_last() =~= Seq::<StepView>::empty());
    } else if steps.len() == 2 {
        assert(steps.drop_last().drop_last() =~= Seq::<StepView>::empty());
        assert(steps.drop_last().last() == steps[0]);
    }
}

// ─── Hotwords ──────────────────────────────────────────────────────────

/// Tidying hotwords neither mends nor breaks them: they are refused afterwards
/// exactly if they were before.
pub proof fn law_tidying_keeps_the_verdict(s: Seq<char>)
    ensures
        model::hotwords_fault(model::tidy_lines(s)) is None <==> model::hotwords_fault(s) is None,
{
    reveal_strlit("\n");
    let plain = text::replaced(s, "\r\n"@, "\n"@);
    let lines = text::lines_of(plain);
    let ends = lines.map_values(|l: Seq<char>| text::trimmed_end(l));
    lemma_replaced_is_sound(Seq::<char>::empty(), s);
    assert(Seq::<char>::empty() + s =~= s);
    assert(Seq::<char>::empty() + plain =~= plain);
    lemma_lines_are_sound(plain);
    text::lemma_lines_have_no_line_feed(plain);
    assert forall|i: int| 0 <= i < lines.len() implies sound(#[trigger] ends[i]) == fine(
        lines[i],
    ) by {
        assert(ends[i] == text::trimmed_end(lines[i]));
        assert(!lines[i].contains('\n'));
        lemma_trimmed_end_is_sound(lines[i]);
        lemma_one_line(lines[i]);
    }
    assert(all_sound(ends) == all_fine(lines)) by {
        if all_sound(ends) {
            assert forall|i: int| 0 <= i < lines.len() implies fine(#[trigger] lines[i]) by {
                assert(sound(ends[i]));
            }
        }
        if all_fine(lines) {
            assert forall|i: int| 0 <= i < ends.len() implies sound(#[trigger] ends[i]) by {
                assert(fine(lines[i]));
            }
        }
    }
    lemma_joined_is_sound(ends);
    lemma_trimmed_is_sound(text::joined(ends, "\n"@));
    lemma_verdict(s);
    lemma_verdict(model::tidy_lines(s));
}

/// Whether a line of hotwords is accepted.
spec fn fine(line: Seq<char>) -> bool {
    model::line_fault(line, 1) is None
}

spec fn all_fine(lines: Seq<Seq<char>>) -> bool {
    forall|i: int| 0 <= i < lines.len() ==> fine(#[trigger] lines[i])
}

/// Whether everything between the line feeds of a text is accepted.
spec fn sound(s: Seq<char>) -> bool
    decreases s.len(),
{
    let n = text::line_length(s) as int;
    if n >= s.len() {
        fine(s)
    } else {
        fine(s.take(n)) && sound(s.skip(n + 1))
    }
}

spec fn all_sound(parts: Seq<Seq<char>>) -> bool {
    forall|i: int| 0 <= i < parts.len() ==> sound(#[trigger] parts[i])
}

proof fn lemma_verdict(s: Seq<char>)
    ensures
        model::hotwords_fault(s) is None <==> sound(s),
{
    lemma_lines_are_sound(s);
    lemma_no_fault(text::lines_of(s), 0);
}

proof fn lemma_no_fault(lines: Seq<Seq<char>>, from: int)
    requires
        0 <= from <= lines.len(),
    ensures
        model::lines_fault(lines, from) is None <==> (forall|i: int|
            from <= i < lines.len() ==> fine(#[trigger] lines[i])),
    decreases lines.len() - from,
{
    if from < lines.len() {
        lemma_no_fault(lines, from + 1);
        assert(fine(lines[from]) == (model::line_fault(lines[from], (from + 1) as nat) is None));
    }
}

/// A line is judged by what is left of it without surrounding whitespace.
proof fn lemma_judged_trimmed(a: Seq<char>, b: Seq<char>)
    requires
        text::trimmed(a) == text::trimmed(b),
    ensures
        fine(a) == fine(b),
{
}

proof fn lemma_one_line(s: Seq<char>)
    requires
        !s.contains('\n'),
    ensures
        sound(s) == fine(s),
{
    text::lemma_line_length_is(s);
    let n = text::line_length(s) as int;
    if n < s.len() {
        assert(s.contains(s[n]));
    }
}

proof fn lemma_lines_are_sound(s: Seq<char>)
    ensures
        sound(s) <==> all_fine(text::lines_of(s)),
    decreases s.len(),
{
    text::lemma_line_length_is(s);
    let n = text::line_length(s) as int;
    let lines = text::lines_of(s);
    if s.len() == 0 {
        assert(text::trimmed(s).len() == 0);
    } else if n >= s.len() {
        assert(lines =~= seq![s]);
        if fine(s) {
            assert forall|i: int| 0 <= i < lines.len() implies fine(#[trigger] lines[i]) by {}
        } else {
            assert(lines[0] == s);
        }
    } else {
        let first = s.take(n);
        let rest = s.skip(n + 1);
        lemma_lines_are_sound(rest);
        let line = text::without_return(first);
        let others = text::lines_of(rest);
        assert(lines == seq![line] + others);
        assert(fine(line) == fine(first)) by {
            if line != first {
                assert(first =~= line.push(first.last()));
                lemma_trimmed_pushed(line, first.last());
                lemma_judged_trimmed(line, first);
            }
        }
        if sound(s) {
            assert forall|i: int| 0 <= i < lines.len() implies fine(#[trigger] lines[i]) by {
                if i > 0 {
                    assert(lines[i] == others[i - 1]);
                }
            }
        }
        if all_fine(lines) {
            assert(lines[0] == line);
            assert forall|i: int| 0 <= i < others.len() implies fine(#[trigger] others[i]) by {
                assert(others[i] == lines[i + 1]);
            }
        }
    }
}

/// Whitespace at the end does not count.
proof fn lemma_trimmed_pushed(s: Seq<char>, c: char)
    requires
        text::whitespace(c),
    ensures
        text::trimmed(s.push(c)) == text::trimmed(s),
    decreases s.len(),
{
    let longer = s.push(c);
    if s.len() == 0 {
        assert(longer.drop_first() =~= s);
    } else if text::whitespace(s.first()) {
        assert(longer.drop_first() =~= s.drop_first().push(c));
        lemma_trimmed_pushed(s.drop_first(), c);
    } else {
        assert(longer.first() == s.first());
        assert(longer.drop_last() =~= s);
    }
}

/// A line feed parts a text.
proof fn lemma_parted(a: Seq<char>, b: Seq<char>)
    ensures
        sound(a + seq!['\n'] + b) <==> sound(a) && sound(b),
    decreases a.len(),
{
    let whole = a + seq!['\n'] + b;
    text::lemma_line_length_is(a);
    text::lemma_line_length_is(whole);
    let n = text::line_length(a) as int;
    let m = text::line_length(whole) as int;
    assert(whole[a.len() as int] == '\n');
    if m < n {
        assert(whole[m] == a[m]);
    }
    if n < m {
        assert(n < a.len() ==> whole[n] == a[n]);
    }
    assert(n == m);
    if n < a.len() {
        let rest = a.skip(n + 1);
        assert(whole.take(n) =~= a.take(n));
        assert(whole.skip(n + 1) =~= rest + seq!['\n'] + b);
        lemma_parted(rest, b);
    } else {
        assert(whole.take(n) =~= a);
        assert(whole.skip(n + 1) =~= b);
    }
}

proof fn lemma_pushed_is_sound(s: Seq<char>, c: char)
    requires
        text::whitespace(c),
    ensures
        sound(s.push(c)) == sound(s),
    decreases s.len(),
{
    let none = Seq::<char>::empty();
    if c == '\n' {
        lemma_parted(s, none);
        assert(s + seq!['\n'] + none =~= s.push(c));
        assert(text::trimmed(none).len() == 0);
        assert(sound(none));
    } else {
        text::lemma_line_length_is(s);
        let n = text::line_length(s) as int;
        if n < s.len() {
            let first = s.take(n);
            let rest = s.skip(n + 1);
            lemma_pushed_is_sound(rest, c);
            lemma_parted(first, rest);
            lemma_parted(first, rest.push(c));
            assert(first + seq!['\n'] + rest =~= s);
            assert(first + seq!['\n'] + rest.push(c) =~= s.push(c));
        } else {
            assert(!s.contains('\n'));
            assert(!s.push(c).contains('\n')) by {
                if s.push(c).contains('\n') {
                    let i = choose|i: int| 0 <= i < s.push(c).len() && s.push(c)[i] == '\n';
                    assert(s[i] == '\n');
                }
            }
            lemma_one_line(s);
            lemma_one_line(s.push(c));
            lemma_trimmed_pushed(s, c);
            lemma_judged_trimmed(s.push(c), s);
        }
    }
}

proof fn lemma_first_is_sound(s: Seq<char>)
    requires
        s.len() > 0,
        text::whitespace(s.first()),
    ensures
        sound(s.drop_first()) == sound(s),
{
    let rest = s.drop_first();
    text::lemma_line_length_is(rest);
    let n = text::line_length(rest) as int;
    let none = Seq::<char>::empty();
    if s.first() == '\n' {
        lemma_parted(none, rest);
        assert(none + seq!['\n'] + rest =~= s);
        assert(text::trimmed(none).len() == 0);
        assert(sound(none));
    } else {
        assert(text::line_length(s) == n + 1);
        if n < rest.len() {
            assert(s.take(n + 1).drop_first() =~= rest.take(n));
            lemma_judged_trimmed(s.take(n + 1), rest.take(n));
            assert(s.skip(n + 2) =~= rest.skip(n + 1));
        } else {
            lemma_judged_trimmed(s, rest);
        }
    }
}

proof fn lemma_trimmed_end_is_sound(s: Seq<char>)
    ensures
        sound(text::trimmed_end(s)) == sound(s),
    decreases s.len(),
{
    if s.len() > 0 && text::whitespace(s.last()) {
        lemma_trimmed_end_is_sound(s.drop_last());
        lemma_pushed_is_sound(s.drop_last(), s.last());
        assert(s.drop_last().push(s.last()) =~= s);
    }
}

proof fn lemma_trimmed_is_sound(s: Seq<char>)
    ensures
        sound(text::trimmed(s)) == sound(s),
    decreases s.len(),
{
    if s.len() > 0 && text::whitespace(s.first()) {
        lemma_first_is_sound(s);
        lemma_trimmed_is_sound(s.drop_first());
    } else {
        lemma_trimmed_end_is_sound(s);
    }
}

proof fn lemma_joined_is_sound(parts: Seq<Seq<char>>)
    ensures
        sound(text::joined(parts, "\n"@)) <==> all_sound(parts),
    decreases parts.len(),
{
    reveal_strlit("\n");
    let whole = text::joined(parts, "\n"@);
    if parts.len() == 0 {
        assert(text::trimmed(whole).len() == 0);
    } else if parts.len() == 1 {
        if all_sound(parts) {
            assert(sound(parts[0]));
        }
    } else {
        let earlier = parts.drop_last();
        lemma_joined_is_sound(earlier);
        assert("\n"@ =~= seq!['\n']);
        lemma_parted(text::joined(earlier, "\n"@), parts.last());
        if all_sound(parts) {
            assert forall|i: int| 0 <= i < earlier.len() implies sound(#[trigger] earlier[i]) by {
                assert(earlier[i] == parts[i]);
            }
            assert(sound(parts[parts.len() - 1]));
        }
        if sound(whole) {
            assert forall|i: int| 0 <= i < parts.len() implies sound(#[trigger] parts[i]) by {
                if i < earlier.len() {
                    assert(earlier[i] == parts[i]);
                }
            }
        }
    }
}

/// The carriage returns before line feeds do not count, whatever stands before.
proof fn lemma_replaced_is_sound(before: Seq<char>, s: Seq<char>)
    ensures
        sound(before + text::replaced(s, "\r\n"@, "\n"@)) == sound(before + s),
    decreases s.len(),
{
    reveal_strlit("\r\n");
    reveal_strlit("\n");
    let from = "\r\n"@;
    if s.len() > 0 {
        if text::has_prefix(s, from) {
            let rest = s.skip(2);
            let tail = text::replaced(rest, from, "\n"@);
            let none = Seq::<char>::empty();
            assert(s.take(2)[0] == from[0] && s.take(2)[1] == from[1]);
            lemma_replaced_is_sound(none, rest);
            assert(none + tail =~= tail);
            assert(none + rest =~= rest);
            lemma_parted(before, tail);
            lemma_parted(before.push('\r'), rest);
            lemma_pushed_is_sound(before, '\r');
            assert(before + ("\n"@ + tail) =~= before + seq!['\n'] + tail);
            assert(before.push('\r') + seq!['\n'] + rest =~= before + s);
        } else {
            let rest = s.drop_first();
            let tail = text::replaced(rest, from, "\n"@);
            lemma_replaced_is_sound(before.push(s.first()), rest);
            assert(before + (seq![s.first()] + tail) =~= before.push(s.first()) + tail);
            assert(before.push(s.first()) + rest =~= before + s);
        }
    }
}

// ─── What tidying keeps ────────────────────────────────────────────────

/// The term of a line, if it has one.
spec fn term_of(line: Seq<char>) -> Seq<Seq<char>> {
    let term = text::trimmed(line);
    if term.len() == 0 || term[0] == '#' {
        seq![]
    } else {
        seq![term]
    }
}

/// The terms between the line feeds of a text.
spec fn found(s: Seq<char>) -> Seq<Seq<char>>
    decreases s.len(),
{
    let n = text::line_length(s) as int;
    if n >= s.len() {
        term_of(s)
    } else {
        term_of(s.take(n)) + found(s.skip(n + 1))
    }
}

/// The terms of several parts.
spec fn all_found(parts: Seq<Seq<char>>) -> Seq<Seq<char>>
    decreases parts.len(),
{
    if parts.len() == 0 {
        seq![]
    } else {
        all_found(parts.drop_last()) + found(parts.last())
    }
}

/// Tidying loses no term and adds none: the engine reads the same terms, in the
/// same order, from hotwords before and after.
pub proof fn law_tidying_keeps_the_terms(s: Seq<char>)
    ensures
        config::terms(text::lines_of(model::tidy_lines(s))) == config::terms(text::lines_of(s)),
{
    reveal_strlit("\n");
    let plain = text::replaced(s, "\r\n"@, "\n"@);
    let lines = text::lines_of(plain);
    let ends = lines.map_values(|l: Seq<char>| text::trimmed_end(l));
    lemma_replaced_is_found(Seq::<char>::empty(), s);
    assert(Seq::<char>::empty() + s =~= s);
    assert(Seq::<char>::empty() + plain =~= plain);
    text::lemma_lines_have_no_line_feed(plain);
    lemma_lines_are_found(plain);
    lemma_ends_are_found(lines);
    lemma_joined_is_found(ends);
    lemma_trimmed_is_found(text::joined(ends, "\n"@));
    lemma_lines_are_found(s);
    lemma_lines_are_found(model::tidy_lines(s));
}

proof fn lemma_ends_are_found(lines: Seq<Seq<char>>)
    requires
        forall|i: int| 0 <= i < lines.len() ==> !(#[trigger] lines[i]).contains('\n'),
    ensures
        all_found(lines.map_values(|l: Seq<char>| text::trimmed_end(l))) == config::terms(lines),
    decreases lines.len(),
{
    let trim = |l: Seq<char>| text::trimmed_end(l);
    let ends = lines.map_values(trim);
    if lines.len() == 0 {
        lemma_no_terms(lines);
    } else {
        let earlier = lines.drop_last();
        let last = lines.last();
        assert forall|i: int| 0 <= i < earlier.len() implies !(#[trigger] earlier[i]).contains(
            '\n',
        ) by {
            assert(earlier[i] == lines[i]);
        }
        lemma_ends_are_found(earlier);
        assert(ends.drop_last() =~= earlier.map_values(trim));
        assert(lines[lines.len() - 1] == last);
        lemma_trimmed_end_is_found(last);
        lemma_one_line_is_found(last);
        lemma_last_term(earlier, last);
        assert(earlier.push(last) =~= lines);
    }
}

proof fn lemma_no_terms(lines: Seq<Seq<char>>)
    requires
        lines.len() == 0,
    ensures
        config::terms(lines) == Seq::<Seq<char>>::empty(),
{
    reveal(Seq::filter);
    assert(config::terms(lines) =~= Seq::<Seq<char>>::empty());
}

proof fn lemma_last_term(lines: Seq<Seq<char>>, line: Seq<char>)
    ensures
        config::terms(lines.push(line)) == config::terms(lines) + term_of(line),
{
    let none = Seq::<Seq<char>>::empty();
    config::law_each_line_holds_a_term(lines, line, none);
    lemma_no_terms(none);
    assert(lines + seq![line] + none =~= lines.push(line));
    assert(config::terms(lines) + term_of(line) + none =~= config::terms(lines) + term_of(line));
}

proof fn lemma_first_term(line: Seq<char>, lines: Seq<Seq<char>>)
    ensures
        config::terms(seq![line] + lines) == term_of(line) + config::terms(lines),
{
    let none = Seq::<Seq<char>>::empty();
    config::law_each_line_holds_a_term(none, line, lines);
    lemma_no_terms(none);
    assert(none + seq![line] + lines =~= seq![line] + lines);
    assert(none + term_of(line) + config::terms(lines) =~= term_of(line) + config::terms(lines));
}

proof fn lemma_one_line_is_found(s: Seq<char>)
    requires
        !s.contains('\n'),
    ensures
        found(s) == term_of(s),
{
    text::lemma_line_length_is(s);
    let n = text::line_length(s) as int;
    if n < s.len() {
        assert(s.contains(s[n]));
    }
}

proof fn lemma_lines_are_found(s: Seq<char>)
    ensures
        found(s) == config::terms(text::lines_of(s)),
    decreases s.len(),
{
    text::lemma_line_length_is(s);
    let n = text::line_length(s) as int;
    let lines = text::lines_of(s);
    let none = Seq::<Seq<char>>::empty();
    if s.len() == 0 {
        assert(text::trimmed(s).len() == 0);
        lemma_no_terms(lines);
    } else if n >= s.len() {
        lemma_no_terms(none);
        lemma_first_term(s, none);
        assert(seq![s] + none =~= lines);
        assert(term_of(s) + none =~= term_of(s));
    } else {
        let first = s.take(n);
        let rest = s.skip(n + 1);
        lemma_lines_are_found(rest);
        let line = text::without_return(first);
        lemma_first_term(line, text::lines_of(rest));
        if line != first {
            assert(first =~= line.push(first.last()));
            lemma_trimmed_pushed(line, first.last());
        }
    }
}

/// A line feed parts a text.
proof fn lemma_parted_is_found(a: Seq<char>, b: Seq<char>)
    ensures
        found(a + seq!['\n'] + b) == found(a) + found(b),
    decreases a.len(),
{
    let whole = a + seq!['\n'] + b;
    text::lemma_line_length_is(a);
    text::lemma_line_length_is(whole);
    let n = text::line_length(a) as int;
    let m = text::line_length(whole) as int;
    assert(whole[a.len() as int] == '\n');
    if m < n {
        assert(whole[m] == a[m]);
    }
    if n < m {
        assert(n < a.len() ==> whole[n] == a[n]);
    }
    assert(n == m);
    if n < a.len() {
        let rest = a.skip(n + 1);
        assert(whole.take(n) =~= a.take(n));
        assert(whole.skip(n + 1) =~= rest + seq!['\n'] + b);
        lemma_parted_is_found(rest, b);
        assert(term_of(a.take(n)) + (found(rest) + found(b)) =~= term_of(a.take(n)) + found(rest)
            + found(b));
    } else {
        assert(whole.take(n) =~= a);
        assert(whole.skip(n + 1) =~= b);
    }
}

proof fn lemma_pushed_is_found(s: Seq<char>, c: char)
    requires
        text::whitespace(c),
    ensures
        found(s.push(c)) == found(s),
    decreases s.len(),
{
    let none = Seq::<char>::empty();
    assert(text::trimmed(none).len() == 0);
    assert(found(none) =~= Seq::<Seq<char>>::empty());
    if c == '\n' {
        lemma_parted_is_found(s, none);
        assert(s + seq!['\n'] + none =~= s.push(c));
        assert(found(s) + found(none) =~= found(s));
    } else {
        text::lemma_line_length_is(s);
        let n = text::line_length(s) as int;
        if n < s.len() {
            let first = s.take(n);
            let rest = s.skip(n + 1);
            lemma_pushed_is_found(rest, c);
            lemma_parted_is_found(first, rest);
            lemma_parted_is_found(first, rest.push(c));
            assert(first + seq!['\n'] + rest =~= s);
            assert(first + seq!['\n'] + rest.push(c) =~= s.push(c));
        } else {
            assert(!s.contains('\n'));
            assert(!s.push(c).contains('\n')) by {
                if s.push(c).contains('\n') {
                    let i = choose|i: int| 0 <= i < s.push(c).len() && s.push(c)[i] == '\n';
                    assert(s[i] == '\n');
                }
            }
            lemma_one_line_is_found(s);
            lemma_one_line_is_found(s.push(c));
            lemma_trimmed_pushed(s, c);
        }
    }
}

proof fn lemma_first_is_found(s: Seq<char>)
    requires
        s.len() > 0,
        text::whitespace(s.first()),
    ensures
        found(s.drop_first()) == found(s),
{
    let rest = s.drop_first();
    text::lemma_line_length_is(rest);
    let n = text::line_length(rest) as int;
    let none = Seq::<char>::empty();
    if s.first() == '\n' {
        lemma_parted_is_found(none, rest);
        assert(none + seq!['\n'] + rest =~= s);
        assert(text::trimmed(none).len() == 0);
        assert(found(none) =~= Seq::<Seq<char>>::empty());
        assert(found(none) + found(rest) =~= found(rest));
    } else {
        assert(text::line_length(s) == n + 1);
        if n < rest.len() {
            assert(s.take(n + 1).drop_first() =~= rest.take(n));
            assert(s.skip(n + 2) =~= rest.skip(n + 1));
        }
    }
}

proof fn lemma_trimmed_end_is_found(s: Seq<char>)
    ensures
        found(text::trimmed_end(s)) == found(s),
    decreases s.len(),
{
    if s.len() > 0 && text::whitespace(s.last()) {
        lemma_trimmed_end_is_found(s.drop_last());
        lemma_pushed_is_found(s.drop_last(), s.last());
        assert(s.drop_last().push(s.last()) =~= s);
    }
}

proof fn lemma_trimmed_is_found(s: Seq<char>)
    ensures
        found(text::trimmed(s)) == found(s),
    decreases s.len(),
{
    if s.len() > 0 && text::whitespace(s.first()) {
        lemma_first_is_found(s);
        lemma_trimmed_is_found(s.drop_first());
    } else {
        lemma_trimmed_end_is_found(s);
    }
}

proof fn lemma_joined_is_found(parts: Seq<Seq<char>>)
    ensures
        found(text::joined(parts, "\n"@)) == all_found(parts),
    decreases parts.len(),
{
    reveal_strlit("\n");
    let whole = text::joined(parts, "\n"@);
    if parts.len() == 0 {
        assert(text::trimmed(whole).len() == 0);
        assert(found(whole) =~= Seq::<Seq<char>>::empty());
    } else if parts.len() == 1 {
        assert(parts.drop_last() =~= Seq::<Seq<char>>::empty());
        assert(all_found(parts.drop_last()) =~= Seq::<Seq<char>>::empty());
        assert(all_found(parts) =~= found(parts[0]));
    } else {
        let earlier = parts.drop_last();
        lemma_joined_is_found(earlier);
        assert("\n"@ =~= seq!['\n']);
        lemma_parted_is_found(text::joined(earlier, "\n"@), parts.last());
    }
}

/// The carriage returns before line feeds do not count, whatever stands before.
proof fn lemma_replaced_is_found(before: Seq<char>, s: Seq<char>)
    ensures
        found(before + text::replaced(s, "\r\n"@, "\n"@)) == found(before + s),
    decreases s.len(),
{
    reveal_strlit("\r\n");
    reveal_strlit("\n");
    let from = "\r\n"@;
    if s.len() > 0 {
        if text::has_prefix(s, from) {
            let rest = s.skip(2);
            let tail = text::replaced(rest, from, "\n"@);
            let none = Seq::<char>::empty();
            assert(s.take(2)[0] == from[0] && s.take(2)[1] == from[1]);
            lemma_replaced_is_found(none, rest);
            assert(none + tail =~= tail);
            assert(none + rest =~= rest);
            lemma_parted_is_found(before, tail);
            lemma_parted_is_found(before.push('\r'), rest);
            lemma_pushed_is_found(before, '\r');
            assert(before + ("\n"@ + tail) =~= before + seq!['\n'] + tail);
            assert(before.push('\r') + seq!['\n'] + rest =~= before + s);
        } else {
            let rest = s.drop_first();
            let tail = text::replaced(rest, from, "\n"@);
            lemma_replaced_is_found(before.push(s.first()), rest);
            assert(before + (seq![s.first()] + tail) =~= before.push(s.first()) + tail);
            assert(before.push(s.first()) + rest =~= before + s);
        }
    }
}

/// A tidied text has no whitespace around it, and none before its line feeds but
/// for other line feeds; so no line ends in a carriage return.
pub proof fn law_tidied_text_is_tidy(s: Seq<char>)
    ensures
        ({
            let tidy = model::tidy_lines(s);
            &&& tidy.len() > 0 ==> !text::whitespace(tidy.first()) && !text::whitespace(
                tidy.last(),
            )
            &&& forall|i: int|
                0 < i < tidy.len() && #[trigger] tidy[i] == '\n' && text::whitespace(tidy[i - 1])
                    ==> tidy[i - 1] == '\n'
        }),
{
    lemma_tidy_lines_are_settled(s);
}

// ─── What normalisation keeps ──────────────────────────────────────────

/// Normalisation keeps what the settings say: switches stay as they are, names of
/// triggers and modes stay if they are known, and every text stays, without the
/// whitespace around it. Only what is blank or unknown becomes the default.
pub proof fn law_settings_keep_what_they_say(c: ConfigView)
    ensures
        ({
            let n = model::normalized(c);
            let asr_url =
                "https://dashscope.aliyuncs.com/api/v1/services/aigc/multimodal-generation/generation"@;
            let llm_url = "https://dashscope.aliyuncs.com/compatible-mode/v1"@;
            &&& n.llm_enabled == c.llm_enabled
            &&& n.instant_record == c.instant_record
            &&& n.hotwords == model::tidy_lines(c.hotwords)
            &&& says(n.lang, c.lang, "auto"@)
            &&& says(n.asr_url, c.asr_url, asr_url)
            &&& says(n.llm_url, c.llm_url, llm_url)
            &&& says(n.llm_model, c.llm_model, "qwen-flash"@)
            &&& says(n.input_device, c.input_device, "auto"@)
            &&& n.trigger == (if model::trigger_place(c.trigger) is Some {
                c.trigger
            } else {
                "right_alt"@
            })
            &&& n.mode == (if model::mode_place(c.mode) is Some {
                c.mode
            } else {
                "combo"@
            })
        }),
{
}

/// Whether `value` is what was said, without the whitespace around it, or the
/// default if nothing was said.
pub open spec fn says(value: Seq<char>, said: Seq<char>, default: Seq<char>) -> bool {
    value == (if text::trimmed(said).len() > 0 {
        text::trimmed(said)
    } else {
        default
    })
}

/// The settings of a fresh installation are what settings become that say
/// nothing, and they are fine.
pub proof fn law_defaults_are_what_silence_means(config: ConfigView)
    requires
        config.lang.len() == 0 && config.hotwords.len() == 0 && config.asr_url.len() == 0
            && config.llm_url.len() == 0 && config.llm_model.len() == 0
            && config.input_device.len() == 0 && config.trigger.len() == 0 && config.mode.len()
            == 0 && !config.llm_enabled && !config.instant_record,
    ensures
        model::normalized(config) == model::default_config(),
        model::config_fault(model::default_config()) is None,
        model::hotkey_of(model::default_config()) == (hotkey::Config {
            trigger: hotkey::Trigger::RightAlt,
            mode: hotkey::Mode::Combo,
        }),
        model::choice_of(model::default_config().input_device) is None,
{
    reveal_strlit("auto");
    reveal_strlit("\r\n");
    let none = Seq::<char>::empty();
    assert(config.hotwords =~= none);
    assert(text::replaced(none, "\r\n"@, "\n"@) == none);
    assert(text::lines_of(none).map_values(|l: Seq<char>| text::trimmed_end(l)) =~= Seq::<
        Seq<char>,
    >::empty());
    assert(model::tidy_lines(none) =~= none);
    model::law_places_and_names_match(0, config.trigger);
    model::law_places_and_names_match(0, config.mode);
    law_names_stand_for_keys();
    assert(model::trigger_place(config.trigger) is None) by {
        if let Some(p) = model::trigger_place(config.trigger) {
            assert(0 <= p < 9);
            lemma_names_are_long(p);
        }
    }
    assert(model::mode_place(config.mode) is None) by {
        if let Some(p) = model::mode_place(config.mode) {
            assert(0 <= p < 3);
            lemma_names_are_long(p);
        }
    }
    law_normal_settings_lack_nothing(config);
    assert(model::normalized(config) =~= model::default_config());
    assert(text::lines_of(none) =~= Seq::<Seq<char>>::empty());
    assert(model::trigger_name_at(0) == "right_alt"@);
    assert(model::mode_name_at(0) == "combo"@);
    text::lemma_trimmed_already("auto"@);
}

proof fn lemma_names_are_long(i: int)
    ensures
        model::trigger_name_at(i).len() > 0,
        model::mode_name_at(i).len() > 0,
{
    reveal_strlit("right_alt");
    reveal_strlit("left_alt");
    reveal_strlit("right_ctrl");
    reveal_strlit("left_ctrl");
    reveal_strlit("right_shift");
    reveal_strlit("left_shift");
    reveal_strlit("right_win");
    reveal_strlit("left_win");
    reveal_strlit("caps_lock");
    reveal_strlit("combo");
    reveal_strlit("hold");
    reveal_strlit("tap");
}

/// The lists of triggers and modes, by place, by name and by key.
pub proof fn law_names_stand_for_keys()
    ensures
        model::trigger_at(0) == hotkey::Trigger::RightAlt && model::trigger_name_at(0)
            == "right_alt"@,
        model::trigger_at(1) == hotkey::Trigger::LeftAlt && model::trigger_name_at(1)
            == "left_alt"@,
        model::trigger_at(2) == hotkey::Trigger::RightCtrl && model::trigger_name_at(2)
            == "right_ctrl"@,
        model::trigger_at(3) == hotkey::Trigger::LeftCtrl && model::trigger_name_at(3)
            == "left_ctrl"@,
        model::trigger_at(4) == hotkey::Trigger::RightShift && model::trigger_name_at(4)
            == "right_shift"@,
        model::trigger_at(5) == hotkey::Trigger::LeftShift && model::trigger_name_at(5)
            == "left_shift"@,
        model::trigger_at(6) == hotkey::Trigger::RightWin && model::trigger_name_at(6)
            == "right_win"@,
        model::trigger_at(7) == hotkey::Trigger::LeftWin && model::trigger_name_at(7)
            == "left_win"@,
        model::trigger_at(8) == hotkey::Trigger::CapsLock && model::trigger_name_at(8)
            == "caps_lock"@,
        model::mode_at(0) == hotkey::Mode::Combo && model::mode_name_at(0) == "combo"@,
        model::mode_at(1) == hotkey::Mode::Hold && model::mode_name_at(1) == "hold"@,
        model::mode_at(2) == hotkey::Mode::Tap && model::mode_name_at(2) == "tap"@,
        forall|name: Seq<char>|
            #![trigger model::trigger_place(name)]
            model::trigger_place(name) matches Some(p) ==> 0 <= p < 9,
        forall|name: Seq<char>|
            #![trigger model::mode_place(name)]
            model::mode_place(name) matches Some(p) ==> 0 <= p < 3,
{
}

/// The hotkey is the one that the settings name, and the default where they name
/// none that is known.
pub proof fn law_the_hotkey_is_the_one_named(config: ConfigView, i: int, j: int)
    ensures
        0 <= i < 9 && config.trigger == model::trigger_name_at(i) ==> model::hotkey_of(
            config,
        ).trigger == model::trigger_at(i),
        0 <= j < 3 && config.mode == model::mode_name_at(j) ==> model::hotkey_of(config).mode
            == model::mode_at(j),
        model::trigger_place(config.trigger) is None ==> model::hotkey_of(config).trigger
            == hotkey::Trigger::RightAlt,
        model::mode_place(config.mode) is None ==> model::hotkey_of(config).mode
            == hotkey::Mode::Combo,
{
    model::law_places_and_names_match(i, config.trigger);
    model::law_places_and_names_match(j, config.mode);
}

/// The microphone is the default exactly if the settings name none, or say `auto`
/// in any case; otherwise it is the one that they name.
pub proof fn law_the_device_is_the_one_named(raw: Seq<char>)
    ensures
        ({
            let name = text::trimmed(raw);
            &&& model::choice_of(raw) is None <==> name.len() == 0 || text::same_but_case(
                name,
                "auto"@,
            )
            &&& model::choice_of(raw) matches Some(chosen) ==> chosen == name
            &&& model::stored_choice(Some(raw)) == raw
            &&& model::stored_choice(None) == "auto"@
        }),
{
}

// ─── What is refused ───────────────────────────────────────────────────

/// Whether a line of hotwords is accepted: it is blank or a comment, or it holds
/// letters, digits, single spaces and `-_.+#` only, in any script.
pub open spec fn acceptable(line: Seq<char>) -> bool {
    let term = text::trimmed(line);
    ||| term.len() == 0
    ||| term[0] == '#'
    ||| {
        &&& forall|i: int|
            0 <= i < term.len() ==> model::alphanumeric(#[trigger] term[i]) || term[i] == ' '
                || term[i] == '-' || term[i] == '_' || term[i] == '.' || term[i] == '+' || term[i]
                == '#'
        &&& forall|i: int|
            0 <= i < term.len() - 1 && #[trigger] term[i] == ' ' ==> term[i + 1] != ' '
    }
}

/// Hotwords are refused exactly if a line of them is not acceptable, and the
/// complaint is about the first such line, by its number. Returns the place of
/// that line, or how many lines there are.
pub proof fn law_the_first_bad_line_is_named(content: Seq<char>) -> (k: int)
    ensures
        ({
            let lines = text::lines_of(content);
            let fault = model::hotwords_fault(content);
            &&& 0 <= k <= lines.len()
            &&& forall|i: int| 0 <= i < k ==> acceptable(#[trigger] lines[i])
            &&& k == lines.len() ==> fault is None
            &&& k < lines.len() ==> !acceptable(lines[k]) && (fault matches Some(what)
                && text::has_prefix(what, "Hotword line "@ + text::decimal((k + 1) as nat)))
        }),
{
    lemma_first_bad(text::lines_of(content), 0)
}

proof fn lemma_first_bad(lines: Seq<Seq<char>>, from: int) -> (k: int)
    requires
        0 <= from <= lines.len(),
    ensures
        from <= k <= lines.len(),
        forall|i: int| from <= i < k ==> acceptable(#[trigger] lines[i]),
        k == lines.len() ==> model::lines_fault(lines, from) is None,
        k < lines.len() ==> !acceptable(lines[k]) && (model::lines_fault(lines, from) matches Some(
            what,
        ) && text::has_prefix(what, "Hotword line "@ + text::decimal((k + 1) as nat))),
    decreases lines.len() - from,
{
    if from >= lines.len() {
        from
    } else {
        lemma_line_is_acceptable(lines[from], (from + 1) as nat);
        if model::line_fault(lines[from], (from + 1) as nat) is Some {
            from
        } else {
            lemma_first_bad(lines, from + 1)
        }
    }
}

proof fn lemma_line_is_acceptable(line: Seq<char>, number: nat)
    ensures
        acceptable(line) <==> model::line_fault(line, number) is None,
        model::line_fault(line, number) matches Some(what) ==> text::has_prefix(
            what,
            "Hotword line "@ + text::decimal(number),
        ),
{
    let term = text::trimmed(line);
    let start = "Hotword line "@ + text::decimal(number);
    if let Some(what) = model::line_fault(line, number) {
        assert(what.take(start.len() as int) =~= start);
    }
    lemma_all_allowed(term);
    reveal_strlit("  ");
    if text::occurs(term, "  "@) {
        let i = choose|i: int| text::occurs_at(term, "  "@, i);
        let pair = term.subrange(i, i + 2);
        assert(pair[0] == term[i] && pair[1] == term[i + 1]);
        assert(term[i] == ' ' && term[i + 1] == ' ');
    } else {
        assert forall|i: int| 0 <= i < term.len() - 1 && #[trigger] term[i] == ' ' implies term[i
            + 1] != ' ' by {
            if term[i + 1] == ' ' {
                assert(term.subrange(i, i + 2) =~= "  "@);
                assert(text::occurs_at(term, "  "@, i));
            }
        }
    }
}

proof fn lemma_all_allowed(term: Seq<char>)
    ensures
        model::first_refused(term) is None <==> forall|i: int|
            0 <= i < term.len() ==> model::allowed(#[trigger] term[i]),
        model::first_refused(term) matches Some(c) ==> term.contains(c) && !model::allowed(c),
    decreases term.len(),
{
    if term.len() > 0 {
        let rest = term.drop_first();
        assert(term[0] == term.first());
        if model::allowed(term.first()) {
            lemma_all_allowed(rest);
            if model::first_refused(rest) is None {
                assert forall|i: int| 0 <= i < term.len() implies model::allowed(
                    #[trigger] term[i],
                ) by {
                    if i > 0 {
                        assert(rest[i - 1] == term[i]);
                    }
                }
            } else {
                let c = model::first_refused(rest)->0;
                let i = choose|i: int| 0 <= i < rest.len() && rest[i] == c;
                assert(term[i + 1] == c);
            }
        }
    }
}

/// A complaint about a character names one that is in the line and not allowed.
pub proof fn law_a_refused_character_is_in_the_line(line: Seq<char>, number: nat)
    ensures
        model::first_refused(text::trimmed(line)) matches Some(c) ==> {
            &&& text::trimmed(line).contains(c)
            &&& !model::alphanumeric(c)
            &&& text::trimmed(line)[0] != '#' ==> model::line_fault(line, number) == Some(
                "Hotword line "@ + text::decimal(number) + ": character '"@ + seq![c]
                    + "' not allowed. Use letters, digits, spaces, and - _ . + # only - one term per line."@,
            )
        },
{
    lemma_all_allowed(text::trimmed(line));
}

/// Settings are refused exactly for a language or an address that is blank, for
/// hotwords that are refused, and, with cleanup on, for an address or a model that
/// is blank. The complaint is about the first of these.
pub proof fn law_settings_are_refused_for_what_they_lack(config: ConfigView)
    ensures
        ({
            let fault = model::config_fault(config);
            let bad_words = model::hotwords_fault(config.hotwords);
            let no_lang = blank(config.lang);
            let no_asr = blank(config.asr_url);
            let no_llm = config.llm_enabled && blank(config.llm_url);
            let no_model = config.llm_enabled && blank(config.llm_model);
            &&& fault is None <==> !no_lang && !no_asr && bad_words is None && !no_llm && !no_model
            &&& no_lang ==> fault == Some("ASR language cannot be empty"@)
            &&& !no_lang && no_asr ==> fault == Some("ASR base URL cannot be empty"@)
            &&& !no_lang && !no_asr && bad_words is Some ==> fault == bad_words
            &&& !no_lang && !no_asr && bad_words is None && no_llm ==> fault == Some(
                "LLM base URL cannot be empty when cleanup is enabled"@,
            )
            &&& !no_lang && !no_asr && bad_words is None && !no_llm && no_model ==> fault == Some(
                "LLM model cannot be empty when cleanup is enabled"@,
            )
        }),
{
    lemma_blank(config.lang);
    lemma_blank(config.asr_url);
    lemma_blank(config.llm_url);
    lemma_blank(config.llm_model);
}

/// Whether a text is nothing but whitespace.
pub open spec fn blank(s: Seq<char>) -> bool {
    forall|i: int| 0 <= i < s.len() ==> text::whitespace(#[trigger] s[i])
}

proof fn lemma_blank(s: Seq<char>)
    ensures
        blank(s) <==> text::trimmed(s).len() == 0,
{
    let (from, to) = text::law_trimming_takes_the_whitespace_off(s);
    if from < to {
        assert(!text::whitespace(s[from]));
    }
}

// ─── Choosing a microphone ─────────────────────────────────────────────

/// Saving a choice of microphone changes nothing but the microphone: the settings
/// that load afterwards are those in force before, with that device.
pub proof fn law_choosing_a_device_changes_only_that(
    stored: Stored,
    choice: Option<Seq<char>>,
    exe: Seq<char>,
)
    requires
        choice matches Some(name) ==> {
            &&& name.len() > 0
            &&& text::trimmed(name) == name
            &&& !text::same_but_case(name, "auto"@)
        },
    ensures
        ({
            let before = storage::in_force(stored.config);
            let written = ConfigView { input_device: model::stored_choice(choice), ..before };
            let saved = stored.after(storage::config_steps(written), exe);
            let after = storage::in_force(saved.config);
            &&& model::choice_of(after.input_device) == choice
            &&& after == ConfigView { input_device: after.input_device, ..before }
            &&& saved.asr_key == stored.asr_key
            &&& saved.llm_key == stored.llm_key
            &&& saved.autostart == stored.autostart
        }),
{
    let before = storage::in_force(stored.config);
    let written = ConfigView { input_device: model::stored_choice(choice), ..before };
    let steps = storage::config_steps(written);
    reveal_with_fuel(Stored::after, 4);
    reveal_strlit("auto");
    assert(steps.drop_last().drop_last().drop_last() =~= Seq::<StepView>::empty());
    assert(steps.drop_last().last() == steps[1]);
    assert(steps.drop_last().drop_last().last() == steps[0]);
    assert(model::normalized(before) == before) by {
        match stored.config {
            Some(config) => law_normalising_twice_changes_nothing(config),
            None => {
                let silent = ConfigView {
                    lang: seq![],
                    hotwords: seq![],
                    asr_url: seq![],
                    llm_enabled: false,
                    llm_url: seq![],
                    llm_model: seq![],
                    input_device: seq![],
                    instant_record: false,
                    trigger: seq![],
                    mode: seq![],
                };
                law_defaults_are_what_silence_means(silent);
                law_normalising_twice_changes_nothing(silent);
            },
        }
    }
    text::lemma_trimmed_already("auto"@);
    model::law_device_choice_reads_back(choice);
    assert(model::normalized(written) =~= written);
}

/// The hotword file is there exactly if there is more than whitespace to write,
/// and holds it without the whitespace around it. What is in force is the stored
/// settings in their normal form, or the defaults; autostart is on exactly if its
/// value is more than zeros.
pub proof fn law_what_is_stored_is_in_force(
    raw: Seq<char>,
    config: ConfigView,
    value: Seq<u16>,
)
    ensures
        storage::support_contents(raw) is None <==> blank(raw),
        storage::support_contents(raw) matches Some(s) ==> s == text::trimmed(raw),
        storage::in_force(Some(config)) == model::normalized(config),
        storage::in_force(None) == model::default_config(),
        !storage::turns_on(None),
        storage::turns_on(Some(value)) <==> exists|i: int|
            0 <= i < value.len() && #[trigger] value[i] != 0,
{
    lemma_blank(raw);
    let n = wide::law_only_zeros_come_off(value);
    let kept = wide::without_zeros(value);
    let zeros = Seq::new(n, |i: int| 0u16);
    assert(value == kept + zeros);
    if kept.len() > 0 {
        assert(value[kept.len() - 1] == kept.last());
    } else {
        assert forall|i: int| 0 <= i < value.len() implies #[trigger] value[i] == 0 by {
            assert(value[i] == zeros[i]);
        }
    }
}

} // verus!
