//! Parameters of one session.

use crate::engine::config::CoreConfig;
use crate::text;
use vstd::prelude::*;

verus! {

/// Parameters of one pipeline run, resolved from the opening request and the
/// engine's defaults. No language asks for detection; no context means that
/// neither the hotwords nor the session had anything to contribute.
#[derive(Debug, Clone)]
pub struct SessionParams {
    pub language: Option<String>,
    pub context: Option<String>,
    pub enable_itn: bool,
    pub llm_enabled: bool,
}

/// The parameters with their texts as characters.
#[verifier::ext_equal]
pub struct ParamsView {
    pub language: Option<Seq<char>>,
    pub context: Option<Seq<char>>,
    pub enable_itn: bool,
    pub llm_enabled: bool,
}

impl View for SessionParams {
    type V = ParamsView;

    open spec fn view(&self) -> ParamsView {
        ParamsView {
            language: optional_text(self.language),
            context: optional_text(self.context),
            enable_itn: self.enable_itn,
            llm_enabled: self.llm_enabled,
        }
    }
}

/// The characters of an optional string.
pub open spec fn optional_text(s: Option<String>) -> Option<Seq<char>> {
    match s {
        Some(s) => Some(s@),
        None => None,
    }
}

/// Whether a language tag asks for detection.
pub open spec fn asks_detection(tag: Seq<char>) -> bool {
    tag.len() == 0 || tag == "auto"@
}

/// The session's language if it names one, else the default; a tag that asks
/// for detection pins none.
pub open spec fn resolved_language(default: Seq<char>, wanted: Option<Seq<char>>) -> Option<
    Seq<char>,
> {
    let tag = match wanted {
        Some(tag) => tag,
        None => default,
    };
    if asks_detection(tag) {
        None
    } else {
        Some(tag)
    }
}

/// The hotwords as a labelled list. The label is English when the language is
/// pinned to English, and Chinese otherwise.
pub open spec fn labelled_hotwords(hotwords: Seq<Seq<char>>, language: Option<Seq<char>>) -> Seq<
    char,
> {
    let label = if language == Some("en"@) {
        "Preserve spelling: "@
    } else {
        "拼写保留："@
    };
    label + text::joined(hotwords, ", "@)
}

/// The labelled hotwords, then the session's own context on a new line. An
/// empty context counts as none.
pub open spec fn merged_context(
    hotwords: Seq<Seq<char>>,
    language: Option<Seq<char>>,
    own: Option<Seq<char>>,
) -> Option<Seq<char>> {
    let own_text = match own {
        Some(c) => c,
        None => seq![],
    };
    if hotwords.len() == 0 {
        if own_text.len() == 0 {
            None
        } else {
            Some(own_text)
        }
    } else if own_text.len() == 0 {
        Some(labelled_hotwords(hotwords, language))
    } else {
        Some(labelled_hotwords(hotwords, language) + "\n"@ + own_text)
    }
}

/// What a session runs with, from the engine's configuration and its own
/// wishes. Cleanup needs both sides.
pub open spec fn resolved_params(
    config: CoreConfig,
    context: Option<Seq<char>>,
    language: Option<Seq<char>>,
    enable_itn: Option<bool>,
    enable_llm: Option<bool>,
) -> ParamsView {
    let pinned = resolved_language(config.asr_default_language@, language);
    ParamsView {
        language: pinned,
        context: merged_context(text::texts(config.hotwords@), pinned, context),
        enable_itn: match enable_itn {
            Some(wanted) => wanted,
            None => config.asr_default_enable_itn,
        },
        llm_enabled: config.llm_enabled && enable_llm != Some(false),
    }
}

/// Whether a session asks for cleanup that is not available: it then goes
/// without.
pub open spec fn is_downgrade(config: CoreConfig, enable_llm: Option<bool>) -> bool {
    enable_llm == Some(true) && !config.llm_enabled
}

/// Tells whether [`SessionParams::resolve`] leaves out cleanup that a session
/// asks for, so that it can be noted.
pub fn downgrades(config: &CoreConfig, enable_llm: Option<bool>) -> (r: bool)
    ensures
        r == is_downgrade(*config, enable_llm),
{
    match enable_llm {
        Some(wanted) => wanted && !config.llm_enabled,
        None => false,
    }
}

fn pins_language(tag: &str) -> (r: bool)
    ensures
        r == !asks_detection(tag@),
{
    !tag.is_empty() && !text::same(tag, "auto")
}

impl SessionParams {
    /// Resolves a session's parameters. Cleanup that was asked for but is not
    /// available is left out without an error.
    pub fn resolve(
        config: &CoreConfig,
        per_session_context: Option<String>,
        per_session_language: Option<String>,
        per_session_enable_itn: Option<bool>,
        per_session_enable_llm: Option<bool>,
    ) -> (r: Self)
        ensures
            r@ == resolved_params(
                *config,
                optional_text(per_session_context),
                optional_text(per_session_language),
                per_session_enable_itn,
                per_session_enable_llm,
            ),
    {
        let tag = match per_session_language {
            Some(tag) => tag,
            None => config.asr_default_language.clone(),
        };
        let language = if pins_language(tag.as_str()) {
            Some(tag)
        } else {
            None
        };

        let english = match &language {
            Some(tag) => text::same(tag.as_str(), "en"),
            None => false,
        };
        let own = match per_session_context {
            Some(c) => c,
            None => String::new(),
        };
        let context = if config.hotwords.is_empty() {
            if own.as_str().is_empty() {
                None
            } else {
                Some(own)
            }
        } else {
            let label = if english {
                "Preserve spelling: "
            } else {
                "拼写保留："
            };
            let list = text::join(config.hotwords.as_slice(), ", ");
            let hotwords = label.to_owned().concat(list.as_str());
            if own.as_str().is_empty() {
                Some(hotwords)
            } else {
                Some(hotwords.concat("\n").concat(own.as_str()))
            }
        };

        let enable_itn = match per_session_enable_itn {
            Some(wanted) => wanted,
            None => config.asr_default_enable_itn,
        };
        let llm_enabled = match per_session_enable_llm {
            Some(wanted) => wanted && config.llm_enabled,
            None => config.llm_enabled,
        };
        SessionParams { language, context, enable_itn, llm_enabled }
    }
}

/// The cleanup prompt with the context behind it, if there is any.
pub open spec fn prompt_with_context(base: Seq<char>, context: Option<Seq<char>>) -> Seq<char> {
    match context {
        Some(c) => if c.len() > 0 {
            base + "\n\nContext:\n"@ + c
        } else {
            base
        },
        None => base,
    }
}

/// Appends the context to the cleanup prompt as a labelled block.
pub fn build_llm_prompt(base: &str, context: Option<&str>) -> (r: String)
    ensures
        r@ == prompt_with_context(
            base@,
            match context {
                Some(c) => Some(c@),
                None => None,
            },
        ),
{
    match context {
        Some(c) => if !c.is_empty() {
            base.to_owned().concat("\n\nContext:\n").concat(c)
        } else {
            base.to_owned()
        },
        None => base.to_owned(),
    }
}

// ─── Laws ──────────────────────────────────────────────────────────────

/// A language that a session names is the one it runs with, whatever the
/// default. One that asks for detection pins none, whatever the default. A
/// session that names none runs as if it had named the default.
pub proof fn law_the_session_chooses_its_language(default: Seq<char>, tag: Seq<char>)
    ensures
        tag != "auto"@ && tag.len() > 0 ==> resolved_language(default, Some(tag)) == Some(tag),
        resolved_language(default, Some("auto"@)) is None,
        resolved_language(default, Some(seq![])) is None,
        resolved_language(default, None) == resolved_language(tag, Some(default)),
{
}

/// The context loses nothing: it starts with the hotwords, all of them in order
/// behind a label in the session's language, and ends with the session's own
/// context, on a line of its own. There is none only if there was nothing to say.
pub proof fn law_the_context_holds_everything(
    hotwords: Seq<Seq<char>>,
    language: Option<Seq<char>>,
    own: Option<Seq<char>>,
)
    ensures
        ({
            let context = merged_context(hotwords, language, own);
            let list = text::joined(hotwords, ", "@);
            let label = if language == Some("en"@) {
                "Preserve spelling: "@
            } else {
                "拼写保留："@
            };
            let own_len = match own {
                Some(c) => c.len(),
                None => 0,
            };
            &&& context is None <==> hotwords.len() == 0 && own_len == 0
            &&& context matches Some(c) ==> {
                &&& hotwords.len() > 0 ==> text::has_prefix(c, label) && text::occurs_at(
                    c,
                    list,
                    label.len() as int,
                )
                &&& own_len > 0 ==> text::occurs_at(c, own->0, c.len() - own_len)
                &&& hotwords.len() > 0 && own_len > 0 ==> c[c.len() - own_len - 1] == '\n'
                &&& c.len() == own_len + (if hotwords.len() > 0 {
                    label.len() + list.len() + (if own_len > 0 {
                        1nat
                    } else {
                        0
                    })
                } else {
                    0
                })
            }
        }),
{
    reveal_strlit("\n");
    let list = text::joined(hotwords, ", "@);
    let label = if language == Some("en"@) {
        "Preserve spelling: "@
    } else {
        "拼写保留："@
    };
    match merged_context(hotwords, language, own) {
        Some(c) => {
            if hotwords.len() > 0 {
                assert(c.take(label.len() as int) =~= label);
                assert(c.subrange(label.len() as int, (label.len() + list.len()) as int) =~= list);
            }
            if let Some(o) = own {
                assert(o.len() > 0 ==> c.subrange(c.len() - o.len(), c.len() as int) =~= o);
            }
        },
        None => {},
    }
}

/// A session has cleanup exactly if it is available and the session does not
/// decline it; one that asks for it in vain is a downgrade. Its own wish on
/// normalisation goes before the default.
pub proof fn law_wishes_go_before_defaults(
    config: CoreConfig,
    context: Option<Seq<char>>,
    language: Option<Seq<char>>,
    enable_itn: Option<bool>,
    enable_llm: Option<bool>,
)
    ensures
        ({
            let params = resolved_params(config, context, language, enable_itn, enable_llm);
            &&& params.llm_enabled <==> config.llm_enabled && enable_llm != Some(false)
            &&& is_downgrade(config, enable_llm) <==> enable_llm == Some(true)
                && !params.llm_enabled
            &&& enable_itn matches Some(wanted) ==> params.enable_itn == wanted
            &&& enable_itn is None ==> params.enable_itn == config.asr_default_enable_itn
            &&& params.language == resolved_language(config.asr_default_language@, language)
            &&& params.context == merged_context(
                text::texts(config.hotwords@),
                params.language,
                context,
            )
        }),
{
}

/// The prompt of a cleanup call starts with the prompt that was set up. A context
/// stands at its end, behind a heading; without one nothing is added.
pub proof fn law_the_prompt_holds_the_context(base: Seq<char>, context: Option<Seq<char>>)
    ensures
        ({
            let prompt = prompt_with_context(base, context);
            let heading = "\n\nContext:\n"@;
            &&& text::has_prefix(prompt, base)
            &&& context is None ==> prompt == base
            &&& context matches Some(c) ==> {
                &&& c.len() == 0 ==> prompt == base
                &&& c.len() > 0 ==> {
                    &&& text::occurs_at(prompt, heading, base.len() as int)
                    &&& text::occurs_at(prompt, c, (base.len() + heading.len()) as int)
                    &&& prompt.len() == base.len() + heading.len() + c.len()
                }
            }
        }),
{
    let prompt = prompt_with_context(base, context);
    let heading = "\n\nContext:\n"@;
    assert(prompt.take(base.len() as int) =~= base);
    if let Some(c) = context {
        if c.len() > 0 {
            let at = base.len() as int;
            let behind = at + heading.len();
            assert(prompt.subrange(at, behind) =~= heading);
            assert(prompt.subrange(behind, behind + c.len()) =~= c);
        }
    }
}

/// The model's parameters are those of the session, each in its place.
pub proof fn law_parameters_are_modelled_one_for_one(p: SessionParams)
    ensures
        p.language is None ==> p@.language is None,
        p.language matches Some(tag) ==> p@.language == Some(tag@),
        p.context is None ==> p@.context is None,
        p.context matches Some(context) ==> p@.context == Some(context@),
        p@.enable_itn == p.enable_itn,
        p@.llm_enabled == p.llm_enabled,
{
}

} // verus!
