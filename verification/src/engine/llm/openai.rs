//! Cleanup through an OpenAI-compatible chat endpoint: what a request holds
//! and what a reply means.
//!
//! Sending the request and decoding the reply's JSON are the caller's.

use crate::engine::asr::ProviderError;
use crate::engine::asr::qwen::{self, SHOWN_CHARS};
use crate::engine::llm::LlmOutput;
use crate::engine::util::{truncate, CUT_MARK};
use crate::json::{self, set_field, Json, JsonView};
use crate::proto::LlmUsage;
use crate::text;
use vstd::prelude::*;

verus! {

/// Where and how cleanup is asked for.
#[derive(Debug, Clone)]
pub struct OpenAiConfig {
    pub base_url: String,
    pub api_key: String,
    pub model: String,
    /// Name of the field that limits the reply's length; providers differ.
    pub max_token_param: String,
    pub timeout_ms: u64,
}

// ─── Request ───────────────────────────────────────────────────────────

/// The address of the endpoint.
pub open spec fn endpoint(base_url: Seq<char>) -> Seq<char> {
    text::without_trailing(base_url, '/') + "/chat/completions"@
}

pub fn chat_url(base_url: &str) -> (r: String)
    ensures
        r@ == endpoint(base_url@),
{
    text::trim_end_char(base_url, '/').concat("/chat/completions")
}

/// A message of the conversation.
pub open spec fn chat_message(role: Seq<char>, content: Seq<char>) -> JsonView {
    JsonView::Object(
        seq![("role"@, JsonView::Text(role)), ("content"@, JsonView::Text(content))],
    )
}

/// The fields of the request body. A field that is set twice keeps the later
/// value.
pub open spec fn chat_fields(
    model: Seq<char>,
    max_token_param: Seq<char>,
    prompt: Seq<char>,
    text: Seq<char>,
) -> Seq<(Seq<char>, JsonView)> {
    let fixed = seq![
        ("model"@, JsonView::Text(model)),
        (
            "messages"@,
            JsonView::List(seq![chat_message("system"@, prompt), chat_message("user"@, text)]),
        ),
        ("stream"@, JsonView::Bool(false)),
        ("temperature"@, JsonView::Number("0.2"@)),
    ];
    json::with_field(
        json::with_field(fixed, max_token_param, JsonView::Number("4096"@)),
        "enable_thinking"@,
        JsonView::Bool(false),
    )
}

fn build_chat_message(role: &str, content: &str) -> (r: Json)
    ensures
        r@ == chat_message(role@, content@),
{
    let mut fields: Vec<(String, Json)> = Vec::new();
    fields.push(("role".to_owned(), Json::text(role)));
    fields.push(("content".to_owned(), Json::text(content)));
    assert(json::field_views(fields@) =~= chat_message(role@, content@)->Object_0);
    Json::object(fields)
}

/// The body of the request that has `text` cleaned up under `system_prompt`.
pub fn build_request(config: &OpenAiConfig, text: &str, system_prompt: &str) -> (r: Json)
    ensures
        r@ == JsonView::Object(
            chat_fields(config.model@, config.max_token_param@, system_prompt@, text@),
        ),
{
    let mut list: Vec<Json> = Vec::new();
    list.push(build_chat_message("system", system_prompt));
    list.push(build_chat_message("user", text));
    assert(list@.map_values(|j: Json| j@) =~= seq![
        chat_message("system"@, system_prompt@),
        chat_message("user"@, text@),
    ]);
    let mut fields: Vec<(String, Json)> = Vec::new();
    fields.push(("model".to_owned(), Json::text(config.model.as_str())));
    fields.push(("messages".to_owned(), Json::list(list)));
    fields.push(("stream".to_owned(), Json::Bool(false)));
    fields.push(("temperature".to_owned(), Json::number("0.2")));
    assert(json::field_views(fields@) =~= seq![
        ("model"@, JsonView::Text(config.model@)),
        (
            "messages"@,
            JsonView::List(
                seq![chat_message("system"@, system_prompt@), chat_message("user"@, text@)],
            ),
        ),
        ("stream"@, JsonView::Bool(false)),
        ("temperature"@, JsonView::Number("0.2"@)),
    ]);
    set_field(&mut fields, config.max_token_param.as_str(), Json::number("4096"));
    set_field(&mut fields, "enable_thinking", Json::Bool(false));
    Json::object(fields)
}

// ─── Reply ─────────────────────────────────────────────────────────────

/// A decoded reply: the contents of its choices, and its usage block.
#[derive(Debug)]
pub struct ChatResponse {
    pub choices: Vec<String>,
    pub usage: Option<LlmUsage>,
}

/// What an error message shows of a reply.
pub open spec fn excerpt(body: Seq<char>) -> Seq<char> {
    if body.len() > SHOWN_CHARS {
        body.take(SHOWN_CHARS as int) + CUT_MARK@
    } else {
        body
    }
}

/// What is wrong with a reply, if anything.
pub open spec fn reply_error(status: u16, body: Seq<char>, reply: Option<ChatResponse>) -> Option<
    Seq<char>,
> {
    if !qwen::is_success(status) {
        Some("HTTP "@ + text::decimal(status as nat) + ": "@ + excerpt(body))
    } else {
        match reply {
            None => Some("parsing LLM response: "@ + excerpt(body)),
            Some(reply) => if reply.choices@.len() == 0 {
                Some("response has no choices"@)
            } else if text::trimmed(reply.choices@[0]@).len() == 0 {
                Some("LLM returned empty content"@)
            } else {
                None
            },
        }
    }
}

fn failed(message: String) -> (r: Result<LlmOutput, ProviderError>)
    ensures
        r matches Err(e) && !e.timed_out && e.message == message,
{
    Err(ProviderError { timed_out: false, message })
}

/// The meaning of a reply with the given HTTP status and body. `reply` is the
/// decoded body, or `None` if it could not be decoded. The cleaned text has no
/// whitespace around it and is never empty.
pub fn read_reply(status: u16, body: &str, reply: Option<ChatResponse>) -> (r: Result<
    LlmOutput,
    ProviderError,
>)
    ensures
        match reply_error(status, body@, reply) {
            Some(what) => r matches Err(e) && !e.timed_out && e.message@ == what,
            None => r matches Ok(out) && out.text@ == text::trimmed(reply->0.choices@[0]@)
                && out.usage == reply->0.usage,
        },
{
    if status < 200 || status > 299 {
        return failed(
            "HTTP ".to_owned().concat(text::decimal_of(status as u64).as_str()).concat(": ").concat(
                truncate(body, SHOWN_CHARS).as_str(),
            ),
        );
    }
    match reply {
        None => failed(
            "parsing LLM response: ".to_owned().concat(truncate(body, SHOWN_CHARS).as_str()),
        ),
        Some(reply) => {
            if reply.choices.is_empty() {
                return failed("response has no choices".to_owned());
            }
            let cleaned = text::trim(reply.choices[0].as_str());
            if cleaned.as_str().is_empty() {
                return failed("LLM returned empty content".to_owned());
            }
            Ok(LlmOutput { text: cleaned, usage: reply.usage })
        },
    }
}

// ─── Startup ───────────────────────────────────────────────────────────

/// What the command line says of cleanup.
#[derive(Debug, Clone)]
pub struct LlmArgs {
    pub no_llm: bool,
    pub base_url: Option<String>,
    pub model: Option<String>,
    pub api_key: Option<String>,
    pub max_token_param: String,
    pub timeout_ms: u64,
}

/// The configuration of the chat client; none if cleanup is switched off. The
/// address, the model and the key have to be there otherwise.
pub fn configure(args: LlmArgs) -> (r: Result<Option<OpenAiConfig>, String>)
    ensures
        match r {
            Ok(None) => args.no_llm,
            Ok(Some(config)) => {
                &&& !args.no_llm
                &&& args.base_url == Some(config.base_url)
                &&& args.model == Some(config.model)
                &&& args.api_key == Some(config.api_key)
                &&& config.max_token_param == args.max_token_param
                &&& config.timeout_ms == args.timeout_ms
            },
            Err(what) => !args.no_llm && {
                ||| args.base_url is None && what@
                    == "--llm-base-url is required unless --no-llm is set"@
                ||| args.base_url is Some && args.model is None && what@
                    == "--llm-model is required unless --no-llm is set"@
                ||| args.base_url is Some && args.model is Some && args.api_key is None && what@
                    == "--llm-api-key (or AIRTALK_LLM_API_KEY) is required unless --no-llm is set"@
            },
        },
{
    if args.no_llm {
        return Ok(None);
    }
    let base_url = match args.base_url {
        Some(s) => s,
        None => {
            return Err("--llm-base-url is required unless --no-llm is set".to_owned());
        },
    };
    let model = match args.model {
        Some(s) => s,
        None => {
            return Err("--llm-model is required unless --no-llm is set".to_owned());
        },
    };
    let api_key = match args.api_key {
        Some(s) => s,
        None => {
            return Err(
                "--llm-api-key (or AIRTALK_LLM_API_KEY) is required unless --no-llm is set".to_owned(),
            );
        },
    };
    Ok(
        Some(
            OpenAiConfig {
                base_url,
                api_key,
                model,
                max_token_param: args.max_token_param,
                timeout_ms: args.timeout_ms,
            },
        ),
    )
}

// ─── Laws ──────────────────────────────────────────────────────────────

/// The endpoint stands behind the base address; slashes at the end of that make
/// no difference.
pub proof fn law_the_endpoint_follows_the_base(base_url: Seq<char>)
    ensures
        endpoint(base_url.push('/')) == endpoint(base_url),
        base_url.len() == 0 || base_url.last() != '/' ==> endpoint(base_url) == base_url
            + "/chat/completions"@,
{
    assert(base_url.push('/').drop_last() =~= base_url);
}

/// What a request asks for: the model, the prompt as the system's message and the
/// text as the user's, in this order, no streaming, no thinking, and a limited
/// reply. A name for the limit that the request has another use for gives way.
pub proof fn law_a_request_holds_prompt_and_text(
    model: Seq<char>,
    max_token_param: Seq<char>,
    prompt: Seq<char>,
    text: Seq<char>,
)
    ensures
        ({
            let fields = chat_fields(model, max_token_param, prompt, text);
            &&& json::has_field(fields, "enable_thinking"@, JsonView::Bool(false))
            &&& max_token_param != "enable_thinking"@ ==> json::has_field(
                fields,
                max_token_param,
                JsonView::Number("4096"@),
            )
            &&& max_token_param != "model"@ ==> json::has_field(
                fields,
                "model"@,
                JsonView::Text(model),
            )
            &&& max_token_param != "stream"@ ==> json::has_field(
                fields,
                "stream"@,
                JsonView::Bool(false),
            )
            &&& max_token_param != "temperature"@ ==> json::has_field(
                fields,
                "temperature"@,
                JsonView::Number("0.2"@),
            )
            &&& max_token_param != "messages"@ ==> json::has_field(
                fields,
                "messages"@,
                JsonView::List(
                    seq![
                        JsonView::Object(
                            seq![
                                ("role"@, JsonView::Text("system"@)),
                                ("content"@, JsonView::Text(prompt)),
                            ],
                        ),
                        JsonView::Object(
                            seq![
                                ("role"@, JsonView::Text("user"@)),
                                ("content"@, JsonView::Text(text)),
                            ],
                        ),
                    ],
                ),
            )
        }),
{
    reveal_strlit("model");
    reveal_strlit("messages");
    reveal_strlit("stream");
    reveal_strlit("temperature");
    reveal_strlit("enable_thinking");
    let talk = JsonView::List(seq![chat_message("system"@, prompt), chat_message("user"@, text)]);
    let fixed = seq![
        ("model"@, JsonView::Text(model)),
        ("messages"@, talk),
        ("stream"@, JsonView::Bool(false)),
        ("temperature"@, JsonView::Number("0.2"@)),
    ];
    assert("model"@.len() == 5 && "messages"@.len() == 8 && "stream"@.len() == 6
        && "temperature"@.len() == 11 && "enable_thinking"@.len() == 15);
    assert(fixed[0].0 != fixed[1].0 && fixed[1].0 != fixed[2].0 && fixed[2].0 != fixed[3].0);
    assert(json::has_field(fixed, "model"@, JsonView::Text(model))) by {
        assert(fixed[0] == ("model"@, JsonView::Text(model)));
    }
    assert(json::has_field(fixed, "messages"@, talk)) by {
        assert(fixed[1] == ("messages"@, talk));
    }
    assert(json::has_field(fixed, "stream"@, JsonView::Bool(false))) by {
        assert(fixed[2] == ("stream"@, JsonView::Bool(false)));
    }
    assert(json::has_field(fixed, "temperature"@, JsonView::Number("0.2"@))) by {
        assert(fixed[3] == ("temperature"@, JsonView::Number("0.2"@)));
    }
    lemma_kept_through(fixed, max_token_param, "model"@, JsonView::Text(model));
    lemma_kept_through(fixed, max_token_param, "messages"@, talk);
    lemma_kept_through(fixed, max_token_param, "stream"@, JsonView::Bool(false));
    lemma_kept_through(fixed, max_token_param, "temperature"@, JsonView::Number("0.2"@));
}

/// Fields with other names stay when the limit and the switch are set.
proof fn lemma_kept_through(
    fixed: Seq<(Seq<char>, JsonView)>,
    param: Seq<char>,
    name: Seq<char>,
    value: JsonView,
)
    requires
        forall|i: int, j: int|
            0 <= i < j < fixed.len() ==> (#[trigger] fixed[i]).0 != (#[trigger] fixed[j]).0,
        json::has_field(fixed, name, value),
        name != "enable_thinking"@,
    ensures
        ({
            let fields = json::with_field(
                json::with_field(fixed, param, JsonView::Number("4096"@)),
                "enable_thinking"@,
                JsonView::Bool(false),
            );
            &&& json::has_field(fields, "enable_thinking"@, JsonView::Bool(false))
            &&& param != "enable_thinking"@ ==> json::has_field(
                fields,
                param,
                JsonView::Number("4096"@),
            )
            &&& param != name ==> json::has_field(fields, name, value)
        }),
{
    let limit = JsonView::Number("4096"@);
    json::law_setting_a_field_changes_that_field(fixed, param, limit, name, value);
    let limited = json::with_field(fixed, param, limit);
    let off = JsonView::Bool(false);
    json::law_setting_a_field_changes_that_field(limited, "enable_thinking"@, off, name, value);
    json::law_setting_a_field_changes_that_field(limited, "enable_thinking"@, off, param, limit);
}

/// A reply gives text exactly if the status reports success and the first of its
/// choices is more than whitespace. Otherwise the error says what is wrong, in
/// the order in which a reply is looked at.
pub proof fn law_replies_give_text_or_say_why_not(
    status: u16,
    body: Seq<char>,
    reply: Option<ChatResponse>,
)
    ensures
        ({
            let error = reply_error(status, body, reply);
            let success = 200 <= status < 300;
            &&& error is None <==> success && (reply matches Some(r) && r.choices@.len() > 0
                && exists|i: int|
                0 <= i < r.choices@[0]@.len() && !text::whitespace(#[trigger] r.choices@[0]@[i]))
            &&& !success ==> error == Some(
                "HTTP "@ + text::decimal(status as nat) + ": "@ + excerpt(body),
            )
            &&& success && reply is None ==> error == Some(
                "parsing LLM response: "@ + excerpt(body),
            )
            &&& reply matches Some(r) ==> {
                &&& success && r.choices@.len() == 0 ==> error == Some("response has no choices"@)
                &&& success && r.choices@.len() > 0 && error is Some ==> error == Some(
                    "LLM returned empty content"@,
                )
            }
        }),
{
    if let Some(r) = reply {
        if r.choices@.len() > 0 {
            let s = r.choices@[0]@;
            let (from, to) = text::law_trimming_takes_the_whitespace_off(s);
            if from < to {
                assert(!text::whitespace(s[from]));
            }
        }
    }
}

/// An error shows a reply of up to 500 characters whole, and the first 500
/// characters of a longer one.
pub proof fn law_errors_show_the_start_of_a_reply(body: Seq<char>)
    ensures
        body.len() <= 500 ==> excerpt(body) == body,
        body.len() > 500 ==> excerpt(body) == body.take(500) + "…[truncated]"@,
{
}

} // verus!
