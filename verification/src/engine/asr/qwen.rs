//! Qwen3-ASR through DashScope: what a request holds and what a reply means.
//!
//! Sending the request and decoding the reply's JSON are the caller's.

use crate::engine::asr::{AsrOutput, AsrRequest, ProviderError};
use crate::engine::asr::audio::AudioFormat;
use crate::engine::params;
use crate::engine::usage::{self, UsageView};
use crate::engine::util::{self, redact_api_key, truncate, CUT_MARK};
use crate::json::{self, Json, JsonView};
use crate::proto::{AsrUsage, AudioSeconds, SecondsTerm};
use crate::proto::pcm_base64::{self, base64_encode};
use crate::text;
use vstd::prelude::*;

verus! {

pub const MODEL: &'static str = "qwen3-asr-flash";

/// How much of a reply an error message shows.
pub const SHOWN_CHARS: usize = 500;

// ─── Request ───────────────────────────────────────────────────────────

/// The audio as a `data:` URI.
pub open spec fn audio_uri(format: AudioFormat, encoded: Seq<u8>) -> Seq<char> {
    "data:"@ + (match format {
        AudioFormat::Wav => "audio/wav"@,
        AudioFormat::Opus { .. } => "audio/ogg"@,
    }) + ";base64,"@ + pcm_base64::base64_text(encoded)
}

/// A message with one piece of content.
pub open spec fn message(role: Seq<char>, kind: Seq<char>, content: Seq<char>) -> JsonView {
    JsonView::Object(
        seq![
            ("role"@, JsonView::Text(role)),
            (
                "content"@,
                JsonView::List(seq![JsonView::Object(seq![(kind, JsonView::Text(content))])]),
            ),
        ],
    )
}

/// The messages: the context if there is any, then the audio.
pub open spec fn messages(context: Option<Seq<char>>, uri: Seq<char>) -> Seq<JsonView> {
    let audio = message("user"@, "audio"@, uri);
    match context {
        Some(c) => if c.len() > 0 {
            seq![message("system"@, "text"@, c), audio]
        } else {
            seq![audio]
        },
        None => seq![audio],
    }
}

/// The options: the language is detected exactly if none is pinned.
pub open spec fn asr_options(language: Option<Seq<char>>, enable_itn: bool) -> Seq<
    (Seq<char>, JsonView),
> {
    let common = seq![
        ("enable_lid"@, JsonView::Bool(language is None)),
        ("enable_itn"@, JsonView::Bool(enable_itn)),
    ];
    match language {
        Some(tag) => common.push(("language"@, JsonView::Text(tag))),
        None => common,
    }
}

/// The body of a request.
pub open spec fn request_body(
    uri: Seq<char>,
    language: Option<Seq<char>>,
    context: Option<Seq<char>>,
    enable_itn: bool,
) -> JsonView {
    JsonView::Object(
        seq![
            ("model"@, JsonView::Text(MODEL@)),
            (
                "input"@,
                JsonView::Object(seq![("messages"@, JsonView::List(messages(context, uri)))]),
            ),
            (
                "parameters"@,
                JsonView::Object(
                    seq![
                        ("asr_options"@, JsonView::Object(asr_options(language, enable_itn))),
                        ("result_format"@, JsonView::Text("message"@)),
                    ],
                ),
            ),
        ],
    )
}

/// The characters of an optional string slice.
pub open spec fn optional_str(s: Option<&str>) -> Option<Seq<char>> {
    match s {
        Some(s) => Some(s@),
        None => None,
    }
}

fn build_message(role: &str, kind: &str, content: &str) -> (r: Json)
    ensures
        r@ == message(role@, kind@, content@),
{
    let mut fields: Vec<(String, Json)> = Vec::new();
    fields.push(("role".to_owned(), Json::text(role)));
    fields.push(
        ("content".to_owned(), Json::list_of(Json::object_of(kind, Json::text(content)))),
    );
    let r = Json::object(fields);
    assert(json::field_views(fields@) =~= message(role@, kind@, content@)->Object_0);
    r
}

/// The body of the request for audio that is already in its upload format.
pub fn build_request(format: AudioFormat, encoded: &[u8], req: &AsrRequest<'_>) -> (r: Json)
    requires
        pcm_base64::base64_fits(encoded@.len()),
    ensures
        r@ == request_body(
            audio_uri(format, encoded@),
            optional_str(req.language),
            optional_str(req.context),
            req.enable_itn,
        ),
{
    let uri = "data:".to_owned().concat(format.mime()).concat(";base64,").concat(
        base64_encode(encoded).as_str(),
    );
    let ghost expected = messages(optional_str(req.context), uri@);

    let mut list: Vec<Json> = Vec::new();
    if let Some(context) = req.context {
        if !context.is_empty() {
            list.push(build_message("system", "text", context));
        }
    }
    list.push(build_message("user", "audio", uri.as_str()));
    assert(list@.map_values(|j: Json| j@) =~= expected);

    let mut options: Vec<(String, Json)> = Vec::new();
    options.push(("enable_lid".to_owned(), Json::Bool(req.language.is_none())));
    options.push(("enable_itn".to_owned(), Json::Bool(req.enable_itn)));
    if let Some(tag) = req.language {
        options.push(("language".to_owned(), Json::text(tag)));
    }
    assert(json::field_views(options@) =~= asr_options(optional_str(req.language), req.enable_itn));

    let mut parameters: Vec<(String, Json)> = Vec::new();
    parameters.push(("asr_options".to_owned(), Json::object(options)));
    parameters.push(("result_format".to_owned(), Json::text("message")));
    let ghost parameter_views = json::field_views(parameters@);
    assert(parameter_views =~= seq![
        (
            "asr_options"@,
            JsonView::Object(asr_options(optional_str(req.language), req.enable_itn)),
        ),
        ("result_format"@, JsonView::Text("message"@)),
    ]);

    let mut body: Vec<(String, Json)> = Vec::new();
    body.push(("model".to_owned(), Json::text(MODEL)));
    body.push(("input".to_owned(), Json::object_of("messages", Json::list(list))));
    body.push(("parameters".to_owned(), Json::object(parameters)));
    let ghost whole = request_body(
        uri@,
        optional_str(req.language),
        optional_str(req.context),
        req.enable_itn,
    );
    assert(json::field_views(body@) =~= whole->Object_0);
    Json::object(body)
}

// ─── Reply ─────────────────────────────────────────────────────────────

/// A decoded reply. Fields that the reply left out are missing here too.
#[derive(Debug)]
pub struct DashScopeResponse {
    pub output: Option<DashScopeOutput>,
    pub usage: Option<DashScopeUsage>,
    /// Not empty on an error, also when the HTTP status says success.
    pub code: Option<String>,
    pub message: Option<String>,
}

#[derive(Debug)]
pub struct DashScopeOutput {
    pub choices: Vec<DashScopeChoice>,
}

#[derive(Debug)]
pub struct DashScopeChoice {
    /// A text, or a list of objects with a text each.
    pub content: Json,
    pub annotations: Option<Vec<DashScopeAnnotation>>,
}

#[derive(Debug)]
pub struct DashScopeAnnotation {
    pub language: Option<String>,
}

/// The usage block, in any of the shapes that DashScope has used. Floats are
/// given by their bits.
#[derive(Debug)]
pub struct DashScopeUsage {
    pub seconds: Option<u64>,
    pub prompt_tokens: Option<u64>,
    pub completion_tokens: Option<u64>,
    pub total_tokens: Option<u64>,
    pub input_tokens_details: Option<DashScopeTokenDetails>,
    pub output_tokens_details: Option<DashScopeTokenDetails>,
    pub audio_seconds: Option<u64>,
    pub audio_duration: Option<u64>,
    pub duration: Option<u64>,
    pub input_tokens: Option<u64>,
    pub output_tokens: Option<u64>,
}

#[derive(Debug, Clone, Copy)]
pub struct DashScopeTokenDetails {
    pub text_tokens: Option<u64>,
    pub audio_tokens: Option<u64>,
}

/// The first value that is there.
pub open spec fn either(a: Option<u64>, b: Option<u64>) -> Option<u64> {
    if a is Some {
        a
    } else {
        b
    }
}

fn first_of(a: Option<u64>, b: Option<u64>) -> (r: Option<u64>)
    ensures
        r == either(a, b),
{
    if a.is_some() {
        a
    } else {
        b
    }
}

impl DashScopeUsage {
    /// Seconds as billed if they are there, else the first of the other
    /// durations; token totals if they are there, else the details.
    pub open spec fn reported(&self) -> UsageView {
        UsageView {
            audio_seconds: match self.seconds {
                Some(n) => Some(seq![SecondsTerm::Whole(n)]),
                None => match either(
                    either(self.audio_seconds, self.audio_duration),
                    self.duration,
                ) {
                    Some(bits) => Some(seq![SecondsTerm::Bits(bits)]),
                    None => None,
                },
            },
            input_tokens: either(
                either(self.prompt_tokens, self.input_tokens),
                match self.input_tokens_details {
                    Some(d) => either(d.audio_tokens, d.text_tokens),
                    None => None,
                },
            ),
            output_tokens: either(
                either(self.completion_tokens, self.output_tokens),
                match self.output_tokens_details {
                    Some(d) => d.text_tokens,
                    None => None,
                },
            ),
            total_tokens: self.total_tokens,
        }
    }

    pub fn into_proto(self) -> (r: AsrUsage)
        ensures
            r@ == self.reported(),
    {
        let audio_seconds = match self.seconds {
            Some(n) => Some(AudioSeconds::whole(n)),
            None => match first_of(first_of(self.audio_seconds, self.audio_duration), self.duration) {
                Some(bits) => Some(AudioSeconds::from_bits(bits)),
                None => None,
            },
        };
        let input_details: Option<u64> = match self.input_tokens_details {
            Some(d) => first_of(d.audio_tokens, d.text_tokens),
            None => None,
        };
        let output_details: Option<u64> = match self.output_tokens_details {
            Some(d) => d.text_tokens,
            None => None,
        };
        AsrUsage {
            audio_seconds,
            input_tokens: first_of(first_of(self.prompt_tokens, self.input_tokens), input_details),
            output_tokens: first_of(
                first_of(self.completion_tokens, self.output_tokens),
                output_details,
            ),
            total_tokens: self.total_tokens,
        }
    }
}

/// The text of one item of a content list; items without one have none.
pub open spec fn item_text(item: Json) -> Seq<char> {
    match item {
        Json::Object(fields) => match json::field(fields@, "text"@) {
            Some(Json::Text(s)) => s@,
            _ => seq![],
        },
        _ => seq![],
    }
}

/// The texts of the items, one after the other.
pub open spec fn items_text(items: Seq<Json>) -> Seq<char>
    decreases items.len(),
{
    if items.len() == 0 {
        seq![]
    } else {
        items_text(items.drop_last()) + item_text(items.last())
    }
}

/// The recognised text of a reply's content, without whitespace around it.
pub open spec fn content_text(content: Json) -> Option<Seq<char>> {
    let found = match content {
        Json::Text(s) => text::trimmed(s@),
        Json::List(items) => text::trimmed(items_text(items@)),
        _ => seq![],
    };
    if found.len() == 0 {
        None
    } else {
        Some(found)
    }
}

fn non_empty(s: String) -> (r: Option<String>)
    ensures
        s@.len() == 0 ==> r is None,
        s@.len() > 0 ==> r == Some(s),
{
    if s.as_str().is_empty() {
        None
    } else {
        Some(s)
    }
}

/// Takes the recognised text out of a reply's content: a plain text, or a list
/// of items some of which have a text.
pub fn extract_text(content: &Json) -> (r: Option<String>)
    ensures
        params::optional_text(r) == content_text(*content),
{
    match content {
        Json::Text(s) => non_empty(text::trim(s.as_str())),
        Json::List(items) => {
            let mut combined = String::new();
            let mut i: usize = 0;
            assert(items@.take(0) =~= Seq::<Json>::empty());
            while i < items.len()
                invariant
                    i <= items@.len(),
                    combined@ == items_text(items@.take(i as int)),
                decreases items@.len() - i,
            {
                let ghost had = combined@;
                assert(items@.take(i + 1).drop_last() =~= items@.take(i as int));
                if let Some(Json::Text(s)) = items[i].get("text") {
                    combined.append(s.as_str());
                } else {
                    assert(had + Seq::<char>::empty() =~= had);
                }
                i += 1;
            }
            assert(items@.take(items@.len() as int) =~= items@);
            non_empty(text::trim(combined.as_str()))
        },
        _ => None,
    }
}

/// What an error message shows of a reply.
pub open spec fn shown(body: Seq<char>, api_key: Seq<char>) -> Seq<char> {
    let safe = util::redacted(body, api_key);
    if safe.len() > SHOWN_CHARS {
        safe.take(SHOWN_CHARS as int) + CUT_MARK@
    } else {
        safe
    }
}

fn show(body: &str, api_key: &str) -> (r: String)
    ensures
        r@ == shown(body@, api_key@),
{
    truncate(redact_api_key(body, api_key).as_str(), SHOWN_CHARS)
}

/// Whether an HTTP status reports success.
pub open spec fn is_success(status: u16) -> bool {
    200 <= status <= 299
}

/// The code of a reply that reports a failure.
pub open spec fn failure_code(reply: DashScopeResponse) -> Option<Seq<char>> {
    match reply.code {
        Some(code) => if code@.len() > 0 {
            Some(code@)
        } else {
            None
        },
        None => None,
    }
}

/// The language of a choice's first annotation.
pub open spec fn annotated_language(choice: DashScopeChoice) -> Option<Seq<char>> {
    match choice.annotations {
        Some(list) => if list@.len() > 0 {
            params::optional_text(list@[0].language)
        } else {
            None
        },
        None => None,
    }
}

/// What is wrong with a reply, if anything.
pub open spec fn reply_error(
    status: u16,
    body: Seq<char>,
    reply: Option<DashScopeResponse>,
    api_key: Seq<char>,
) -> Option<Seq<char>> {
    if !is_success(status) {
        Some("HTTP "@ + text::decimal(status as nat) + ": "@ + shown(body, api_key))
    } else {
        match reply {
            None => Some("parsing ASR response: "@ + shown(body, api_key)),
            Some(reply) => match failure_code(reply) {
                Some(code) => {
                    let detail = match reply.message {
                        Some(m) => m@,
                        None => seq![],
                    };
                    Some("DashScope "@ + code + ": "@ + util::redacted(detail, api_key))
                },
                None => match reply.output {
                    None => Some("response has no output"@),
                    Some(output) => if output.choices@.len() == 0 {
                        Some("response has no choices"@)
                    } else if content_text(output.choices@[0].content) is None {
                        Some("could not extract text from response content"@)
                    } else {
                        None
                    },
                },
            },
        }
    }
}

fn failed(message: String) -> (r: Result<AsrOutput, ProviderError>)
    ensures
        r matches Err(e) && !e.timed_out && e.message == message,
{
    Err(ProviderError { timed_out: false, message })
}

/// The meaning of a reply with the given HTTP status and body. `reply` is the
/// decoded body, or `None` if it could not be decoded.
pub fn read_reply(
    status: u16,
    body: &str,
    reply: Option<DashScopeResponse>,
    api_key: &str,
    upload_bytes: u64,
) -> (r: Result<AsrOutput, ProviderError>)
    ensures
        match reply_error(status, body@, reply, api_key@) {
            Some(what) => r matches Err(e) && !e.timed_out && e.message@ == what,
            None => r matches Ok(out) && {
                let choice = reply->0.output->0.choices@[0];
                &&& Some(out.text@) == content_text(choice.content)
                &&& params::optional_text(out.language) == annotated_language(choice)
                &&& out.upload_bytes == upload_bytes
                &&& usage::optional_usage(out.usage) == (match reply->0.usage {
                    Some(u) => Some(u.reported()),
                    None => None,
                })
            },
        },
{
    if status < 200 || status > 299 {
        return failed(
            "HTTP ".to_owned().concat(text::decimal_of(status as u64).as_str()).concat(": ").concat(
                show(body, api_key).as_str(),
            ),
        );
    }
    let reply = match reply {
        Some(reply) => reply,
        None => {
            return failed(
                "parsing ASR response: ".to_owned().concat(show(body, api_key).as_str()),
            );
        },
    };
    if let Some(code) = reply.code {
        if !code.as_str().is_empty() {
            let detail = match reply.message {
                Some(m) => m,
                None => String::new(),
            };
            return failed(
                "DashScope ".to_owned().concat(code.as_str()).concat(": ").concat(
                    redact_api_key(detail.as_str(), api_key).as_str(),
                ),
            );
        }
    }
    let mut choices = match reply.output {
        Some(output) => output.choices,
        None => {
            return failed("response has no output".to_owned());
        },
    };
    if choices.is_empty() {
        return failed("response has no choices".to_owned());
    }
    let first = choices.remove(0);
    let text = match extract_text(&first.content) {
        Some(t) => t,
        None => {
            return failed("could not extract text from response content".to_owned());
        },
    };
    let language = match first.annotations {
        Some(list) => {
            let mut list = list;
            if list.is_empty() {
                None
            } else {
                list.remove(0).language
            }
        },
        None => None,
    };
    let usage = match reply.usage {
        Some(u) => Some(u.into_proto()),
        None => None,
    };
    Ok(AsrOutput { text, language, upload_bytes, usage })
}

// ─── Laws ──────────────────────────────────────────────────────────────

/// What a request asks for: the audio as the user's message, last; the context as
/// the system's message before it, if there is any; detection of the language
/// exactly if none is pinned; and normalisation as wanted.
pub proof fn law_a_request_holds_audio_and_wishes(
    uri: Seq<char>,
    language: Option<Seq<char>>,
    context: Option<Seq<char>>,
    enable_itn: bool,
)
    ensures
        ({
            let wanted = context is Some && context->0.len() > 0;
            let options = asr_options(language, enable_itn);
            let talk = messages(context, uri);
            &&& talk.len() == (if wanted {
                2nat
            } else {
                1
            })
            &&& talk.last() == JsonView::Object(
                seq![
                    ("role"@, JsonView::Text("user"@)),
                    (
                        "content"@,
                        JsonView::List(
                            seq![JsonView::Object(seq![("audio"@, JsonView::Text(uri))])],
                        ),
                    ),
                ],
            )
            &&& wanted ==> talk[0] == JsonView::Object(
                seq![
                    ("role"@, JsonView::Text("system"@)),
                    (
                        "content"@,
                        JsonView::List(
                            seq![JsonView::Object(seq![("text"@, JsonView::Text(context->0))])],
                        ),
                    ),
                ],
            )
            &&& json::has_field(options, "enable_lid"@, JsonView::Bool(language is None))
            &&& json::has_field(options, "enable_itn"@, JsonView::Bool(enable_itn))
            &&& language matches Some(tag) ==> json::has_field(
                options,
                "language"@,
                JsonView::Text(tag),
            )
            &&& language is None ==> forall|i: int|
                0 <= i < options.len() ==> (#[trigger] options[i]).0 != "language"@
            &&& request_body(uri, language, context, enable_itn) matches JsonView::Object(body) && {
                &&& json::has_field(body, "model"@, JsonView::Text("qwen3-asr-flash"@))
                &&& json::has_field(
                    body,
                    "input"@,
                    JsonView::Object(seq![("messages"@, JsonView::List(talk))]),
                )
                &&& json::has_field(
                    body,
                    "parameters"@,
                    JsonView::Object(
                        seq![
                            ("asr_options"@, JsonView::Object(options)),
                            ("result_format"@, JsonView::Text("message"@)),
                        ],
                    ),
                )
            }
        }),
{
    reveal_strlit("enable_lid");
    reveal_strlit("enable_itn");
    reveal_strlit("language");
    reveal_strlit("model");
    reveal_strlit("input");
    reveal_strlit("parameters");
    let options = asr_options(language, enable_itn);
    assert("enable_lid"@[7] == 'l' && "enable_itn"@[7] == 'i');
    assert("language"@.len() == 8);
    assert(options[0] == ("enable_lid"@, JsonView::Bool(language is None)));
    assert(options[1] == ("enable_itn"@, JsonView::Bool(enable_itn)));
    if let Some(tag) = language {
        assert(options[2] == ("language"@, JsonView::Text(tag)));
    }
    let body = request_body(uri, language, context, enable_itn)->Object_0;
    assert("model"@[0] == 'm' && "input"@[0] == 'i' && "parameters"@[0] == 'p');
    assert(body[0] == ("model"@, JsonView::Text("qwen3-asr-flash"@)));
    assert(body[1].0 == "input"@ && body[2].0 == "parameters"@);
    assert(body[1] == (
        "input"@,
        JsonView::Object(seq![("messages"@, JsonView::List(messages(context, uri)))]),
    ));
    assert(body[2] == (
        "parameters"@,
        JsonView::Object(
            seq![
                ("asr_options"@, JsonView::Object(options)),
                ("result_format"@, JsonView::Text("message"@)),
            ],
        ),
    ));
}

/// The audio of a request names its media type and reads back: whatever decodes
/// the text behind the marker gives the audio's bytes.
pub proof fn law_the_audio_reads_back(
    format: AudioFormat,
    encoded: Seq<u8>,
    r: Result<Vec<u8>, String>,
)
    ensures
        ({
            let uri = audio_uri(format, encoded);
            let start = if format == AudioFormat::Wav {
                "data:audio/wav;base64,"@
            } else {
                "data:audio/ogg;base64,"@
            };
            &&& text::has_prefix(uri, start)
            &&& pcm_base64::decodes(uri.skip(start.len() as int), r) ==> (r matches Ok(got) && got@
                == encoded)
        }),
{
    reveal_strlit("data:");
    reveal_strlit("audio/wav");
    reveal_strlit("audio/ogg");
    reveal_strlit(";base64,");
    reveal_strlit("data:audio/wav;base64,");
    reveal_strlit("data:audio/ogg;base64,");
    let uri = audio_uri(format, encoded);
    let start = if format == AudioFormat::Wav {
        "data:audio/wav;base64,"@
    } else {
        "data:audio/ogg;base64,"@
    };
    assert(uri.take(22) =~= start);
    assert(uri.skip(22) =~= pcm_base64::base64_text(encoded));
    if pcm_base64::decodes(uri.skip(22), r) {
        pcm_base64::law_bytes_read_back(encoded, r);
    }
}

/// The first figure that is there is taken: seconds as billed before the other
/// durations, and totals before details.
pub proof fn law_the_first_figure_is_taken(usage: DashScopeUsage)
    ensures
        ({
            let r = usage.reported();
            &&& usage.seconds matches Some(n) ==> r.audio_seconds == Some(
                seq![SecondsTerm::Whole(n)],
            )
            &&& usage.seconds is None ==> {
                &&& usage.audio_seconds matches Some(b) ==> r.audio_seconds == Some(
                    seq![SecondsTerm::Bits(b)],
                )
                &&& usage.audio_seconds is None ==> {
                    &&& usage.audio_duration matches Some(b) ==> r.audio_seconds == Some(
                        seq![SecondsTerm::Bits(b)],
                    )
                    &&& usage.audio_duration is None ==> {
                        &&& usage.duration matches Some(b) ==> r.audio_seconds == Some(
                            seq![SecondsTerm::Bits(b)],
                        )
                        &&& usage.duration is None ==> r.audio_seconds is None
                    }
                }
            }
            &&& usage.prompt_tokens is Some ==> r.input_tokens == usage.prompt_tokens
            &&& usage.prompt_tokens is None && usage.input_tokens is Some ==> r.input_tokens
                == usage.input_tokens
            &&& usage.prompt_tokens is None && usage.input_tokens is None ==> {
                &&& usage.input_tokens_details is None ==> r.input_tokens is None
                &&& usage.input_tokens_details matches Some(d) ==> r.input_tokens == (
                if d.audio_tokens is Some {
                    d.audio_tokens
                } else {
                    d.text_tokens
                })
            }
            &&& usage.completion_tokens is Some ==> r.output_tokens == usage.completion_tokens
            &&& usage.completion_tokens is None && usage.output_tokens is Some ==> r.output_tokens
                == usage.output_tokens
            &&& usage.completion_tokens is None && usage.output_tokens is None ==> {
                &&& usage.output_tokens_details is None ==> r.output_tokens is None
                &&& usage.output_tokens_details matches Some(d) ==> r.output_tokens == d.text_tokens
            }
            &&& r.total_tokens == usage.total_tokens
        }),
{
}

/// The text of a list of items is that of its items, all of them and in order;
/// what is no text adds nothing.
pub proof fn law_items_give_their_texts(a: Seq<Json>, b: Seq<Json>, item: Json)
    ensures
        items_text(a + b) == items_text(a) + items_text(b),
        item matches Json::Object(fields) ==> ({
            let found = json::field(fields@, "text"@);
            &&& found matches Some(Json::Text(s)) ==> items_text(seq![item]) == s@
            &&& !(found matches Some(Json::Text(_))) ==> items_text(seq![item]).len() == 0
        }),
        !(item is Object) ==> items_text(seq![item]).len() == 0,
    decreases b.len(),
{
    assert((seq![item]).drop_last() =~= Seq::<Json>::empty());
    assert(items_text(seq![]) =~= Seq::<char>::empty());
    assert(items_text(seq![item]) =~= item_text(item));
    if b.len() == 0 {
        assert(a + b =~= a);
        assert(items_text(a) + Seq::<char>::empty() =~= items_text(a));
    } else {
        law_items_give_their_texts(a, b.drop_last(), item);
        assert((a + b).drop_last() =~= a + b.drop_last());
        assert(items_text(a) + items_text(b.drop_last()) + item_text(b.last()) =~= items_text(a) + (
        items_text(b.drop_last()) + item_text(b.last())));
    }
}

/// A content that is a text or a list of items gives its text, without the
/// whitespace around it, unless nothing is left. Any other content gives none.
pub proof fn law_content_gives_its_text(content: Json)
    ensures
        content matches Json::Text(s) ==> content_text(content) == (if text::trimmed(s@).len()
            > 0 {
            Some(text::trimmed(s@))
        } else {
            None
        }),
        content matches Json::List(items) ==> content_text(content) == (if text::trimmed(
            items_text(items@),
        ).len() > 0 {
            Some(text::trimmed(items_text(items@)))
        } else {
            None
        }),
        !(content is Text) && !(content is List) ==> content_text(content) is None,
{
}

/// A reply gives text exactly if the status and the reply itself report success
/// and the first of its choices has a text. Otherwise the error says what is
/// wrong, in the order in which a reply is looked at.
pub proof fn law_replies_give_text_or_say_why_not(
    status: u16,
    body: Seq<char>,
    reply: Option<DashScopeResponse>,
    api_key: Seq<char>,
)
    ensures
        ({
            let error = reply_error(status, body, reply, api_key);
            let success = 200 <= status < 300;
            &&& error is None <==> success && (reply matches Some(r) && (r.code matches Some(code)
                ==> code@.len() == 0) && (r.output matches Some(o) && o.choices@.len() > 0
                && content_text(o.choices@[0].content) is Some))
            &&& !success ==> error == Some(
                "HTTP "@ + text::decimal(status as nat) + ": "@ + shown(body, api_key),
            )
            &&& success && reply is None ==> error == Some(
                "parsing ASR response: "@ + shown(body, api_key),
            )
            &&& success && reply is Some ==> ({
                let r = reply->0;
                let failed = r.code is Some && r.code->0@.len() > 0;
                &&& failed ==> error == Some(
                    "DashScope "@ + r.code->0@ + ": "@ + util::redacted(
                        if r.message is Some {
                            r.message->0@
                        } else {
                            seq![]
                        },
                        api_key,
                    ),
                )
                &&& !failed && r.output is None ==> error == Some("response has no output"@)
                &&& !failed && r.output is Some && r.output->0.choices@.len() == 0 ==> error
                    == Some("response has no choices"@)
                &&& !failed && r.output is Some && r.output->0.choices@.len() > 0 && error is Some
                    ==> error == Some("could not extract text from response content"@)
            })
        }),
{
}

/// The language of a reply is that of the first annotation of its choice, if
/// there is one that names any.
pub proof fn law_the_annotation_names_the_language(choice: DashScopeChoice)
    ensures
        annotated_language(choice) is Some <==> (choice.annotations matches Some(list)
            && list@.len() > 0 && list@[0].language is Some),
        annotated_language(choice) matches Some(tag) ==> tag
            == choice.annotations->0@[0].language->0@,
{
}

/// An error shows a reply without the key: whole if it has up to 500 characters
/// then, else the first 500.
pub proof fn law_errors_show_the_start_of_a_reply(body: Seq<char>, api_key: Seq<char>)
    ensures
        ({
            let safe = util::redacted(body, api_key);
            &&& safe.len() <= 500 ==> shown(body, api_key) == safe
            &&& safe.len() > 500 ==> shown(body, api_key) == safe.take(500) + "…[truncated]"@
        }),
{
}

} // verus!
