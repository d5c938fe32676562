use airtalk::engine::asr::audio::AudioFormat;
use airtalk::engine::asr::qwen::{
    build_request, extract_text, read_reply, DashScopeAnnotation, DashScopeChoice,
    DashScopeOutput, DashScopeResponse, DashScopeTokenDetails, DashScopeUsage,
};
use airtalk::engine::asr::AsrRequest;
use airtalk::json::Json;
use airtalk::proto::AudioSeconds;
use serde_json::Value;

fn usage() -> DashScopeUsage {
    DashScopeUsage {
        seconds: None,
        prompt_tokens: None,
        completion_tokens: None,
        total_tokens: None,
        input_tokens_details: None,
        output_tokens_details: None,
        audio_seconds: None,
        audio_duration: None,
        duration: None,
        input_tokens: None,
        output_tokens: None,
    }
}

/// A text item of a reply's content.
fn item(text: &str) -> Json {
    Json::object_of("text", Json::text(text))
}

fn value(json: &Json) -> Value {
    match json {
        Json::Null => Value::Null,
        Json::Bool(b) => Value::Bool(*b),
        Json::Number(n) => serde_json::from_str(n).unwrap(),
        Json::Text(s) => Value::String(s.clone()),
        Json::List(items) => Value::Array(items.iter().map(value).collect()),
        Json::Object(fields) => {
            let mut map = serde_json::Map::new();
            for (name, v) in fields {
                assert!(map.insert(name.clone(), value(v)).is_none());
            }
            Value::Object(map)
        }
    }
}

#[test]
fn usage_parses_sync_api_shape() {
    let proto = DashScopeUsage {
        input_tokens_details: Some(DashScopeTokenDetails { text_tokens: Some(0), audio_tokens: None }),
        output_tokens_details: Some(DashScopeTokenDetails { text_tokens: Some(6), audio_tokens: None }),
        seconds: Some(14),
        ..usage()
    }
    .into_proto();
    assert_eq!(proto.audio_seconds, Some(AudioSeconds::whole(14)));
    assert_eq!(proto.output_tokens, Some(6));
    assert_eq!(proto.total_tokens, None);
}

#[test]
fn usage_parses_openai_compat_shape() {
    let proto = DashScopeUsage {
        completion_tokens: Some(12),
        prompt_tokens: Some(42),
        seconds: Some(1),
        total_tokens: Some(54),
        ..usage()
    }
    .into_proto();
    assert_eq!(proto.audio_seconds, Some(AudioSeconds::whole(1)));
    assert_eq!(proto.input_tokens, Some(42));
    assert_eq!(proto.output_tokens, Some(12));
    assert_eq!(proto.total_tokens, Some(54));
}

#[test]
fn extract_text_handles_array_form() {
    let v = Json::list(vec![item("hello "), item("world")]);
    assert_eq!(extract_text(&v).as_deref(), Some("hello world"));
}

#[test]
fn extract_text_handles_string_form() {
    let v = Json::text("你好，世界");
    assert_eq!(extract_text(&v).as_deref(), Some("你好，世界"));
}

#[test]
fn extract_text_empty_returns_none() {
    assert!(extract_text(&Json::text("")).is_none());
    assert!(extract_text(&Json::list(vec![item("")])).is_none());
    assert!(extract_text(&Json::Null).is_none());
}

#[test]
fn items_without_text_are_passed_over() {
    let v = Json::list(vec![
        item("a"),
        Json::object_of("audio", Json::text("x")),
        Json::object_of("text", Json::number("1")),
        Json::text("stray"),
        item("b"),
    ]);
    assert_eq!(extract_text(&v).as_deref(), Some("ab"));
}

#[test]
fn request_without_language_asks_for_detection() {
    let req = AsrRequest { pcm: &[], language: None, context: None, enable_itn: true };
    let body = value(&build_request(AudioFormat::Wav, b"abc", &req));
    assert_eq!(body["model"], "qwen3-asr-flash");
    let messages = body["input"]["messages"].as_array().unwrap();
    assert_eq!(messages.len(), 1);
    assert_eq!(messages[0]["role"], "user");
    assert_eq!(messages[0]["content"][0]["audio"], "data:audio/wav;base64,YWJj");
    let options = &body["parameters"]["asr_options"];
    assert_eq!(options["enable_lid"], true);
    assert_eq!(options["enable_itn"], true);
    assert!(options.get("language").is_none());
    assert_eq!(body["parameters"]["result_format"], "message");
}

#[test]
fn request_carries_context_and_language() {
    let req = AsrRequest {
        pcm: &[],
        language: Some("en"),
        context: Some("React"),
        enable_itn: false,
    };
    let format = AudioFormat::Opus { bitrate_bps: 24_000 };
    let body = value(&build_request(format, b"abc", &req));
    let messages = body["input"]["messages"].as_array().unwrap();
    assert_eq!(messages[0]["role"], "system");
    assert_eq!(messages[0]["content"][0]["text"], "React");
    assert_eq!(messages[1]["content"][0]["audio"], "data:audio/ogg;base64,YWJj");
    let options = &body["parameters"]["asr_options"];
    assert_eq!(options["enable_lid"], false);
    assert_eq!(options["language"], "en");
}

fn reply(content: Json, language: Option<&str>) -> DashScopeResponse {
    DashScopeResponse {
        output: Some(DashScopeOutput {
            choices: vec![DashScopeChoice {
                content,
                annotations: Some(vec![
                    DashScopeAnnotation { language: language.map(String::from) },
                ]),
            }],
        }),
        usage: Some(DashScopeUsage { seconds: Some(1), ..usage() }),
        code: None,
        message: None,
    }
}

#[test]
fn reply_gives_text_language_and_usage() {
    let out = read_reply(200, "{}", Some(reply(item_list("hi"), Some("en"))), "key", 99).unwrap();
    assert_eq!(out.text, "hi");
    assert_eq!(out.language.as_deref(), Some("en"));
    assert_eq!(out.upload_bytes, 99);
    assert_eq!(out.usage.unwrap().audio_seconds, Some(AudioSeconds::whole(1)));
}

fn item_list(text: &str) -> Json {
    Json::list_of(item(text))
}

#[test]
fn replies_that_fail_say_why() {
    let message = |status: u16, body: &str, reply: Option<DashScopeResponse>| {
        let err = read_reply(status, body, reply, "sk-123", 0).unwrap_err();
        assert!(!err.timed_out);
        assert!(!err.message.contains("sk-123"), "{}", err.message);
        err.message
    };
    assert!(message(500, "service boom sk-123", None).starts_with("HTTP 500: service boom"));
    assert!(message(200, "not json sk-123", None).contains("not json"));
    let mut refused = reply(item_list("hi"), None);
    refused.code = Some("Throttling".into());
    refused.message = Some("slow down sk-123".into());
    let text = message(200, "", Some(refused));
    assert!(text.contains("Throttling") && text.contains("slow down"), "{text}");
    let mut empty = reply(item_list("hi"), None);
    empty.output = None;
    message(200, "", Some(empty));
    let mut none = reply(item_list("hi"), None);
    none.output.as_mut().unwrap().choices.clear();
    message(200, "", Some(none));
    message(200, "", Some(reply(Json::Null, None)));
}
