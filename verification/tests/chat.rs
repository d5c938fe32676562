use airtalk::engine::llm::openai::{
    build_request, chat_url, configure, read_reply, ChatResponse, LlmArgs, OpenAiConfig,
};
use airtalk::engine::llm::{DisabledLlm, LlmProvider};
use airtalk::engine::util::{redact_api_key, truncate};
use airtalk::json::Json;
use airtalk::proto::LlmUsage;

fn config(param: &str) -> OpenAiConfig {
    OpenAiConfig {
        base_url: "http://host/v1/".into(),
        api_key: "k".into(),
        model: "m".into(),
        max_token_param: param.into(),
        timeout_ms: 1,
    }
}

fn text(json: Option<&Json>) -> String {
    match json {
        Some(Json::Text(s)) => s.clone(),
        other => panic!("no text: {other:?}"),
    }
}

#[test]
fn url_has_one_slash() {
    assert_eq!(chat_url("http://host/v1"), "http://host/v1/chat/completions");
    assert_eq!(chat_url("http://host/v1//"), "http://host/v1/chat/completions");
}

#[test]
fn chat_request_has_both_messages() {
    let body = build_request(&config("max_tokens"), "raw", "prompt");
    assert_eq!(text(body.get("model")), "m");
    let Some(Json::List(messages)) = body.get("messages") else { panic!("no messages") };
    assert_eq!(messages.len(), 2);
    assert_eq!(text(messages[0].get("role")), "system");
    assert_eq!(text(messages[0].get("content")), "prompt");
    assert_eq!(text(messages[1].get("role")), "user");
    assert_eq!(text(messages[1].get("content")), "raw");
    assert!(matches!(body.get("stream"), Some(Json::Bool(false))));
    assert!(matches!(body.get("temperature"), Some(Json::Number(n)) if n == "0.2"));
    assert!(matches!(body.get("max_tokens"), Some(Json::Number(n)) if n == "4096"));
    assert!(matches!(body.get("enable_thinking"), Some(Json::Bool(false))));
}

#[test]
fn token_limit_can_take_the_place_of_a_field() {
    let body = build_request(&config("temperature"), "raw", "prompt");
    assert!(matches!(body.get("temperature"), Some(Json::Number(n)) if n == "4096"));
    let Json::Object(fields) = &body else { panic!("no object") };
    assert_eq!(fields.iter().filter(|(name, _)| name == "temperature").count(), 1);
}

#[test]
fn chat_reply_is_trimmed() {
    let usage = LlmUsage {
        prompt_tokens: Some(30),
        completion_tokens: Some(10),
        total_tokens: Some(40),
    };
    let reply = ChatResponse { choices: vec![" Hello. \n".into(), "b".into()], usage: Some(usage) };
    let out = read_reply(200, "", Some(reply)).unwrap();
    assert_eq!(out.text, "Hello.");
    assert_eq!(out.usage, Some(usage));
}

#[test]
fn chat_replies_that_fail_say_why() {
    let message = |status: u16, body: &str, choices: Option<Vec<&str>>| {
        let reply = choices.map(|c| ChatResponse {
            choices: c.into_iter().map(String::from).collect(),
            usage: None,
        });
        read_reply(status, body, reply).unwrap_err().message
    };
    assert_eq!(message(404, "gone", None), "HTTP 404: gone");
    assert_eq!(message(199, "x", None), "HTTP 199: x");
    assert_eq!(message(300, "x", None), "HTTP 300: x");
    assert_eq!(message(200, "<html>", None), "parsing LLM response: <html>");
    assert_eq!(message(200, "", Some(vec![])), "response has no choices");
    assert_eq!(message(200, "", Some(vec![" \n"])), "LLM returned empty content");
}

fn llm_args() -> LlmArgs {
    LlmArgs {
        no_llm: false,
        base_url: Some("u".into()),
        model: Some("m".into()),
        api_key: Some("k".into()),
        max_token_param: "p".into(),
        timeout_ms: 7,
    }
}

#[test]
fn cleanup_needs_address_model_and_key() {
    let config = configure(llm_args()).unwrap().unwrap();
    assert_eq!((config.base_url.as_str(), config.timeout_ms), ("u", 7));
    let failure = |change: fn(&mut LlmArgs)| {
        let mut args = llm_args();
        change(&mut args);
        configure(args).unwrap_err()
    };
    assert!(failure(|a| a.base_url = None).contains("--llm-base-url"));
    assert!(failure(|a| a.model = None).contains("--llm-model"));
    assert!(failure(|a| a.api_key = None).contains("--llm-api-key"));
    let mut off = llm_args();
    off.no_llm = true;
    off.model = None;
    assert!(configure(off).unwrap().is_none());
}

#[test]
fn disabled_cleanup_always_fails() {
    assert!(DisabledLlm.cleanup("text", "prompt").is_err());
}

#[test]
fn long_texts_are_cut() {
    assert_eq!(truncate("abc", 3), "abc");
    assert_eq!(truncate("你好世界", 2), "你好…[truncated]");
}

#[test]
fn keys_are_hidden() {
    assert_eq!(redact_api_key("a key b key", "key"), "a [redacted-api-key] b [redacted-api-key]");
    assert_eq!(redact_api_key("text", ""), "text");
    assert!(!redact_api_key("sk-1 sk-1", "sk-1").contains("sk-1"));
    // A key that ends like the mark begins can grow together with it.
    assert_eq!(redact_api_key("xx[", "x["), "x[redacted-api-key]");
}
