use airtalk::engine::config::{parse_hotwords, system_prompt, CoreConfig, DEFAULT_PROMPT};
use airtalk::engine::params::{build_llm_prompt, downgrades, SessionParams};

fn cfg(hotwords: Vec<&str>, default_lang: &str) -> CoreConfig {
    CoreConfig {
        asr_default_language: default_lang.to_string(),
        asr_concurrency: 1,
        hotwords: hotwords.into_iter().map(String::from).collect(),
        asr_default_enable_itn: false,
        llm_enabled: true,
        llm_prompt: String::new(),
    }
}

#[test]
fn hotwords_wrapped_with_chinese_label_on_auto() {
    let config = cfg(vec!["React", "Vite", "TypeScript"], "auto");
    let p = SessionParams::resolve(&config, None, None, None, None);
    assert_eq!(p.context.as_deref(), Some("拼写保留：React, Vite, TypeScript"));
}

#[test]
fn hotwords_wrapped_with_english_label_when_pinned_en() {
    let config = cfg(vec!["PostgreSQL", "CUDA"], "en");
    let p = SessionParams::resolve(&config, None, None, None, None);
    assert_eq!(p.context.as_deref(), Some("Preserve spelling: PostgreSQL, CUDA"));
}

#[test]
fn hotwords_use_chinese_label_for_zh() {
    let config = cfg(vec!["接口", "函数"], "zh");
    let p = SessionParams::resolve(&config, None, None, None, None);
    assert_eq!(p.context.as_deref(), Some("拼写保留：接口, 函数"));
}

#[test]
fn empty_hotwords_produces_no_context() {
    let config = cfg(vec![], "auto");
    let p = SessionParams::resolve(&config, None, None, None, None);
    assert_eq!(p.context, None);
}

#[test]
fn per_session_context_appends_after_labeled_hotwords() {
    let config = cfg(vec!["React"], "auto");
    let p = SessionParams::resolve(&config, Some("some extra context".into()), None, None, None);
    assert_eq!(p.context.as_deref(), Some("拼写保留：React\nsome extra context"));
}

#[test]
fn per_session_language_overrides_default_for_label() {
    let config = cfg(vec!["React"], "auto");
    let p = SessionParams::resolve(&config, None, Some("en".into()), None, None);
    assert_eq!(p.context.as_deref(), Some("Preserve spelling: React"));
}

#[test]
fn per_session_auto_lifts_a_pinned_default() {
    let config = cfg(vec![], "zh");
    let language = |l: Option<&str>| {
        SessionParams::resolve(&config, None, l.map(String::from), None, None).language
    };
    assert_eq!(language(None).as_deref(), Some("zh"));
    assert_eq!(language(Some("en")).as_deref(), Some("en"));
    assert_eq!(language(Some("auto")), None);
    assert_eq!(language(Some("")), None);
}

#[test]
fn switches_fall_back_to_the_defaults() {
    let mut config = cfg(vec![], "auto");
    let p = SessionParams::resolve(&config, None, None, None, None);
    assert!(!p.enable_itn && p.llm_enabled);
    let p = SessionParams::resolve(&config, None, None, Some(true), Some(false));
    assert!(p.enable_itn && !p.llm_enabled);
    config.llm_enabled = false;
    let p = SessionParams::resolve(&config, None, None, None, Some(true));
    assert!(!p.llm_enabled);
}

#[test]
fn context_alone_stands_as_it_is() {
    let config = cfg(vec![], "auto");
    let context = |c: &str| SessionParams::resolve(&config, Some(c.into()), None, None, None).context;
    assert_eq!(context("terms").as_deref(), Some("terms"));
    assert_eq!(context(""), None);
}

#[test]
fn prompt_takes_a_context_block() {
    assert_eq!(build_llm_prompt("base", None), "base");
    assert_eq!(build_llm_prompt("base", Some("")), "base");
    assert_eq!(build_llm_prompt("base", Some("a, b")), "base\n\nContext:\na, b");
}

#[test]
fn hotword_file_skips_comments_and_blanks() {
    let words = parse_hotwords("# terms\n\n  React \r\n\u{3000}\n#x\nC#\n");
    assert_eq!(words, vec!["React", "C#"]);
}

#[test]
fn at_least_one_worker() {
    let mut config = cfg(vec![], "auto");
    config.asr_concurrency = 0;
    assert_eq!(config.asr_workers(), 1);
    config.asr_concurrency = 4;
    assert_eq!(config.asr_workers(), 4);
}

#[test]
fn prompt_file_replaces_the_default() {
    assert_eq!(system_prompt(Some("mine".into())), "mine");
    assert_eq!(system_prompt(None), DEFAULT_PROMPT);
    assert!(!DEFAULT_PROMPT.is_empty());
}

#[test]
fn cleanup_that_is_not_there_is_noted() {
    let mut config = cfg(vec![], "auto");
    assert!(!downgrades(&config, Some(true)));
    config.llm_enabled = false;
    assert!(downgrades(&config, Some(true)));
    assert!(!downgrades(&config, Some(false)) && !downgrades(&config, None));
    let params = SessionParams::resolve(&config, None, None, None, Some(true));
    assert!(!params.llm_enabled);
}
