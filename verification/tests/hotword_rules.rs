use airtalk::ui::settings::model::validate_hotwords;

#[test]
fn hotwords_ok_simple_terms() {
    let input = "React\nVite\nTypeScript\nNode.js\nC++\nC#\n接口\n函数";
    assert!(validate_hotwords(input).is_ok());
}

#[test]
fn hotwords_ok_inner_space_and_trailing_blank() {
    let input = "Model 3\niPhone 15 Pro\n";
    assert!(validate_hotwords(input).is_ok());
}

#[test]
fn hotwords_ok_comment_and_blank_lines_ignored() {
    let input = "# domain terms\n\nReact\n\n# trailing comment\nVite\n";
    assert!(validate_hotwords(input).is_ok());
}

#[test]
fn hotwords_rejects_user_prefix() {
    let err = validate_hotwords("拼写保留：React, Vite").unwrap_err();
    assert!(err.contains("line 1"), "got: {err}");
    assert!(err.contains("：") || err.contains(","), "got: {err}");
}

#[test]
fn hotwords_rejects_slash() {
    let err = validate_hotwords("a/b").unwrap_err();
    assert!(err.contains("'/'"));
}

#[test]
fn hotwords_rejects_brace() {
    let err = validate_hotwords("p{").unwrap_err();
    assert!(err.contains("'{'"));
}

#[test]
fn hotwords_rejects_double_space() {
    let err = validate_hotwords("Model  3").unwrap_err();
    assert!(err.contains("consecutive spaces"));
}

#[test]
fn hotwords_rejects_colon() {
    assert!(validate_hotwords("a:b").is_err());
    assert!(validate_hotwords("a：b").is_err());
}

#[test]
fn refusal_names_the_line() {
    let err = validate_hotwords("React\n\n# note\nVite!").unwrap_err();
    assert!(err.contains("line 4"), "got: {err}");
    assert!(err.contains("'!'"), "got: {err}");
}

#[test]
fn letters_of_all_scripts_are_allowed() {
    assert!(validate_hotwords("Größe\nкод\nコード ٣").is_ok());
    assert!(validate_hotwords("a\u{301}").is_err());
}
