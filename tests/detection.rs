use wurdump::detection::{ClipboardContentInfo, ContentDetector, ContentKind};

fn classify(text: &str) -> ClipboardContentInfo {
    ContentDetector::new().detect_content(text)
}

#[test]
fn url_is_detected_without_language() {
    let info = classify("https://example.com/path?q=1");
    assert_eq!(info.content_type, "url");
    assert_eq!(info.code_language, None);
    assert_eq!(info.source_app, "unknown");
    assert_eq!(info.preview, "https://example.com/path?q=1");
    assert_eq!(info.size, 28);
}

#[test]
fn url_surrounded_by_whitespace_is_still_a_url() {
    let info = classify("  http://localhost:8080/a/b  \n");
    assert_eq!(info.content_type, "url");
    assert_eq!(info.preview, "http://localhost:8080/a/b");
}

#[test]
fn json_object_is_detected_as_json() {
    let info = classify(r#"{"a": 1, "b": [2,3]}"#);
    assert_eq!(info.content_type, "json");
    assert_eq!(info.code_language, Some("json".to_string()));
}

#[test]
fn braces_that_do_not_parse_are_not_json() {
    let info = classify("{ not json at all }");
    assert_ne!(info.content_type, "json");
    assert_eq!(info.content_type, "text");
}

#[test]
fn python_function_is_code() {
    let info = classify("def foo():\n    return 1");
    assert_eq!(info.content_type, "code");
    assert_eq!(info.code_language, Some("python".to_string()));
}

#[test]
fn email_address_is_detected() {
    let info = classify("someone@example.org");
    assert_eq!(info.content_type, "email");
    assert_eq!(info.code_language, None);
}

#[test]
fn html_tag_is_detected() {
    let info = classify("<div>hello</div>");
    assert_eq!(info.content_type, "html");
    assert_eq!(info.code_language, Some("html".to_string()));
}

#[test]
fn markdown_heading_is_detected() {
    let info = classify("# Title\nsome words");
    assert_eq!(info.content_type, "markdown");
    assert_eq!(info.code_language, None);
}

#[test]
fn plain_words_are_text() {
    let info = classify("just some words");
    assert_eq!(info.content_type, "text");
    assert_eq!(info.code_language, None);
}

#[test]
fn rust_function_is_rust() {
    let info = classify("fn main() {\n    println!(\"hi\");\n}");
    assert_eq!(info.content_type, "code");
    assert_eq!(info.code_language, Some("rust".to_string()));
}

#[test]
fn go_function_is_go() {
    let info = classify("package main\nfunc main() {\n}");
    assert_eq!(info.code_language, Some("go".to_string()));
}

#[test]
fn javascript_binding_is_javascript() {
    let info = classify("const x = 5;\nfunction f(a) { return a; }");
    assert_eq!(info.content_type, "code");
    assert_eq!(info.code_language, Some("javascript".to_string()));
}

#[test]
fn equal_scores_go_to_the_earliest_language() {
    // "import os" scores one for python; "use std" scores one for rust.
    let info = classify("import os\nuse std");
    assert_eq!(info.code_language, Some("python".to_string()));
}

#[test]
fn detect_code_language_gives_none_on_prose() {
    let d = ContentDetector::new();
    assert_eq!(d.detect_code_language("nothing to see here"), None);
}

#[test]
fn classification_depends_on_the_input_alone() {
    let d = ContentDetector::new();
    let text = "def foo():\n    return 1";
    let a = d.detect_content(text);
    let b = d.detect_content(text);
    let c = ContentDetector::new().detect_content(text);
    for other in [&b, &c] {
        assert_eq!(a.content_type, other.content_type);
        assert_eq!(a.code_language, other.code_language);
        assert_eq!(a.source_app, other.source_app);
        assert_eq!(a.preview, other.preview);
        assert_eq!(a.size, other.size);
    }
}

#[test]
fn preview_of_short_text_is_the_trimmed_text() {
    let info = classify("   hello world   ");
    assert_eq!(info.preview, "hello world");
    assert_eq!(info.size, 17);
}

#[test]
fn preview_of_long_text_breaks_at_the_last_space() {
    let word = "abcdefghi ";
    let text = word.repeat(30);
    let info = classify(&text);
    // The first 200 characters end in a space at index 199.
    let expected = format!("{}...", &text.trim()[..199]);
    assert_eq!(info.preview, expected);
    assert_eq!(info.size, 300);
}

#[test]
fn preview_of_long_text_without_spaces_is_cut_at_the_limit() {
    let text = "x".repeat(250);
    let info = classify(&text);
    assert_eq!(info.preview, format!("{}...", "x".repeat(200)));
}

#[test]
fn preview_of_exactly_the_limit_is_kept_whole() {
    let text = "y".repeat(200);
    let info = classify(&text);
    assert_eq!(info.preview, text);
}

#[test]
fn preview_counts_characters_not_bytes() {
    let text = "é".repeat(150);
    let info = classify(&text);
    assert_eq!(info.preview, text);
    assert_eq!(info.size, 300);
}

#[test]
fn preview_with_space_first_is_only_the_ellipsis_tail() {
    let text = format!("a {}", "z".repeat(260));
    let info = classify(&text);
    assert_eq!(info.preview, "a...");
}

#[test]
fn default_info_is_unknown_text() {
    let info = ClipboardContentInfo::default();
    assert_eq!(info.content_type, "text");
    assert_eq!(info.code_language, None);
    assert_eq!(info.source_app, "unknown");
    assert_eq!(info.preview, "");
    assert_eq!(info.size, 0);
}

#[test]
fn kind_labels() {
    assert_eq!(ContentKind::Url.label(), "url");
    assert_eq!(ContentKind::Email.label(), "email");
    assert_eq!(ContentKind::Json.label(), "json");
    assert_eq!(ContentKind::Html.label(), "html");
    assert_eq!(ContentKind::Markdown.label(), "markdown");
    assert_eq!(ContentKind::Code.label(), "code");
    assert_eq!(ContentKind::Text.label(), "text");
}

#[test]
fn markdown_token_on_a_later_line_counts() {
    assert_eq!(classify("Notes for today\n- buy milk").content_type, "markdown");
    assert_eq!(classify("intro line\n## Section").content_type, "markdown");
}
