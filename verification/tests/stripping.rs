use compile_db::text::strip_comments;

fn strip(s: &str) -> String {
    String::from_utf8(strip_comments(&s.as_bytes().to_vec())).unwrap()
}

#[test]
fn line_comment_removed_newline_kept() {
    assert_eq!(strip("a // x\nb"), "a \nb");
}

#[test]
fn block_comment_removed() {
    assert_eq!(strip("a /* x */ b"), "a  b");
}

#[test]
fn block_comment_non_greedy() {
    assert_eq!(strip("a/*1*/b/*2*/c"), "abc");
}

#[test]
fn unterminated_block_comment_removed_to_end() {
    assert_eq!(strip("a/*b"), "a");
}

#[test]
fn line_comment_at_end_of_text() {
    assert_eq!(strip("a//b"), "a");
}

#[test]
fn string_contents_protected() {
    let text = r#"{"url": "http://example", "glob": "a/*b*/c"}"#;
    assert_eq!(strip(text), text);
}

#[test]
fn escaped_quote_keeps_string_open() {
    let text = r#"{"s": "a\"//still-inside"}"#;
    assert_eq!(strip(text), text);
}

#[test]
fn comment_after_string_removed() {
    assert_eq!(strip(r#""a" // tail"#), r#""a" "#);
}

#[test]
fn stripping_is_idempotent_on_mixed_text() {
    let text = "x /* a */ y // b\n\"s//t\" /* c";
    let once = strip(text);
    let twice = strip(&once);
    assert_eq!(twice, once);
}

#[test]
fn multibyte_text_survives() {
    let text = "{\"k\": \"caf\u{e9} \u{2603}\"} // note";
    assert_eq!(strip(text), "{\"k\": \"caf\u{e9} \u{2603}\"} ");
}
