use hive::comments::{
    format_comments_readable, format_stdin_output_readable, insert_nextline_comment,
    insert_nextline_comment_with_id, insert_wrapped_comment, insert_wrapped_comment_with_id,
    new_comment_id, OutputComment,
};
use hive::config::{default_font_size, AppConfig, WindowConfig};
use hive::offsets::{
    byte_offset_to_char_offset, byte_pos_to_line, char_index_at_utf16, char_offset_to_byte_offset,
};
use hive::text::{push_decimal, split_lines};

fn oc(id: &str, start: usize, end: usize, content: &str, comment: &str, kind: &str) -> OutputComment {
    OutputComment {
        id: id.to_string(),
        comment: comment.to_string(),
        comment_type: kind.to_string(),
        start_line: start,
        end_line: end,
        content: content.to_string(),
    }
}

#[test]
fn readable_report_of_no_comments() {
    assert_eq!(format_comments_readable(&[]), "No review comments found.");
}

#[test]
fn readable_report_of_comments() {
    let cs = vec![
        oc("ab12cd34", 3, 3, "hello", "fix this", "inline"),
        oc("ef56", 4, 6, "one\r\ntwo\n", "rewrite", "line"),
        oc("zz", 10, 10, "", "empty", "inline"),
    ];
    let expected = "=== Review Comments (3) ===\n\
\n[ab12cd34] Line 3 (inline):\n    \"hello\"\n    \u{2192} fix this\n\
\n[ef56] Lines 4-6 (line):\n    \"one\"\n    \"two\"\n    \u{2192} rewrite\n\
\n[zz] Line 10 (inline):\n    (empty selection)\n    \u{2192} empty\n";
    assert_eq!(format_comments_readable(&cs), expected);
}

#[test]
fn stdin_report_without_comments() {
    let r = format_stdin_output_readable("/tmp/x.md", "body", &[], false);
    assert_eq!(
        r,
        "=== File ===\n/tmp/x.md\n\n=== Content ===\nbody\n\n=== Review Comments ===\nNo review comments.\n"
    );
}

#[test]
fn stdin_report_with_comments_and_changes() {
    let cs = vec![oc("id1", 1, 1, "body", "note", "inline")];
    let r = format_stdin_output_readable("f", "body\n", &cs, true);
    assert_eq!(
        r,
        "=== File ===\nf\n\n=== Content ===\nbody\n\n=== Review Comments (content modified) ===\n\n[id1] Line 1 (inline):\n    \"body\"\n    \u{2192} note\n"
    );
}

#[test]
fn decimal_notation() {
    let mut s = String::from("n=");
    push_decimal(&mut s, 0);
    push_decimal(&mut s, 7);
    s.push(',');
    push_decimal(&mut s, 1204);
    assert_eq!(s, "n=07,1204");
    let mut big = String::new();
    push_decimal(&mut big, usize::MAX);
    assert_eq!(big, usize::MAX.to_string());
}

#[test]
fn lines_like_std() {
    for s in ["", "a", "a\n", "a\r\nb", "\n\n", "x\r", "one\ntwo\r\n\nthree"] {
        let expected: Vec<String> = s.lines().map(|l| l.to_string()).collect();
        assert_eq!(split_lines(s), expected, "input {:?}", s);
    }
}

#[test]
fn line_of_byte_position() {
    let text = "first\nsecond\nthird";
    assert_eq!(byte_pos_to_line(text, 0), 1);
    assert_eq!(byte_pos_to_line(text, 5), 1);
    assert_eq!(byte_pos_to_line(text, 6), 2);
    assert_eq!(byte_pos_to_line(text, 13), 3);
    assert_eq!(byte_pos_to_line(text, 1000), 3);
    assert_eq!(byte_pos_to_line("", 3), 1);
}

#[test]
fn utf16_positions_to_bytes() {
    let text = "a\u{1F600}b\u{e9}";
    assert_eq!(char_offset_to_byte_offset(text, 0), Some(0));
    assert_eq!(char_offset_to_byte_offset(text, 1), Some(1));
    assert_eq!(char_offset_to_byte_offset(text, 2), None);
    assert_eq!(char_offset_to_byte_offset(text, 3), Some(5));
    assert_eq!(char_offset_to_byte_offset(text, 4), Some(6));
    assert_eq!(char_offset_to_byte_offset(text, 5), Some(8));
    assert_eq!(char_offset_to_byte_offset(text, 6), None);
}

#[test]
fn byte_positions_to_utf16() {
    let text = "a\u{1F600}b\u{e9}";
    assert_eq!(byte_offset_to_char_offset(text, 0), 0);
    assert_eq!(byte_offset_to_char_offset(text, 1), 1);
    assert_eq!(byte_offset_to_char_offset(text, 5), 3);
    assert_eq!(byte_offset_to_char_offset(text, 6), 4);
    assert_eq!(byte_offset_to_char_offset(text, 8), 5);
    assert_eq!(byte_offset_to_char_offset(text, 99), 5);
}

#[test]
fn utf16_positions_to_char_indices() {
    let text = "a\u{1F600}b";
    assert_eq!(char_index_at_utf16(text, 0), 0);
    assert_eq!(char_index_at_utf16(text, 3), 2);
    assert_eq!(char_index_at_utf16(text, 2), 3);
    assert_eq!(char_index_at_utf16(text, 4), 3);
}

#[test]
fn wrapped_comment_markers() {
    let r = insert_wrapped_comment_with_id("Hello world", 6, 11, "nice", "abcd1234");
    assert_eq!(
        r,
        "Hello <!-- review-start(abcd1234) -->world<!-- review-end(abcd1234): nice -->"
    );
}

#[test]
fn wrapped_comment_after_emoji() {
    let r = insert_wrapped_comment_with_id("\u{1F600}xy", 2, 3, "t", "id");
    assert_eq!(r, "\u{1F600}<!-- review-start(id) -->x<!-- review-end(id): t -->y");
}

#[test]
fn wrapped_comment_past_end_goes_to_end() {
    let r = insert_wrapped_comment_with_id("abc", 1, 99, "t", "id");
    assert_eq!(r, "a<!-- review-start(id) -->bc<!-- review-end(id): t -->");
}

#[test]
fn nextline_comment_markers() {
    let r = insert_nextline_comment_with_id("l1\nl2\nl3", 3, 5, "check", "9f9f");
    assert_eq!(
        r,
        "l1\n<!-- review-line-start(9f9f) -->\nl2\n<!-- review-line-end(9f9f): check -->\nl3"
    );
}

#[test]
fn fresh_ids_are_eight_hex_digits() {
    let id = new_comment_id();
    assert_eq!(id.len(), 8);
    assert!(id.chars().all(|c| c.is_ascii_hexdigit() && !c.is_ascii_uppercase()));
    assert_ne!(new_comment_id(), new_comment_id());
}

#[test]
fn insert_wrapped_comment_uses_fresh_id() {
    let (content, id) = insert_wrapped_comment("Hello world".to_string(), 0, 5, "greet".to_string());
    assert_eq!(id.len(), 8);
    assert_eq!(
        content,
        format!("<!-- review-start({id}) -->Hello<!-- review-end({id}): greet --> world")
    );
}

#[test]
fn insert_nextline_comment_uses_fresh_id() {
    let (content, id) = insert_nextline_comment("a\nb".to_string(), 2, 3, "x".to_string());
    assert_eq!(
        content,
        format!("a\n<!-- review-line-start({id}) -->\nb\n<!-- review-line-end({id}): x -->")
    );
}

#[test]
fn default_config() {
    let c = AppConfig::default();
    assert_eq!(c.theme, "dark");
    assert!(!c.vim_mode);
    assert_eq!(c.font_size, 14);
    assert!(!c.markdown_raw);
    assert_eq!(c.window, WindowConfig { width: 1200, height: 800 });
    assert_eq!(default_font_size(), 14);
}
