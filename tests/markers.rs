use hive::comments::{insert_nextline_comment, insert_wrapped_comment, OutputComment, ReviewComment};
use hive::markers::{
    editor_comment_from_spans, parse_comments, parse_comments_for_output, remove_comment,
    report_from_spans,
};

const DOC: &str = "Intro <!-- review-start(abc1) -->highlighted<!-- review-end(abc1): needs work -->\nL2\n<!-- review-line-start(x-2) -->\nline A\nline B\n<!-- review-line-end(x-2): check lines -->\nend";

#[test]
fn report_lists_inline_then_line_comments() {
    let found = parse_comments_for_output(DOC);
    assert_eq!(
        found,
        vec![
            OutputComment {
                id: "abc1".to_string(),
                comment: "needs work".to_string(),
                comment_type: "inline".to_string(),
                start_line: 1,
                end_line: 1,
                content: "highlighted".to_string(),
            },
            OutputComment {
                id: "x-2".to_string(),
                comment: "check lines".to_string(),
                comment_type: "line".to_string(),
                start_line: 4,
                end_line: 5,
                content: "line A\nline B".to_string(),
            },
        ]
    );
}

#[test]
fn start_marker_without_end_is_skipped() {
    let text = "a <!-- review-start(lonely) --> b <!-- review-end(other): x -->";
    assert!(parse_comments_for_output(text).is_empty());
    assert!(parse_comments(text.to_string()).is_empty());
}

#[test]
fn text_without_markers_has_no_comments() {
    assert!(parse_comments_for_output("plain text\n").is_empty());
    assert!(parse_comments(String::new()).is_empty());
}

#[test]
fn editor_positions_are_utf16() {
    let text = "\u{1F600} <!-- review-start(id1) -->x<!-- review-end(id1): t -->";
    assert_eq!(
        parse_comments(text.to_string()),
        vec![ReviewComment {
            id: "id1".to_string(),
            text: "t".to_string(),
            comment_type: "inline".to_string(),
            marker_pos: 3,
            highlight_start: 29,
            highlight_end: 30,
        }]
    );
}

#[test]
fn editor_view_of_line_comment() {
    let comments = parse_comments(DOC.to_string());
    assert_eq!(comments.len(), 2);
    let line = &comments[1];
    assert_eq!(line.id, "x-2");
    assert_eq!(line.text, "check lines");
    assert_eq!(line.comment_type, "line");
    let start = DOC.find("<!-- review-line-start").unwrap();
    assert_eq!(line.marker_pos, start);
    assert_eq!(line.highlight_start, DOC.find("line A").unwrap());
    assert_eq!(line.highlight_end, DOC.find("line B").unwrap() + "line B".len());
}

#[test]
fn remove_inline_comment_keeps_text() {
    let text = "\u{1F600} <!-- review-start(id1) -->x<!-- review-end(id1): t -->";
    assert_eq!(remove_comment(text.to_string(), "id1".to_string()), "\u{1F600} x");
}

#[test]
fn remove_line_comment_keeps_lines() {
    let text = "a\n<!-- review-line-start(q) -->\nb\n<!-- review-line-end(q): z -->\nc";
    assert_eq!(remove_comment(text.to_string(), "q".to_string()), "a\nb\nc");
}

#[test]
fn remove_leaves_other_comments() {
    let removed = remove_comment(DOC.to_string(), "abc1".to_string());
    assert_eq!(
        removed,
        "Intro highlighted\nL2\n<!-- review-line-start(x-2) -->\nline A\nline B\n<!-- review-line-end(x-2): check lines -->\nend"
    );
    assert_eq!(remove_comment(DOC.to_string(), "zzz".to_string()), DOC);
}

#[test]
fn inserted_comment_is_found_and_removed() {
    let original = "alpha beta gamma".to_string();
    let (content, id) = insert_wrapped_comment(original.clone(), 6, 10, "why beta?".to_string());
    let found = parse_comments_for_output(&content);
    assert_eq!(found.len(), 1);
    assert_eq!(found[0].id, id);
    assert_eq!(found[0].comment, "why beta?");
    assert_eq!(found[0].content, "beta");
    assert_eq!(remove_comment(content, id), original);
}

#[test]
fn inserted_line_comment_is_found_and_removed() {
    let original = "one\ntwo\nthree".to_string();
    let (content, id) = insert_nextline_comment(original.clone(), 4, 7, "look".to_string());
    let found = parse_comments_for_output(&content);
    assert_eq!(found.len(), 1);
    assert_eq!(found[0].comment_type, "line");
    assert_eq!(found[0].content, "two");
    assert_eq!((found[0].start_line, found[0].end_line), (3, 3));
    assert_eq!(remove_comment(content, id), original);
}

fn span(text: &str, part: &str) -> (usize, usize) {
    let start = text.find(part).unwrap();
    (start, start + part.len())
}

#[test]
fn report_from_given_spans() {
    let text = "ab<!-- review-start(k) -->XY<!-- review-end(k): hi -->";
    let (s0, s1) = span(text, "<!-- review-start(k) -->");
    let id = (s0 + "<!-- review-start(".len(), s0 + "<!-- review-start(".len() + 1);
    let rest = &text[s1..];
    let (e0, e1) = span(rest, "<!-- review-end(k): hi -->");
    let t = span(rest, "hi");
    let c = report_from_spans(text, false, (s0, s1, Some(id)), (e0, e1, Some(t))).unwrap();
    assert_eq!(
        c,
        OutputComment {
            id: "k".to_string(),
            comment: "hi".to_string(),
            comment_type: "inline".to_string(),
            start_line: 1,
            end_line: 1,
            content: "XY".to_string(),
        }
    );
}

#[test]
fn report_from_given_line_spans_drops_final_newline() {
    let text = "p\n<!-- review-line-start(k) -->\nL1\n<!-- review-line-end(k): z -->";
    let (s0, s1) = span(text, "<!-- review-line-start(k) -->\n");
    let id = (s0 + "<!-- review-line-start(".len(), s0 + "<!-- review-line-start(".len() + 1);
    let rest = &text[s1..];
    let (e0, e1) = span(rest, "<!-- review-line-end(k): z -->");
    let t = span(rest, "z -->");
    let c = report_from_spans(text, true, (s0, s1, Some(id)), (e0, e1, Some((t.0, t.0 + 1)))).unwrap();
    assert_eq!(c.content, "L1");
    assert_eq!((c.start_line, c.end_line), (3, 3));
    assert_eq!(c.comment, "z");
    assert_eq!(c.comment_type, "line");
}

#[test]
fn spans_off_the_text_give_nothing() {
    let text = "\u{e9}<!-- review-start(k) -->x";
    assert!(report_from_spans(text, false, (0, 5, Some((1, 2))), (0, 0, None)).is_none());
    assert!(report_from_spans(text, false, (2, 26, None), (99, 100, None)).is_none());
    assert!(editor_comment_from_spans(text, false, (2, 26, None), (99, 100, None)).is_none());
}

#[test]
fn editor_comment_from_given_spans() {
    let text = "\u{1F600}<!-- review-start(k) -->XY<!-- review-end(k): hi -->";
    let (s0, s1) = span(text, "<!-- review-start(k) -->");
    let rest = &text[s1..];
    let (e0, e1) = span(rest, "<!-- review-end(k): hi -->");
    let c = editor_comment_from_spans(text, false, (s0, s1, None), (e0, e1, None)).unwrap();
    assert_eq!(c.id, "");
    assert_eq!(c.text, "");
    assert_eq!(c.marker_pos, 2);
    assert_eq!(c.highlight_start, 2 + "<!-- review-start(k) -->".len());
    assert_eq!(c.highlight_end, c.highlight_start + 2);
}

#[test]
fn identifier_is_matched_literally_when_removing() {
    let text = "x <!-- review-start(abc) -->y<!-- review-end(abc): n -->";
    assert_eq!(remove_comment(text.to_string(), "a.c".to_string()), text);
    assert_eq!(remove_comment(text.to_string(), "abc".to_string()), "x y");
}
