use vstd::prelude::*;
use vstd::string::{StringExecFns, StringSliceAdditionalSpecFns};
use vstd::utf8::{encode_utf8, is_char_boundary};

use crate::comments::{OutputComment, ReviewComment};
use crate::offsets::{byte_offset_to_char_offset, byte_pos_to_line, newline_count, utf16_before_byte};

verus! {

/// A match of a pattern: the byte span of the whole match and of its first
/// group, if that group took part.
pub type Span = (nat, nat, Option<(nat, nat)>);

/// What `regex::escape` makes of the text with UTF-8 bytes `s`.
pub uninterp spec fn regex_escaped(s: Seq<u8>) -> Seq<char>;

/// The successive non-overlapping matches of `pattern` in the text with
/// UTF-8 bytes `hay`, or `None` when `pattern` is not a valid pattern.
pub uninterp spec fn regex_captures(pattern: Seq<char>, hay: Seq<u8>) -> Option<Seq<Span>>;

/// The text with UTF-8 bytes `hay` with every match of `pattern` removed, or
/// `None` when `pattern` is not a valid pattern.
pub uninterp spec fn regex_removed(pattern: Seq<char>, hay: Seq<u8>) -> Option<Seq<char>>;

pub open spec fn group_view(g: Option<(usize, usize)>) -> Option<(nat, nat)> {
    match g {
        Some(p) => Some((p.0 as nat, p.1 as nat)),
        None => None,
    }
}

pub open spec fn span_view(t: (usize, usize, Option<(usize, usize)>)) -> Span {
    (t.0 as nat, t.1 as nat, group_view(t.2))
}

/// Relies on `regex::escape`: the pattern that matches exactly `s`.
#[verifier::external_body]
fn escape_pattern(s: &str) -> (r: String)
    ensures
        r@ == regex_escaped(s.spec_bytes()),
{
    regex::escape(s)
}

/// Relies on `regex::Regex::new` and `Regex::captures_iter`: the matches of
/// `pattern` in `hay`, each with the byte span of the match and of group 1.
#[verifier::external_body]
fn find_captures(pattern: &str, hay: &str) -> (r: Option<Vec<(usize, usize, Option<(usize, usize)>)>>)
    ensures
        r is None <==> regex_captures(pattern@, hay.spec_bytes()) is None,
        r matches Some(v) ==> regex_captures(pattern@, hay.spec_bytes()) == Some(
            v@.map_values(|t: (usize, usize, Option<(usize, usize)>)| span_view(t)),
        ),
{
    match regex::Regex::new(pattern) {
        Ok(re) => Some(
            re.captures_iter(hay).map(|c| {
                let m = c.get_match();
                (m.start(), m.end(), c.get(1).map(|g| (g.start(), g.end())))
            }).collect(),
        ),
        Err(_) => None,
    }
}

/// Relies on `regex::Regex::new` and `Regex::replace_all` with an empty
/// replacement: `hay` without the matches of `pattern`.
#[verifier::external_body]
fn remove_matches(pattern: &str, hay: &str) -> (r: Option<String>)
    ensures
        r is None <==> regex_removed(pattern@, hay.spec_bytes()) is None,
        r matches Some(s) ==> regex_removed(pattern@, hay.spec_bytes()) == Some(s@),
{
    match regex::Regex::new(pattern) {
        Ok(re) => Some(re.replace_all(hay, "").into_owned()),
        Err(_) => None,
    }
}

/// The pattern of the start marker of an inline or a line comment; group 1
/// is the identifier.
pub open spec fn start_pattern(line: bool) -> Seq<char> {
    if line {
        "<!--\\s*review-line-start\\(([a-zA-Z0-9-]+)\\)\\s*-->\\n?"@
    } else {
        "<!--\\s*review-start\\(([a-zA-Z0-9-]+)\\)\\s*-->"@
    }
}

/// The pattern of the end marker of a comment whose escaped identifier is
/// `escaped`; group 1 is the comment's text.
pub open spec fn end_pattern(line: bool, escaped: Seq<char>) -> Seq<char> {
    (if line {
        "<!--\\s*review-line-end\\("@
    } else {
        "<!--\\s*review-end\\("@
    }) + escaped + "\\):\\s*([\\s\\S]*?)\\s*-->"@
}

/// Whether bytes `from..to` of `b` can be cut out as text.
pub open spec fn slice_ok(b: Seq<u8>, from: nat, to: nat) -> bool {
    &&& from <= to <= b.len()
    &&& is_char_boundary(b, to as int)
    &&& is_char_boundary(b.subrange(0, to as int), from as int)
}

/// The bytes of an optional span of `b`: empty for a group that did not take
/// part, `None` when the span cannot be cut out.
pub open spec fn piece(b: Seq<u8>, g: Option<(nat, nat)>) -> Option<Seq<u8>> {
    match g {
        None => Some(Seq::empty()),
        Some(s) => if slice_ok(b, s.0, s.1) {
            Some(b.subrange(s.0 as int, s.1 as int))
        } else {
            None
        },
    }
}

/// Where the commented text ends: at the end marker, less one line feed
/// before it for a line comment.
pub open spec fn content_end(b: Seq<u8>, line: bool, start: nat, end: nat) -> nat {
    if line && end > start && end - 1 < b.len() && b[end - 1] == 10 {
        (end - 1) as nat
    } else {
        end
    }
}

/// The first end marker after start marker match `m` in `b` with the same
/// identifier, as a span relative to the end of the start marker.
pub open spec fn end_match(b: Seq<u8>, line: bool, m: Span) -> Option<Span> {
    match piece(b, m.2) {
        None => None,
        Some(id) => if !slice_ok(b, m.1, b.len()) {
            None
        } else {
            match regex_captures(
                end_pattern(line, regex_escaped(id)),
                b.subrange(m.1 as int, b.len() as int),
            ) {
                None => None,
                Some(ends) => if ends.len() == 0 {
                    None
                } else {
                    Some(ends[0])
                },
            }
        },
    }
}

/// The comment between start marker match `m` and end marker match `e`
/// (relative to the end of `m`) in `b`: its identifier and text (as UTF-8)
/// and where its commented text ends.
pub open spec fn comment_from_spans(b: Seq<u8>, line: bool, m: Span, e: Span) -> Option<
    (Seq<u8>, Seq<u8>, nat),
> {
    match piece(b, m.2) {
        None => None,
        Some(id) => if !slice_ok(b, m.1, b.len()) || e.0 > b.len() - m.1 {
            None
        } else {
            match piece(b.subrange(m.1 as int, b.len() as int), e.2) {
                None => None,
                Some(text) => Some((id, text, content_end(b, line, m.1, m.1 + e.0))),
            }
        },
    }
}

pub open spec fn kind_name(line: bool) -> Seq<char> {
    if line {
        "line"@
    } else {
        "inline"@
    }
}

/// The line, counted from 1, of byte position `pos` of `b`.
pub open spec fn line_at(b: Seq<u8>, pos: nat) -> nat {
    newline_count(
        b.take(
            if pos < b.len() {
                pos as int
            } else {
                b.len() as int
            },
        ),
    ) + 1
}

/// A comment as reported on exit: kind, identifier, text, first and last
/// line, and commented text (texts as UTF-8).
pub type ReportView = (Seq<char>, Seq<u8>, Seq<u8>, nat, nat, Seq<u8>);

/// A comment as the editor shows it: kind, identifier, text, and the UTF-16
/// positions of the marker, of the start and of the end of the commented
/// text.
pub type EditorView = (Seq<char>, Seq<u8>, Seq<u8>, nat, nat, nat);

/// The report of the comment between start match `m` and end match `e`.
pub open spec fn report_from(b: Seq<u8>, line: bool, m: Span, e: Span) -> Option<ReportView> {
    match comment_from_spans(b, line, m, e) {
        None => None,
        Some(f) => Some(
            (
                kind_name(line),
                f.0,
                f.1,
                line_at(b, m.1),
                line_at(b, f.2),
                if slice_ok(b, m.1, f.2) {
                    b.subrange(m.1 as int, f.2 as int)
                } else {
                    Seq::empty()
                },
            ),
        ),
    }
}

/// The editor's view of the comment between start match `m` and end match
/// `e`, positions taken in `s`.
pub open spec fn editor_from(b: Seq<u8>, s: Seq<char>, line: bool, m: Span, e: Span) -> Option<
    EditorView,
> {
    match comment_from_spans(b, line, m, e) {
        None => None,
        Some(f) => Some(
            (
                kind_name(line),
                f.0,
                f.1,
                utf16_before_byte(s, m.0),
                utf16_before_byte(s, m.1),
                utf16_before_byte(s, f.2),
            ),
        ),
    }
}

pub open spec fn report_of(b: Seq<u8>, line: bool, m: Span) -> Option<ReportView> {
    match end_match(b, line, m) {
        None => None,
        Some(e) => report_from(b, line, m, e),
    }
}

pub open spec fn editor_of(b: Seq<u8>, s: Seq<char>, line: bool, m: Span) -> Option<EditorView> {
    match end_match(b, line, m) {
        None => None,
        Some(e) => editor_from(b, s, line, m, e),
    }
}

/// The reports of the comments opened by the matches `ms`, in order.
pub open spec fn reports(b: Seq<u8>, line: bool, ms: Seq<Span>) -> Seq<ReportView>
    decreases ms.len(),
{
    if ms.len() == 0 {
        Seq::empty()
    } else {
        reports(b, line, ms.drop_last()) + match report_of(b, line, ms.last()) {
            Some(c) => seq![c],
            None => Seq::empty(),
        }
    }
}

pub open spec fn editor_views(b: Seq<u8>, s: Seq<char>, line: bool, ms: Seq<Span>) -> Seq<
    EditorView,
>
    decreases ms.len(),
{
    if ms.len() == 0 {
        Seq::empty()
    } else {
        editor_views(b, s, line, ms.drop_last()) + match editor_of(b, s, line, ms.last()) {
            Some(c) => seq![c],
            None => Seq::empty(),
        }
    }
}

/// The reports of the comments of one kind in `b`.
pub open spec fn reports_of_kind(b: Seq<u8>, line: bool) -> Seq<ReportView> {
    match regex_captures(start_pattern(line), b) {
        None => Seq::empty(),
        Some(ms) => reports(b, line, ms),
    }
}

pub open spec fn editor_views_of_kind(b: Seq<u8>, s: Seq<char>, line: bool) -> Seq<EditorView> {
    match regex_captures(start_pattern(line), b) {
        None => Seq::empty(),
        Some(ms) => editor_views(b, s, line, ms),
    }
}

pub open spec fn report_view(c: OutputComment) -> ReportView {
    (
        c.comment_type@,
        encode_utf8(c.id@),
        encode_utf8(c.comment@),
        c.start_line as nat,
        c.end_line as nat,
        encode_utf8(c.content@),
    )
}

pub open spec fn editor_view(c: ReviewComment) -> EditorView {
    (
        c.comment_type@,
        encode_utf8(c.id@),
        encode_utf8(c.text@),
        c.marker_pos as nat,
        c.highlight_start as nat,
        c.highlight_end as nat,
    )
}

fn byte_slice<'a>(s: &'a str, from: usize, to: usize) -> (r: Option<&'a str>)
    ensures
        r is Some <==> slice_ok(s.spec_bytes(), from as nat, to as nat),
        r matches Some(p) ==> p.spec_bytes() == s.spec_bytes().subrange(from as int, to as int),
{
    if from <= to && to <= s.as_bytes().len() && s.is_char_boundary(to) {
        let (left, _) = s.split_at(to);
        if left.is_char_boundary(from) {
            let (_, mid) = left.split_at(from);
            assert(mid.spec_bytes() =~= s.spec_bytes().subrange(from as int, to as int));
            Some(mid)
        } else {
            None
        }
    } else {
        None
    }
}

fn owned_piece(s: &str, g: Option<(usize, usize)>) -> (r: Option<String>)
    ensures
        match r {
            None => piece(s.spec_bytes(), group_view(g)) is None,
            Some(t) => piece(s.spec_bytes(), group_view(g))
                == Some(encode_utf8(t@)),
        },
{
    match g {
        None => {
            let t = String::new();
            assert(encode_utf8(t@) =~= Seq::<u8>::empty());
            Some(t)
        },
        Some(p) => match byte_slice(s, p.0, p.1) {
            Some(x) => Some(String::from_str(x)),
            None => None,
        },
    }
}

/// Finds the end marker of the comment opened by start marker match `m`.
fn find_end(content: &str, line: bool, m: (usize, usize, Option<(usize, usize)>)) -> (r: Option<
    (usize, usize, Option<(usize, usize)>),
>)
    ensures
        match r {
            None => end_match(content.spec_bytes(), line, span_view(m)) is None,
            Some(e) => end_match(content.spec_bytes(), line, span_view(m)) == Some(span_view(e)),
        },
{
    let id = match owned_piece(content, m.2) {
        Some(id) => id,
        None => return None,
    };
    let rest = match byte_slice(content, m.1, content.as_bytes().len()) {
        Some(rest) => rest,
        None => return None,
    };
    let escaped = escape_pattern(id.as_str());
    let mut pattern = String::new();
    if line {
        pattern.append("<!--\\s*review-line-end\\(");
    } else {
        pattern.append("<!--\\s*review-end\\(");
    }
    pattern.append(escaped.as_str());
    pattern.append("\\):\\s*([\\s\\S]*?)\\s*-->");
    assert(pattern@ =~= end_pattern(line, regex_escaped(encode_utf8(id@))));
    let ends = match find_captures(pattern.as_str(), rest) {
        Some(ends) => ends,
        None => return None,
    };
    if ends.len() == 0 {
        return None;
    }
    let first = ends[0];
    proof {
        let vs = ends@.map_values(|t: (usize, usize, Option<(usize, usize)>)| span_view(t));
        assert(vs[0] == span_view(first));
    }
    Some(first)
}

/// The identifier, text and end of the commented text of the comment
/// between start match `m` and end match `e`.
fn spans_to_parts(
    content: &str,
    line: bool,
    m: (usize, usize, Option<(usize, usize)>),
    e: (usize, usize, Option<(usize, usize)>),
) -> (r: Option<(String, String, usize)>)
    ensures
        match r {
            None => comment_from_spans(content.spec_bytes(), line, span_view(m), span_view(e)) is None,
            Some(f) => comment_from_spans(content.spec_bytes(), line, span_view(m), span_view(e))
                == Some((encode_utf8(f.0@), encode_utf8(f.1@), f.2 as nat)) && f.2
                <= content.spec_bytes().len(),
        },
{
    let id = match owned_piece(content, m.2) {
        Some(id) => id,
        None => return None,
    };
    let bytes = content.as_bytes();
    let total = bytes.len();
    let rest = match byte_slice(content, m.1, total) {
        Some(rest) => rest,
        None => return None,
    };
    if e.0 > total - m.1 {
        return None;
    }
    let text = match owned_piece(rest, e.2) {
        Some(text) => text,
        None => return None,
    };
    let mut stop = m.1 + e.0;
    if line && stop > m.1 && bytes[stop - 1] == 10u8 {
        stop = stop - 1;
    }
    Some((id, text, stop))
}

/// The report of the comment between start marker match `m` and end marker
/// match `e`, the spans given as byte offsets (those of `e` counted from the
/// end of `m`); `None` when a span does not cut `content` at character
/// boundaries.
pub fn report_from_spans(
    content: &str,
    line: bool,
    m: (usize, usize, Option<(usize, usize)>),
    e: (usize, usize, Option<(usize, usize)>),
) -> (r: Option<OutputComment>)
    requires
        content.spec_bytes().len() < usize::MAX,
    ensures
        match r {
            None => report_from(content.spec_bytes(), line, span_view(m), span_view(e)) is None,
            Some(c) => report_from(content.spec_bytes(), line, span_view(m), span_view(e)) == Some(
                report_view(c),
            ),
        },
{
    match spans_to_parts(content, line, m, e) {
        Some(f) => {
            let (id, text, stop) = f;
            let start_line = byte_pos_to_line(content, m.1);
            let end_line = byte_pos_to_line(content, stop);
            let highlighted = match byte_slice(content, m.1, stop) {
                Some(h) => String::from_str(h),
                None => String::new(),
            };
            let kind = if line {
                String::from_str("line")
            } else {
                String::from_str("inline")
            };
            let c = OutputComment {
                id,
                comment: text,
                comment_type: kind,
                start_line,
                end_line,
                content: highlighted,
            };
            proof {
                assert(encode_utf8(Seq::<char>::empty()) =~= Seq::<u8>::empty());
            }
            Some(c)
        },
        None => None,
    }
}

/// The editor's view of the comment between start marker match `m` and end
/// marker match `e` (spans as for `report_from_spans`), with UTF-16
/// positions.
pub fn editor_comment_from_spans(
    content: &str,
    line: bool,
    m: (usize, usize, Option<(usize, usize)>),
    e: (usize, usize, Option<(usize, usize)>),
) -> (r: Option<ReviewComment>)
    ensures
        match r {
            None => editor_from(content.spec_bytes(), content@, line, span_view(m), span_view(e))
                is None,
            Some(c) => editor_from(content.spec_bytes(), content@, line, span_view(m), span_view(e))
                == Some(editor_view(c)),
        },
{
    match spans_to_parts(content, line, m, e) {
        Some(f) => {
            let (id, text, stop) = f;
            let kind = if line {
                String::from_str("line")
            } else {
                String::from_str("inline")
            };
            Some(
                ReviewComment {
                    id,
                    text,
                    comment_type: kind,
                    marker_pos: byte_offset_to_char_offset(content, m.0),
                    highlight_start: byte_offset_to_char_offset(content, m.1),
                    highlight_end: byte_offset_to_char_offset(content, stop),
                },
            )
        },
        None => None,
    }
}

/// The comments of `content` as reported on exit: first the inline
/// comments, then the line comments, each kind in the order of its start
/// markers; a start marker without a matching end marker is skipped.
pub fn parse_comments_for_output(content: &str) -> (r: Vec<OutputComment>)
    requires
        content.spec_bytes().len() < usize::MAX,
    ensures
        r@.map_values(|c: OutputComment| report_view(c)) == reports_of_kind(
            content.spec_bytes(),
            false,
        ) + reports_of_kind(content.spec_bytes(), true),
{
    let mut out: Vec<OutputComment> = Vec::new();
    collect_reports(content, false, &mut out);
    collect_reports(content, true, &mut out);
    out
}

fn collect_reports(content: &str, line: bool, out: &mut Vec<OutputComment>)
    requires
        content.spec_bytes().len() < usize::MAX,
    ensures
        final(out)@.map_values(|c: OutputComment| report_view(c)) == old(out)@.map_values(
            |c: OutputComment| report_view(c),
        ) + reports_of_kind(content.spec_bytes(), line),
{
    let ghost b = content.spec_bytes();
    let ghost start = old(out)@.map_values(|c: OutputComment| report_view(c));
    let pattern = if line {
        "<!--\\s*review-line-start\\(([a-zA-Z0-9-]+)\\)\\s*-->\\n?"
    } else {
        "<!--\\s*review-start\\(([a-zA-Z0-9-]+)\\)\\s*-->"
    };
    assert(pattern@ == start_pattern(line));
    let starts = match find_captures(pattern, content) {
        Some(s) => s,
        None => {
            assert(out@.map_values(|c: OutputComment| report_view(c)) =~= start + Seq::empty());
            return ;
        },
    };
    let ghost ms = starts@.map_values(|t: (usize, usize, Option<(usize, usize)>)| span_view(t));
    let mut i: usize = 0;
    while i < starts.len()
        invariant
            b == content.spec_bytes(),
            b.len() < usize::MAX,
            ms == starts@.map_values(|t: (usize, usize, Option<(usize, usize)>)| span_view(t)),
            0 <= i <= starts@.len(),
            out@.map_values(|c: OutputComment| report_view(c)) == start + reports(
                b,
                line,
                ms.take(i as int),
            ),
        decreases starts@.len() - i,
    {
        let m = starts[i];
        proof {
            assert(ms[i as int] == span_view(m));
            assert(ms.take(i + 1).drop_last() =~= ms.take(i as int));
            assert(ms.take(i + 1).last() == span_view(m));
        }
        let ghost before = out@;
        match find_end(content, line, m) {
            Some(e) => match report_from_spans(content, line, m, e) {
                Some(c) => {
                    out.push(c);
                    proof {
                        assert(out@.map_values(|c: OutputComment| report_view(c)) =~= before.map_values(
                            |c: OutputComment| report_view(c),
                        ).push(report_view(c)));
                    }
                },
                None => {},
            },
            None => {},
        }
        proof {
            assert(out@.map_values(|c: OutputComment| report_view(c)) =~= start + reports(
                b,
                line,
                ms.take(i + 1),
            ));
        }
        i = i + 1;
    }
    proof {
        assert(ms.take(i as int) =~= ms);
    }
}

/// The comments of `content` as the editor shows them, with UTF-16
/// positions: first the inline comments, then the line comments, each kind
/// in the order of its start markers; a start marker without a matching end
/// marker is skipped.
pub fn parse_comments(content: String) -> (r: Vec<ReviewComment>)
    ensures
        r@.map_values(|c: ReviewComment| editor_view(c)) == editor_views_of_kind(
            encode_utf8(content@),
            content@,
            false,
        ) + editor_views_of_kind(encode_utf8(content@), content@, true),
{
    let mut out: Vec<ReviewComment> = Vec::new();
    collect_editor_views(content.as_str(), false, &mut out);
    collect_editor_views(content.as_str(), true, &mut out);
    out
}

fn collect_editor_views(content: &str, line: bool, out: &mut Vec<ReviewComment>)
    ensures
        final(out)@.map_values(|c: ReviewComment| editor_view(c)) == old(out)@.map_values(
            |c: ReviewComment| editor_view(c),
        ) + editor_views_of_kind(content.spec_bytes(), content@, line),
{
    let ghost b = content.spec_bytes();
    let ghost start = old(out)@.map_values(|c: ReviewComment| editor_view(c));
    let pattern = if line {
        "<!--\\s*review-line-start\\(([a-zA-Z0-9-]+)\\)\\s*-->\\n?"
    } else {
        "<!--\\s*review-start\\(([a-zA-Z0-9-]+)\\)\\s*-->"
    };
    assert(pattern@ == start_pattern(line));
    let starts = match find_captures(pattern, content) {
        Some(s) => s,
        None => {
            assert(out@.map_values(|c: ReviewComment| editor_view(c)) =~= start + Seq::empty());
            return ;
        },
    };
    let ghost ms = starts@.map_values(|t: (usize, usize, Option<(usize, usize)>)| span_view(t));
    let mut i: usize = 0;
    while i < starts.len()
        invariant
            b == content.spec_bytes(),
            ms == starts@.map_values(|t: (usize, usize, Option<(usize, usize)>)| span_view(t)),
            0 <= i <= starts@.len(),
            out@.map_values(|c: ReviewComment| editor_view(c)) == start + editor_views(
                b,
                content@,
                line,
                ms.take(i as int),
            ),
        decreases starts@.len() - i,
    {
        let m = starts[i];
        proof {
            assert(ms[i as int] == span_view(m));
            assert(ms.take(i + 1).drop_last() =~= ms.take(i as int));
            assert(ms.take(i + 1).last() == span_view(m));
        }
        let ghost before = out@;
        match find_end(content, line, m) {
            Some(e) => match editor_comment_from_spans(content, line, m, e) {
                Some(c) => {
                    out.push(c);
                    proof {
                        assert(out@.map_values(|c: ReviewComment| editor_view(c)) =~= before.map_values(
                            |c: ReviewComment| editor_view(c),
                        ).push(editor_view(c)));
                    }
                },
                None => {},
            },
            None => {},
        }
        proof {
            assert(out@.map_values(|c: ReviewComment| editor_view(c)) =~= start + editor_views(
                b,
                content@,
                line,
                ms.take(i + 1),
            ));
        }
        i = i + 1;
    }
    proof {
        assert(ms.take(i as int) =~= ms);
    }
}

/// The patterns that match the markers of comment `escaped` (an escaped
/// identifier), in the order they are removed: inline start, inline end,
/// line start with the line feed after it, line end with the line feed
/// before it.
pub open spec fn removal_patterns(escaped: Seq<char>) -> Seq<Seq<char>> {
    seq![
        "<!--\\s*review-start\\("@ + escaped + "\\)\\s*-->"@,
        "<!--\\s*review-end\\("@ + escaped + "\\):\\s*[\\s\\S]*?\\s*-->"@,
        "<!--\\s*review-line-start\\("@ + escaped + "\\)\\s*-->\\n?"@,
        "\\n?<!--\\s*review-line-end\\("@ + escaped + "\\):\\s*[\\s\\S]*?\\s*-->"@,
    ]
}

/// `text` after removing the matches of each of `patterns` in turn; a
/// pattern that is not valid leaves the text as it is.
pub open spec fn removed_in_turn(text: Seq<char>, patterns: Seq<Seq<char>>) -> Seq<char>
    decreases patterns.len(),
{
    if patterns.len() == 0 {
        text
    } else {
        let before = removed_in_turn(text, patterns.drop_last());
        match regex_removed(patterns.last(), encode_utf8(before)) {
            Some(after) => after,
            None => before,
        }
    }
}

fn concat3(a: &str, b: &str, c: &str) -> (r: String)
    ensures
        r@ == a@ + b@ + c@,
{
    let mut r = String::from_str(a);
    r.append(b);
    r.append(c);
    r
}

/// `content` without the markers of comment `comment_id`, of either kind;
/// the commented text stays.
pub fn remove_comment(content: String, comment_id: String) -> (r: String)
    ensures
        r@ == removed_in_turn(
            content@,
            removal_patterns(regex_escaped(encode_utf8(comment_id@))),
        ),
{
    let escaped = escape_pattern(comment_id.as_str());
    let e = escaped.as_str();
    let patterns = [
        concat3("<!--\\s*review-start\\(", e, "\\)\\s*-->"),
        concat3("<!--\\s*review-end\\(", e, "\\):\\s*[\\s\\S]*?\\s*-->"),
        concat3("<!--\\s*review-line-start\\(", e, "\\)\\s*-->\\n?"),
        concat3("\\n?<!--\\s*review-line-end\\(", e, "\\):\\s*[\\s\\S]*?\\s*-->"),
    ];
    let ghost ps = removal_patterns(escaped@);
    let mut result = content;
    let mut i: usize = 0;
    while i < 4
        invariant
            0 <= i <= 4,
            ps.len() == 4,
            forall|j: int| 0 <= j < 4 ==> #[trigger] patterns@[j]@ == ps[j],
            result@ == removed_in_turn(content@, ps.take(i as int)),
        decreases 4 - i,
    {
        proof {
            assert(ps.take(i + 1).drop_last() =~= ps.take(i as int));
            assert(ps.take(i + 1).last() == ps[i as int]);
        }
        match remove_matches(patterns[i].as_str(), result.as_str()) {
            Some(after) => {
                result = after;
            },
            None => {},
        }
        i = i + 1;
    }
    assert(ps.take(4) =~= ps);
    result
}

} // verus!
