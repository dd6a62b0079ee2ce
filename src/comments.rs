use vstd::prelude::*;
use vstd::string::StringExecFns;

use crate::offsets::{char_index_at_utf16, char_index_or_end};
use crate::text::{decimal, ends_with_newline, lines, push_decimal, split_lines, strings_of};

pub use crate::markers::{parse_comments, parse_comments_for_output, remove_comment};

verus! {

/// A review comment as the editor shows it; positions are UTF-16 offsets.
#[derive(Debug, Clone, PartialEq)]
pub struct ReviewComment {
    pub id: String,
    pub text: String,
    /// `inline` or `line`.
    pub comment_type: String,
    /// Where the start marker begins.
    pub marker_pos: usize,
    /// Where the highlighted text begins.
    pub highlight_start: usize,
    /// Where the highlighted text ends.
    pub highlight_end: usize,
}

/// A review comment as reported on exit, with line numbers and the text it
/// is about.
#[derive(Debug, Clone, PartialEq)]
pub struct OutputComment {
    pub id: String,
    pub comment: String,
    /// `inline` or `line`.
    pub comment_type: String,
    pub start_line: usize,
    pub end_line: usize,
    pub content: String,
}

/// The report of a review of text that came on standard input.
#[derive(Debug, Clone, PartialEq)]
pub struct StdinOutput {
    pub file: String,
    pub content: String,
    pub comments: Vec<OutputComment>,
    pub modified: bool,
}

/// `Line N` for a comment on one line, `Lines N-M` otherwise.
pub open spec fn line_info(start: nat, end: nat) -> Seq<char> {
    if start == end {
        "Line "@ + decimal(start)
    } else {
        "Lines "@ + decimal(start) + "-"@ + decimal(end)
    }
}

/// Each line indented and in double quotes, one per output line.
pub open spec fn quoted_lines(ls: Seq<Seq<char>>) -> Seq<char>
    decreases ls.len(),
{
    if ls.len() == 0 {
        Seq::empty()
    } else {
        quoted_lines(ls.drop_last()) + "    \""@ + ls.last() + "\"\n"@
    }
}

/// The readable report of one comment.
pub open spec fn comment_block(c: OutputComment) -> Seq<char> {
    "\n["@ + c.id@ + "] "@ + line_info(c.start_line as nat, c.end_line as nat) + " ("@
        + c.comment_type@ + "):\n"@ + (if c.content@.len() == 0 {
        "    (empty selection)\n"@
    } else {
        quoted_lines(lines(c.content@))
    }) + "    \u{2192} "@ + c.comment@ + "\n"@
}

/// The readable reports of `cs`, in order.
pub open spec fn comment_blocks(cs: Seq<OutputComment>) -> Seq<char>
    decreases cs.len(),
{
    if cs.len() == 0 {
        Seq::empty()
    } else {
        comment_blocks(cs.drop_last()) + comment_block(cs.last())
    }
}

/// The readable report of a list of comments.
pub open spec fn comments_readable(cs: Seq<OutputComment>) -> Seq<char> {
    if cs.len() == 0 {
        "No review comments found."@
    } else {
        "=== Review Comments ("@ + decimal(cs.len()) + ") ===\n"@ + comment_blocks(cs)
    }
}

/// The readable report of a review of standard input.
pub open spec fn stdin_readable(
    file: Seq<char>,
    content: Seq<char>,
    cs: Seq<OutputComment>,
    modified: bool,
) -> Seq<char> {
    "=== File ===\n"@ + file + "\n"@ + "\n=== Content ===\n"@ + content + (if content.len() > 0
        && content.last() == '\n' {
        Seq::empty()
    } else {
        "\n"@
    }) + "\n=== Review Comments"@ + (if modified {
        " (content modified)"@
    } else {
        Seq::empty()
    }) + " ===\n"@ + (if cs.len() == 0 {
        "No review comments.\n"@
    } else {
        comment_blocks(cs)
    })
}

fn push_quoted_lines(out: &mut String, content: &str)
    ensures
        final(out)@ == old(out)@ + quoted_lines(lines(content@)),
{
    let ls = split_lines(content);
    let ghost all = strings_of(ls@);
    let mut i: usize = 0;
    while i < ls.len()
        invariant
            0 <= i <= ls@.len(),
            all == strings_of(ls@),
            all == lines(content@),
            out@ == old(out)@ + quoted_lines(all.take(i as int)),
        decreases ls@.len() - i,
    {
        out.append("    \"");
        out.append(ls[i].as_str());
        out.append("\"\n");
        proof {
            assert(all.take(i + 1).drop_last() =~= all.take(i as int));
            assert(all.take(i + 1).last() == ls@[i as int]@);
        }
        i = i + 1;
    }
    proof {
        assert(all.take(i as int) =~= all);
    }
}

fn push_comment_block(out: &mut String, c: &OutputComment)
    ensures
        final(out)@ == old(out)@ + comment_block(*c),
{
    out.append("\n[");
    out.append(c.id.as_str());
    out.append("] ");
    if c.start_line == c.end_line {
        out.append("Line ");
        push_decimal(out, c.start_line);
    } else {
        out.append("Lines ");
        push_decimal(out, c.start_line);
        out.append("-");
        push_decimal(out, c.end_line);
    }
    out.append(" (");
    out.append(c.comment_type.as_str());
    out.append("):\n");
    if c.content.as_str().unicode_len() == 0 {
        out.append("    (empty selection)\n");
    } else {
        push_quoted_lines(out, c.content.as_str());
    }
    out.append("    \u{2192} ");
    out.append(c.comment.as_str());
    out.append("\n");
    assert(out@ =~= old(out)@ + comment_block(*c));
}

fn push_comment_blocks(out: &mut String, comments: &[OutputComment])
    ensures
        final(out)@ == old(out)@ + comment_blocks(comments@),
{
    let mut i: usize = 0;
    while i < comments.len()
        invariant
            0 <= i <= comments@.len(),
            out@ == old(out)@ + comment_blocks(comments@.take(i as int)),
        decreases comments@.len() - i,
    {
        push_comment_block(out, &comments[i]);
        proof {
            assert(comments@.take(i + 1).drop_last() =~= comments@.take(i as int));
        }
        i = i + 1;
    }
    proof {
        assert(comments@.take(i as int) =~= comments@);
    }
}

/// The comments as a readable report: a header with their number, then
/// each comment with its identifier, its lines, its kind, the quoted text it
/// is about and its remark; a fixed sentence when there are none.
pub fn format_comments_readable(comments: &[OutputComment]) -> (r: String)
    ensures
        r@ == comments_readable(comments@),
{
    if comments.len() == 0 {
        return String::from_str("No review comments found.");
    }
    let mut output = String::from_str("=== Review Comments (");
    push_decimal(&mut output, comments.len());
    output.append(") ===\n");
    push_comment_blocks(&mut output, comments);
    output
}

/// The readable report of a review of standard input: the file, the content
/// (ended by a line feed), and the comments, noting whether the content was
/// changed.
pub fn format_stdin_output_readable(
    file: &str,
    content: &str,
    comments: &[OutputComment],
    modified: bool,
) -> (r: String)
    ensures
        r@ == stdin_readable(file@, content@, comments@, modified),
{
    let mut output = String::from_str("=== File ===\n");
    output.append(file);
    output.append("\n");
    output.append("\n=== Content ===\n");
    output.append(content);
    if !ends_with_newline(content) {
        output.append("\n");
    }
    output.append("\n=== Review Comments");
    if modified {
        output.append(" (content modified)");
    }
    output.append(" ===\n");
    if comments.len() == 0 {
        output.append("No review comments.\n");
    } else {
        push_comment_blocks(&mut output, comments);
    }
    assert(output@ =~= stdin_readable(file@, content@, comments@, modified));
    output
}

/// Whether `c` is a lowercase hexadecimal digit.
pub open spec fn is_lower_hex(c: char) -> bool {
    ('0' <= c <= '9') || ('a' <= c <= 'f')
}

/// Relies on `uuid::Uuid::new_v4` and the `Display` of `Uuid`: a random
/// identifier in hyphenated form, 36 characters, the first eight of them
/// lowercase hexadecimal digits.
#[verifier::external_body]
fn random_uuid() -> (r: String)
    ensures
        r@.len() == 36,
        forall|i: int| 0 <= i < 8 ==> is_lower_hex(#[trigger] r@[i]),
{
    uuid::Uuid::new_v4().to_string()
}

/// A fresh comment identifier: eight random lowercase hexadecimal digits.
pub fn new_comment_id() -> (id: String)
    ensures
        id@.len() == 8,
        forall|i: int| 0 <= i < 8 ==> is_lower_hex(#[trigger] id@[i]),
{
    let u = random_uuid();
    String::from_str(u.as_str().substring_char(0, 8))
}

/// The start marker of an inline comment.
pub open spec fn wrapped_start_marker(id: Seq<char>) -> Seq<char> {
    "<!-- review-start("@ + id + ") -->"@
}

/// The end marker of an inline comment, which carries its text.
pub open spec fn wrapped_end_marker(id: Seq<char>, text: Seq<char>) -> Seq<char> {
    "<!-- review-end("@ + id + "): "@ + text + " -->"@
}

/// The start marker of a line comment, on a line of its own.
pub open spec fn line_start_marker(id: Seq<char>) -> Seq<char> {
    "<!-- review-line-start("@ + id + ") -->\n"@
}

/// The end marker of a line comment, on a line of its own.
pub open spec fn line_end_marker(id: Seq<char>, text: Seq<char>) -> Seq<char> {
    "\n<!-- review-line-end("@ + id + "): "@ + text + " -->"@
}

/// `content` with `open` inserted before character `from` and `close`
/// inserted before character `to`.
pub open spec fn with_markers(
    content: Seq<char>,
    from: int,
    to: int,
    open: Seq<char>,
    close: Seq<char>,
) -> Seq<char> {
    content.take(from) + open + content.subrange(from, to) + close + content.skip(to)
}

fn insert_markers(content: &str, from: usize, to: usize, open: &str, close: &str) -> (r: String)
    requires
        from <= to <= content@.len(),
    ensures
        r@ == with_markers(content@, from as int, to as int, open@, close@),
{
    let n = content.unicode_len();
    let mut result = String::from_str(content.substring_char(0, from));
    result.append(open);
    result.append(content.substring_char(from, to));
    result.append(close);
    result.append(content.substring_char(to, n));
    assert(content@.subrange(0, from as int) =~= content@.take(from as int));
    assert(content@.subrange(to as int, n as int) =~= content@.skip(to as int));
    result
}

fn marker(parts: &[&str]) -> (r: String)
    ensures
        r@ == parts@.fold_left(Seq::<char>::empty(), |acc: Seq<char>, p: &str| acc + p@),
{
    let mut r = String::new();
    let mut i: usize = 0;
    while i < parts.len()
        invariant
            0 <= i <= parts@.len(),
            r@ == parts@.take(i as int).fold_left(
                Seq::<char>::empty(),
                |acc: Seq<char>, p: &str| acc + p@,
            ),
        decreases parts@.len() - i,
    {
        r.append(parts[i]);
        proof {
            assert(parts@.take(i + 1).drop_last() =~= parts@.take(i as int));
        }
        i = i + 1;
    }
    assert(parts@.take(i as int) =~= parts@);
    r
}

/// Wraps the text between UTF-16 positions `start_pos` and `end_pos` of
/// `content` in the markers of an inline comment with identifier `id`. A
/// position that is not a character boundary stands for the end of the
/// text.
pub fn insert_wrapped_comment_with_id(
    content: &str,
    start_pos: usize,
    end_pos: usize,
    text: &str,
    id: &str,
) -> (r: String)
    requires
        char_index_or_end(content@, start_pos as nat) <= char_index_or_end(
            content@,
            end_pos as nat,
        ),
    ensures
        r@ == with_markers(
            content@,
            char_index_or_end(content@, start_pos as nat),
            char_index_or_end(content@, end_pos as nat),
            wrapped_start_marker(id@),
            wrapped_end_marker(id@, text@),
        ),
{
    let from = char_index_at_utf16(content, start_pos);
    let to = char_index_at_utf16(content, end_pos);
    let open = marker(&["<!-- review-start(", id, ") -->"]);
    let close = marker(&["<!-- review-end(", id, "): ", text, " -->"]);
    assert(open@ =~= wrapped_start_marker(id@)) by {
        reveal_with_fuel(Seq::fold_left, 4);
    }
    assert(close@ =~= wrapped_end_marker(id@, text@)) by {
        reveal_with_fuel(Seq::fold_left, 6);
    }
    insert_markers(content, from, to, open.as_str(), close.as_str())
}

/// Inserts an inline comment with a fresh identifier around the text
/// between UTF-16 positions `start_pos` and `end_pos`; returns the new
/// content and the identifier.
pub fn insert_wrapped_comment(content: String, start_pos: usize, end_pos: usize, text: String) -> (r:
    (String, String))
    requires
        char_index_or_end(content@, start_pos as nat) <= char_index_or_end(
            content@,
            end_pos as nat,
        ),
    ensures
        r.1@.len() == 8,
        forall|i: int| 0 <= i < 8 ==> is_lower_hex(#[trigger] r.1@[i]),
        r.0@ == with_markers(
            content@,
            char_index_or_end(content@, start_pos as nat),
            char_index_or_end(content@, end_pos as nat),
            wrapped_start_marker(r.1@),
            wrapped_end_marker(r.1@, text@),
        ),
{
    let id = new_comment_id();
    let result = insert_wrapped_comment_with_id(
        content.as_str(),
        start_pos,
        end_pos,
        text.as_str(),
        id.as_str(),
    );
    (result, id)
}

/// Puts the lines between UTF-16 positions `line_start_pos` and
/// `line_end_pos` of `content` between the markers of a line comment with
/// identifier `id`, each marker on a line of its own. A position that is
/// not a character boundary stands for the end of the text.
pub fn insert_nextline_comment_with_id(
    content: &str,
    line_start_pos: usize,
    line_end_pos: usize,
    text: &str,
    id: &str,
) -> (r: String)
    requires
        char_index_or_end(content@, line_start_pos as nat) <= char_index_or_end(
            content@,
            line_end_pos as nat,
        ),
    ensures
        r@ == with_markers(
            content@,
            char_index_or_end(content@, line_start_pos as nat),
            char_index_or_end(content@, line_end_pos as nat),
            line_start_marker(id@),
            line_end_marker(id@, text@),
        ),
{
    let from = char_index_at_utf16(content, line_start_pos);
    let to = char_index_at_utf16(content, line_end_pos);
    let open = marker(&["<!-- review-line-start(", id, ") -->\n"]);
    let close = marker(&["\n<!-- review-line-end(", id, "): ", text, " -->"]);
    assert(open@ =~= line_start_marker(id@)) by {
        reveal_with_fuel(Seq::fold_left, 4);
    }
    assert(close@ =~= line_end_marker(id@, text@)) by {
        reveal_with_fuel(Seq::fold_left, 6);
    }
    insert_markers(content, from, to, open.as_str(), close.as_str())
}

/// Inserts a line comment with a fresh identifier around the lines between
/// UTF-16 positions `line_start_pos` and `line_end_pos`; returns the new
/// content and the identifier.
pub fn insert_nextline_comment(
    content: String,
    line_start_pos: usize,
    line_end_pos: usize,
    text: String,
) -> (r: (String, String))
    requires
        char_index_or_end(content@, line_start_pos as nat) <= char_index_or_end(
            content@,
            line_end_pos as nat,
        ),
    ensures
        r.1@.len() == 8,
        forall|i: int| 0 <= i < 8 ==> is_lower_hex(#[trigger] r.1@[i]),
        r.0@ == with_markers(
            content@,
            char_index_or_end(content@, line_start_pos as nat),
            char_index_or_end(content@, line_end_pos as nat),
            line_start_marker(r.1@),
            line_end_marker(r.1@, text@),
        ),
{
    let id = new_comment_id();
    let result = insert_nextline_comment_with_id(
        content.as_str(),
        line_start_pos,
        line_end_pos,
        text.as_str(),
        id.as_str(),
    );
    (result, id)
}

} // verus!
