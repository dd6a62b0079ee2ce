use vstd::prelude::*;
use vstd::string::StringSliceAdditionalSpecFns;
use vstd::utf8::{char_is_scalar, encode_scalar, encode_utf8};

verus! {

/// Bytes that `c` takes in UTF-8.
pub open spec fn utf8_width(c: char) -> nat {
    let v = c as u32;
    if v < 0x80 {
        1
    } else if v < 0x800 {
        2
    } else if v < 0x10000 {
        3
    } else {
        4
    }
}

/// Code units that `c` takes in UTF-16.
pub open spec fn utf16_width(c: char) -> nat {
    if (c as u32) < 0x10000 {
        1
    } else {
        2
    }
}

/// Bytes that `s` takes in UTF-8.
pub open spec fn utf8_len(s: Seq<char>) -> nat
    decreases s.len(),
{
    if s.len() == 0 {
        0
    } else {
        utf8_len(s.drop_last()) + utf8_width(s.last())
    }
}

/// Code units that `s` takes in UTF-16, the unit of editor positions.
pub open spec fn utf16_len(s: Seq<char>) -> nat
    decreases s.len(),
{
    if s.len() == 0 {
        0
    } else {
        utf16_len(s.drop_last()) + utf16_width(s.last())
    }
}

/// Line feeds among the bytes `b`.
pub open spec fn newline_count(b: Seq<u8>) -> nat
    decreases b.len(),
{
    if b.len() == 0 {
        0
    } else {
        newline_count(b.drop_last()) + if b.last() == 10 {
            1nat
        } else {
            0nat
        }
    }
}

/// Whether `pos` is the UTF-16 position of a character boundary of `s`.
pub open spec fn is_utf16_boundary(s: Seq<char>, pos: nat) -> bool {
    exists|k: int| 0 <= k <= s.len() && #[trigger] utf16_len(s.take(k)) == pos
}

proof fn lemma_take_step(s: Seq<char>, i: int)
    requires
        0 <= i < s.len(),
    ensures
        utf8_len(s.take(i + 1)) == utf8_len(s.take(i)) + utf8_width(s[i]),
        utf16_len(s.take(i + 1)) == utf16_len(s.take(i)) + utf16_width(s[i]),
{
    assert(s.take(i + 1).drop_last() =~= s.take(i));
}

proof fn lemma_widths(c: char)
    ensures
        1 <= utf16_width(c) <= utf8_width(c),
{
}

/// Longer prefixes take strictly more code units and bytes.
proof fn lemma_prefix_strictly_grows(s: Seq<char>, j: int, k: int)
    requires
        0 <= j < k <= s.len(),
    ensures
        utf16_len(s.take(j)) < utf16_len(s.take(k)),
        utf8_len(s.take(j)) < utf8_len(s.take(k)),
        utf16_len(s.take(k)) - utf16_len(s.take(j)) <= utf8_len(s.take(k)) - utf8_len(s.take(j)),
    decreases k - j,
{
    lemma_take_step(s, k - 1);
    lemma_widths(s[k - 1]);
    if j < k - 1 {
        lemma_prefix_strictly_grows(s, j, k - 1);
    }
}

proof fn lemma_utf8_len_front(s: Seq<char>)
    requires
        s.len() > 0,
    ensures
        utf8_len(s) == utf8_width(s[0]) + utf8_len(s.drop_first()),
    decreases s.len(),
{
    assert(utf8_len(s) == utf8_len(s.drop_last()) + utf8_width(s.last()));
    if s.len() == 1 {
        assert(utf8_len(s.drop_last()) == 0);
        assert(utf8_len(s.drop_first()) == 0);
        assert(s.last() == s[0]);
    } else {
        lemma_utf8_len_front(s.drop_last());
        let t = s.drop_first();
        assert(t.drop_last() =~= s.drop_last().drop_first());
        assert(t.last() == s.last());
        assert(utf8_len(t) == utf8_len(t.drop_last()) + utf8_width(t.last()));
        assert(s.drop_last()[0] == s[0]);
    }
}

/// The UTF-8 encoding of `s` has `utf8_len(s)` bytes.
proof fn lemma_encoded_len(s: Seq<char>)
    ensures
        encode_utf8(s).len() == utf8_len(s),
    decreases s.len(),
{
    if s.len() > 0 {
        lemma_utf8_len_front(s);
        lemma_encoded_len(s.drop_first());
        char_is_scalar(s[0]);
        assert(encode_scalar(s[0] as u32).len() == utf8_width(s[0]));
    }
}

proof fn lemma_newline_step(b: Seq<u8>, i: int)
    requires
        0 <= i < b.len(),
    ensures
        newline_count(b.take(i + 1)) == newline_count(b.take(i)) + if b[i] == 10 {
            1nat
        } else {
            0nat
        },
{
    assert(b.take(i + 1).drop_last() =~= b.take(i));
}

/// The line, counted from 1, on which byte position `byte_pos` of `content`
/// lies: one more than the line feeds before it. A position past the end
/// counts the whole text.
pub fn byte_pos_to_line(content: &str, byte_pos: usize) -> (r: usize)
    requires
        content.spec_bytes().len() < usize::MAX,
    ensures
        r == newline_count(
            content.spec_bytes().take(
                if byte_pos < content.spec_bytes().len() {
                    byte_pos as int
                } else {
                    content.spec_bytes().len() as int
                },
            ),
        ) + 1,
{
    let bytes = content.as_bytes();
    let end = if byte_pos < bytes.len() {
        byte_pos
    } else {
        bytes.len()
    };
    let mut count: usize = 0;
    let mut i: usize = 0;
    while i < end
        invariant
            bytes@ == content.spec_bytes(),
            end <= bytes@.len(),
            end == (if byte_pos < content.spec_bytes().len() {
                byte_pos as int
            } else {
                content.spec_bytes().len() as int
            }),
            0 <= i <= end,
            count <= i,
            count == newline_count(bytes@.take(i as int)),
        decreases end - i,
    {
        proof {
            lemma_newline_step(bytes@, i as int);
        }
        if bytes[i] == 10u8 {
            count = count + 1;
        }
        i = i + 1;
    }
    count + 1
}

/// The byte position in `content` of UTF-16 position `utf16_pos`, if it is
/// the position of a character boundary (the end of the text included).
pub fn char_offset_to_byte_offset(content: &str, utf16_pos: usize) -> (r: Option<usize>)
    ensures
        r is Some <==> is_utf16_boundary(content@, utf16_pos as nat),
        r matches Some(b) ==> forall|k: int|
            0 <= k <= content@.len() && utf16_len(content@.take(k)) == utf16_pos ==> b
                == utf8_len(content@.take(k)),
{
    let total = content.as_bytes().len();
    proof {
        lemma_encoded_len(content@);
        assert(content@.take(content@.len() as int) =~= content@);
    }
    let mut utf16_count: usize = 0;
    let mut byte_idx: usize = 0;
    let ghost mut i: int = 0;
    for ch in it: content.chars()
        invariant
            it.seq() == content@,
            i == it.index(),
            0 <= i <= content@.len(),
            total == utf8_len(content@),
            byte_idx == utf8_len(content@.take(i)),
            utf16_count == utf16_len(content@.take(i)),
            utf16_count <= byte_idx <= total,
            forall|k: int| 0 <= k < i ==> utf16_len(content@.take(k)) != utf16_pos,
    {
        if utf16_count == utf16_pos {
            proof {
                assert forall|k: int|
                    0 <= k <= content@.len() && utf16_len(content@.take(k)) == utf16_pos implies byte_idx
                    == utf8_len(content@.take(k)) by {
                    if k > i {
                        lemma_prefix_strictly_grows(content@, i, k);
                    } else if k < i {
                        lemma_prefix_strictly_grows(content@, k, i);
                    }
                }
            }
            return Some(byte_idx);
        }
        proof {
            lemma_take_step(content@, i);
            assert(content@.take(content@.len() as int) =~= content@);
            if i + 1 < content@.len() {
                lemma_prefix_strictly_grows(content@, i + 1, content@.len() as int);
            }
            lemma_widths(ch);
            assert(content@[i] == ch);
        }
        let v = ch as u32;
        let w8: usize = if v < 0x80 {
            1
        } else if v < 0x800 {
            2
        } else if v < 0x10000 {
            3
        } else {
            4
        };
        let w16: usize = if v < 0x10000 {
            1
        } else {
            2
        };
        byte_idx = byte_idx + w8;
        utf16_count = utf16_count + w16;
        proof {
            i = i + 1;
        }
    }
    proof {
        assert(content@.take(i) =~= content@);
    }
    if utf16_count == utf16_pos {
        Some(byte_idx)
    } else {
        None
    }
}

/// The UTF-16 length of the longest prefix of `s` that takes at most `b`
/// bytes in UTF-8.
pub open spec fn utf16_before_byte(s: Seq<char>, b: nat) -> nat
    decreases s.len(),
{
    if s.len() == 0 {
        0
    } else if utf8_len(s) <= b {
        utf16_len(s)
    } else {
        utf16_before_byte(s.drop_last(), b)
    }
}

/// `utf16_before_byte` is the UTF-16 length of the prefix of `k` characters
/// when that prefix fits in `b` bytes and the next character does not.
proof fn lemma_utf16_before_byte(s: Seq<char>, b: nat, k: int)
    requires
        0 <= k <= s.len(),
        utf8_len(s.take(k)) <= b,
        k == s.len() || utf8_len(s.take(k + 1)) > b,
    ensures
        utf16_before_byte(s, b) == utf16_len(s.take(k)),
    decreases s.len(),
{
    if k == s.len() {
        assert(s.take(k) =~= s);
    } else {
        assert(s.take(s.len() as int) =~= s);
        if k + 1 < s.len() {
            lemma_prefix_strictly_grows(s, k + 1, s.len() as int);
        }
        let t = s.drop_last();
        assert(t.take(k) =~= s.take(k));
        if k < t.len() {
            assert(t.take(k + 1) =~= s.take(k + 1));
        }
        lemma_utf16_before_byte(t, b, k);
    }
}

/// The UTF-16 position of byte position `byte_pos` of `content`: the UTF-16
/// length of the characters that end at or before it, so that a position
/// past the end gives the length of the whole text.
pub fn byte_offset_to_char_offset(content: &str, byte_pos: usize) -> (r: usize)
    ensures
        r == utf16_before_byte(content@, byte_pos as nat),
{
    let total = content.as_bytes().len();
    proof {
        lemma_encoded_len(content@);
    }
    let mut utf16_count: usize = 0;
    let mut byte_idx: usize = 0;
    let mut full = false;
    let ghost mut i: int = 0;
    let ghost mut j: int = 0;
    for ch in it: content.chars()
        invariant
            it.seq() == content@,
            i == it.index(),
            0 <= j <= i <= content@.len(),
            total == utf8_len(content@),
            byte_idx == utf8_len(content@.take(j)),
            byte_idx <= byte_pos,
            byte_idx <= total,
            full ==> j < content@.len() && utf8_len(content@.take(j + 1)) > byte_pos,
            !full ==> j == i,
            utf16_count == utf16_len(content@.take(j)),
            utf16_count <= byte_idx,
    {
        if !full {
            proof {
                lemma_take_step(content@, i);
                lemma_widths(ch);
                assert(content@[i] == ch);
                assert(content@.take(content@.len() as int) =~= content@);
                if i + 1 < content@.len() {
                    lemma_prefix_strictly_grows(content@, i + 1, content@.len() as int);
                }
            }
            let v = ch as u32;
            let w8: usize = if v < 0x80 {
                1
            } else if v < 0x800 {
                2
            } else if v < 0x10000 {
                3
            } else {
                4
            };
            let w16: usize = if v < 0x10000 {
                1
            } else {
                2
            };
            if w8 <= byte_pos - byte_idx {
                byte_idx = byte_idx + w8;
                utf16_count = utf16_count + w16;
                proof {
                    j = j + 1;
                }
            } else {
                full = true;
            }
        }
        proof {
            i = i + 1;
        }
    }
    proof {
        lemma_utf16_before_byte(content@, byte_pos as nat, j);
    }
    utf16_count
}

/// The number of characters before UTF-16 position `pos` of `s`, or the
/// length of `s` when `pos` is not a character boundary.
pub open spec fn char_index_or_end(s: Seq<char>, pos: nat) -> int {
    if is_utf16_boundary(s, pos) {
        choose|k: int| 0 <= k <= s.len() && #[trigger] utf16_len(s.take(k)) == pos
    } else {
        s.len() as int
    }
}

/// The number of characters of `content` before UTF-16 position `utf16_pos`,
/// or its number of characters when that position is not a boundary.
pub fn char_index_at_utf16(content: &str, utf16_pos: usize) -> (r: usize)
    ensures
        r == char_index_or_end(content@, utf16_pos as nat),
        r <= content@.len(),
{
    let total = content.as_bytes().len();
    proof {
        lemma_encoded_len(content@);
    }
    let mut utf16_count: usize = 0;
    let mut count: usize = 0;
    let ghost mut i: int = 0;
    for ch in it: content.chars()
        invariant
            it.seq() == content@,
            i == it.index(),
            0 <= i <= content@.len(),
            count == i,
            total == utf8_len(content@),
            utf16_count == utf16_len(content@.take(i)),
            count <= utf16_count <= utf8_len(content@.take(i)) <= total,
            forall|k: int| 0 <= k < i ==> utf16_len(content@.take(k)) != utf16_pos,
    {
        if utf16_count == utf16_pos {
            proof {
                assert(is_utf16_boundary(content@, utf16_pos as nat));
                let k = choose|k: int|
                    0 <= k <= content@.len() && #[trigger] utf16_len(content@.take(k)) == utf16_pos;
                if k > i {
                    lemma_prefix_strictly_grows(content@, i, k);
                }
            }
            return count;
        }
        proof {
            lemma_take_step(content@, i);
            assert(content@.take(content@.len() as int) =~= content@);
            if i + 1 < content@.len() {
                lemma_prefix_strictly_grows(content@, i + 1, content@.len() as int);
            }
            lemma_widths(ch);
            assert(content@[i] == ch);
        }
        let w16: usize = if (ch as u32) < 0x10000 {
            1
        } else {
            2
        };
        utf16_count = utf16_count + w16;
        count = count + 1;
        proof {
            i = i + 1;
        }
    }
    proof {
        assert(content@.take(i) =~= content@);
        if utf16_count == utf16_pos {
            assert(is_utf16_boundary(content@, utf16_pos as nat));
            let k = choose|k: int|
                0 <= k <= content@.len() && #[trigger] utf16_len(content@.take(k)) == utf16_pos;
            if k < i {
                assert(false);
            }
        } else {
            assert(!is_utf16_boundary(content@, utf16_pos as nat)) by {
                if is_utf16_boundary(content@, utf16_pos as nat) {
                    let k = choose|k: int|
                        0 <= k <= content@.len() && #[trigger] utf16_len(content@.take(k))
                            == utf16_pos;
                    if k < i {
                        assert(utf16_len(content@.take(k)) != utf16_pos);
                    }
                }
            }
        }
    }
    count
}

} // verus!
