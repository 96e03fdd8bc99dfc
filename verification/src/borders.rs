//! The tokens for display and the borders of characters: every token starts
//! and ends where a character starts or the text ends, so the text can be cut
//! at both.

use crate::display::{
    class_of, code_display, display, line_display, lines_display, Token,
};
use crate::lexer::{lemma_run_end, lemma_string_close, lex, ByteClass};
use crate::literate::{
    first_marker, leading_marker_of, lemma_line_feed, line_feed, line_stop, lines_from, lines_of,
    Extent, Marker,
};
use vstd::prelude::*;
use vstd::utf8::{
    is_char_boundary, is_char_boundary_iff_not_is_continuation_byte,
    is_char_boundary_start_end_of_seq, pop_first_scalar, valid_utf8, valid_utf8_split,
};

verus! {

/// Every token starts and ends on the border of a character.
pub open spec fn on_borders(src: Seq<u8>, toks: Seq<Token>) -> bool {
    forall|i: int|
        0 <= i < toks.len() ==> is_char_boundary(src, (#[trigger] toks[i]).span.start.offset())
            && is_char_boundary(src, toks[i].span.end.offset())
}

/// A byte below `0x80` is a character of its own: a character starts at it,
/// and the next starts behind it.
pub proof fn lemma_ascii_borders(src: Seq<u8>, i: int)
    requires
        valid_utf8(src),
        0 <= i < src.len(),
        src[i] < 0x80,
    ensures
        is_char_boundary(src, i),
        is_char_boundary(src, i + 1),
{
    reveal_with_fuel(valid_utf8, 2);
    is_char_boundary_iff_not_is_continuation_byte(src, i);
    valid_utf8_split(src, i);
    let rest = src.subrange(i, src.len() as int);
    assert(rest[0] == src[i]);
    let tail = pop_first_scalar(rest);
    if i + 1 < src.len() {
        assert(tail[0] == src[i + 1]);
        is_char_boundary_iff_not_is_continuation_byte(src, i + 1);
    } else {
        is_char_boundary_start_end_of_seq(src);
    }
}

/// A token with a class starts with a byte below `0x80` and ends with one.
proof fn lemma_token_ends(s: Seq<u8>)
    requires
        lex(s) is Some,
        class_of((lex(s)->0).0) is Some,
    ensures
        1 <= (lex(s)->0).1 <= s.len(),
        s[0] < 0x80,
        s[(lex(s)->0).1 - 1] < 0x80,
{
    lemma_run_end(s, 1, ByteClass::Word);
    lemma_run_end(s, 1, ByteClass::Blank);
    lemma_run_end(s, 1, ByteClass::Continuation);
    lemma_string_close(s, 1);
    let len = (lex(s)->0).1;
    if len > 1 {
        assert(s[len - 1] == s[len - 1]);
    }
}

/// The text of a token with a class can always be read: in a text that is
/// valid UTF-8 the bytes of such a token are characters of the text.
pub proof fn token_text_exists(src: Seq<u8>, pos: int, end: int)
    requires
        valid_utf8(src),
        0 <= pos < end <= src.len() <= u32::MAX,
        lex(src.subrange(pos, end)) is Some,
        class_of((lex(src.subrange(pos, end))->0).0) is Some,
    ensures
        crate::grammar::token_text(
            src,
            crate::grammar::span_at(pos, pos + (lex(src.subrange(pos, end))->0).1),
        ) is Some,
{
    let s = src.subrange(pos, end);
    let len = (lex(s)->0).1;
    lemma_token_ends(s);
    assert(s[0] == src[pos]);
    assert(s[len - 1] == src[pos + len - 1]);
    lemma_ascii_borders(src, pos + len - 1);
    valid_utf8_split(src, pos + len);
    let head = src.subrange(0, pos + len);
    assert(head[pos] == src[pos]);
    is_char_boundary_iff_not_is_continuation_byte(head, pos);
}

proof fn lemma_code_borders(src: Seq<u8>, pos: int, end: int)
    requires
        valid_utf8(src),
        0 <= pos <= end <= src.len() <= u32::MAX,
    ensures
        on_borders(src, code_display(src, pos, end)),
    decreases end - pos,
{
    if pos < end {
        let s = src.subrange(pos, end);
        match lex(s) {
            Some((kind, len)) => {
                if 0 < len && pos + len <= end {
                    lemma_code_borders(src, pos + len, end);
                    let rest = code_display(src, pos + len, end);
                    match class_of(kind) {
                        Some(class) => {
                            lemma_token_ends(s);
                            assert(s[0] == src[pos]);
                            assert(s[len - 1] == src[pos + len - 1]);
                            lemma_ascii_borders(src, pos);
                            lemma_ascii_borders(src, pos + len - 1);
                            let all = code_display(src, pos, end);
                            assert forall|i: int| 0 <= i < all.len() implies is_char_boundary(
                                src,
                                (#[trigger] all[i]).span.start.offset(),
                            ) && is_char_boundary(src, all[i].span.end.offset()) by {
                                if i > 0 {
                                    assert(all[i] == rest[i - 1]);
                                }
                            }
                        },
                        None => {},
                    }
                }
            },
            None => {},
        }
    }
}

proof fn lemma_line_borders(src: Seq<u8>, pos: int, end: int, expected: Marker, in_code: bool)
    requires
        valid_utf8(src),
        0 <= pos <= end <= src.len() <= u32::MAX,
        is_char_boundary(src, pos),
        is_char_boundary(src, end),
    ensures
        on_borders(src, line_display(src, pos, end, expected, in_code)),
    decreases end - pos,
{
    lemma_code_borders(src, pos, end);
    let s = src.subrange(pos, end);
    match leading_marker_of(s) {
        Some((m, off)) => {
            if m == expected && 0 <= off < end - pos {
                lemma_run_end(s, 0, ByteClass::White);
                assert(s[off] == src[pos + off]);
                lemma_ascii_borders(src, pos + off);
                lemma_line_borders(src, pos + off + 1, end, expected.flipped(), !in_code);
                let rest = line_display(src, pos + off + 1, end, expected.flipped(), !in_code);
                let all = line_display(src, pos, end, expected, in_code);
                assert forall|i: int| 0 <= i < all.len() implies is_char_boundary(
                    src,
                    (#[trigger] all[i]).span.start.offset(),
                ) && is_char_boundary(src, all[i].span.end.offset()) by {
                    if i > 0 {
                        assert(all[i] == rest[i - 1]);
                    }
                }
            }
        },
        None => {},
    }
}

/// Every line starts and ends on the border of a character.
proof fn lemma_lines_on_borders(src: Seq<u8>, start: int)
    requires
        valid_utf8(src),
        0 <= start,
        src.len() <= u32::MAX,
        is_char_boundary(src, start),
    ensures
        forall|k: int|
            0 <= k < lines_from(src, start).len() ==> is_char_boundary(
                src,
                (#[trigger] lines_from(src, start)[k]).start as int,
            ) && is_char_boundary(src, lines_from(src, start)[k].end as int),
    decreases src.len() - start,
{
    if start < src.len() {
        lemma_line_feed(src, start);
        let feed = line_feed(src, start);
        let stop = line_stop(src, start);
        is_char_boundary_start_end_of_seq(src);
        if feed < src.len() {
            lemma_ascii_borders(src, feed);
            if stop != feed {
                lemma_ascii_borders(src, feed - 1);
            }
            lemma_lines_on_borders(src, feed + 1);
        }
        let all = lines_from(src, start);
        let rest = if feed < src.len() {
            lines_from(src, feed + 1)
        } else {
            Seq::empty()
        };
        assert forall|k: int| 0 <= k < all.len() implies is_char_boundary(
            src,
            (#[trigger] all[k]).start as int,
        ) && is_char_boundary(src, all[k].end as int) by {
            if k > 0 {
                assert(all[k] == rest[k - 1]);
            }
        }
    }
}

proof fn lemma_display_borders(src: Seq<u8>, lines: Seq<Extent>, i: int, first: Marker)
    requires
        valid_utf8(src),
        src.len() <= u32::MAX,
        0 <= i <= lines.len(),
        forall|k: int|
            0 <= k < lines.len() ==> (#[trigger] lines[k]).start <= lines[k].end <= src.len()
                && is_char_boundary(src, lines[k].start as int) && is_char_boundary(
                src,
                lines[k].end as int,
            ),
    ensures
        on_borders(src, lines_display(src, lines, i, first)),
    decreases lines.len() - i,
{
    if i < lines.len() {
        let here = line_display(
            src,
            lines[i].start as int,
            lines[i].end as int,
            first,
            first == Marker::Comment,
        );
        lemma_line_borders(
            src,
            lines[i].start as int,
            lines[i].end as int,
            first,
            first == Marker::Comment,
        );
        lemma_display_borders(src, lines, i + 1, first);
        let rest = lines_display(src, lines, i + 1, first);
        let all = lines_display(src, lines, i, first);
        assert forall|k: int| 0 <= k < all.len() implies is_char_boundary(
            src,
            (#[trigger] all[k]).span.start.offset(),
        ) && is_char_boundary(src, all[k].span.end.offset()) by {
            if k < here.len() {
                assert(all[k] == here[k]);
            } else {
                assert(all[k] == rest[k - here.len()]);
            }
        }
    }
}

/// The tokens of a text that is valid UTF-8 all start and end on the
/// borders of characters: the text can be cut at the span of each, and what
/// is cut out is the characters that the token was read from.
pub proof fn display_on_borders(src: Seq<u8>)
    requires
        valid_utf8(src),
    ensures
        on_borders(src, display(src)),
{
    if src.len() <= u32::MAX {
        is_char_boundary_start_end_of_seq(src);
        crate::literate::lemma_lines_from(src, 0);
        lemma_lines_on_borders(src, 0);
        lemma_display_borders(src, lines_of(src), 0, first_marker(src, lines_of(src)));
    }
}

} // verus!
