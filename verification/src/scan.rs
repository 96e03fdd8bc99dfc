//! From the lines of a code region to its items, and from a token to what it
//! spells.

use crate::ast::Token;
use crate::grammar::{
    digits_value, escape, items_from, items_of, number_value, run_markers, run_stop,
    stripped_run, token_text, unescape, Item,
};
use crate::lexer::{next_token, TokenKind};
use crate::literate::Line;
use crate::pos::{Pos, Span};
use vstd::prelude::*;
use vstd::slice::slice_subrange;
use vstd::std_specs::iter::IteratorSpec;
use vstd::string::StrSliceExecFns;
use vstd::string::StringSliceAdditionalSpecFns;
use vstd::utf8::{decode_utf8, encode_utf8};

verus! {

/// All lines of a region are in order: each lies in the text with its
/// markers counted, and none has more than `depth` of them.
#[verifier::opaque]
pub open spec fn region_wf(src: Seq<u8>, lines: Seq<Line>, depth: nat) -> bool {
    forall|i: int|
        0 <= i < lines.len() ==> (#[trigger] lines[i]).wf(src) && lines[i].levels <= depth
}

/// Cuts a code region into its items.
pub(crate) fn collect_items(bytes: &[u8], lines: &Vec<Line>, depth: Ghost<nat>) -> (items: Vec<Item>)
    requires
        bytes@.len() <= u32::MAX,
        region_wf(bytes@, lines@, depth@),
    ensures
        items@ == items_of(bytes@, lines@),
        items@.len() <= usize::MAX,
{
    reveal(region_wf);
    let mut items: Vec<Item> = Vec::new();
    let mut i: usize = 0;
    let mut pos: usize = if lines.len() > 0 {
        lines[0].start
    } else {
        0
    };
    while i < lines.len()
        invariant
            i <= lines@.len(),
            bytes@.len() <= u32::MAX,
            region_wf(bytes@, lines@, depth@),
            items_of(bytes@, lines@) == items@ + items_from(bytes@, lines@, i as int, pos as int),
        decreases
                lines@.len() - i,
                (if i < lines@.len() && pos <= lines@[i as int].end {
                    lines@[i as int].end - pos
                } else {
                    0
                }),
    {
        reveal(region_wf);
        let line = lines[i];
        let ghost before = items@;
        if line.levels > 0 {
            let (marker, _) = line.strip_one_marker(bytes);
            let mut stop: usize = i + 1;
            while stop < lines.len() && lines[stop].levels > 0
                invariant
                    i < stop <= lines@.len(),
                    run_stop(lines@, i + 1, true) == run_stop(lines@, stop as int, true),
                decreases lines@.len() - stop,
            {
                reveal(region_wf);
                stop += 1;
            }
            items.push(Item::Nested { marker, first: i });
            i = stop;
            pos = if i < lines.len() {
                lines[i].start
            } else {
                0
            };
            assert(items@ + items_from(bytes@, lines@, i as int, pos as int) =~= before
                + items_from(bytes@, lines@, i as int, pos as int).insert(0, items@.last()));
        } else if pos < line.start || pos >= line.end {
            i += 1;
            pos = if i < lines.len() {
                lines[i].start
            } else {
                0
            };
        } else {
            match next_token(slice_subrange(bytes, pos, line.end)) {
                Some((kind, len)) => {
                    match kind {
                        TokenKind::Space | TokenKind::Newline => {},
                        _ => {
                            let span = Span::new(Pos::new(pos as u32), Pos::new((pos + len) as u32));
                            items.push(Item::Tok(Token { span, kind }));
                            assert(items@ + items_from(bytes@, lines@, i as int, pos + len)
                                =~= before + items_from(bytes@, lines@, i as int, pos + len).insert(
                                0,
                                items@.last(),
                            ));
                        },
                    }
                    pos = pos + len;
                },
                None => {
                    proof {
                        assert(false);
                    }
                },
            }
        }
    }
    assert(items@ + Seq::<Item>::empty() =~= items@);
    assert(items.len() <= usize::MAX);
    items
}

/// Takes the first marker off each line of the run of marked lines that
/// starts at `first`: the markers, the lines behind them, and where the run
/// stops.
pub(crate) fn strip_run(bytes: &[u8], lines: &Vec<Line>, first: usize, depth: Ghost<nat>) -> (r: (
    Vec<Token>,
    Vec<Line>,
    usize,
))
    requires
        bytes@.len() <= u32::MAX,
        region_wf(bytes@, lines@, depth@),
        first < lines@.len(),
        lines@[first as int].levels > 0,
    ensures
        r.2 == run_stop(lines@, first as int, true),
        first < r.2 <= lines@.len(),
        r.0@ == run_markers(bytes@, lines@, first as int, r.2 as int),
        r.1@ == stripped_run(bytes@, lines@, first as int, r.2 as int),
        depth@ > 0,
        region_wf(bytes@, r.1@, (depth@ - 1) as nat),
{
    reveal(region_wf);
    let mut markers: Vec<Token> = Vec::new();
    let mut rest: Vec<Line> = Vec::new();
    let mut stop: usize = first;
    while stop < lines.len() && lines[stop].levels > 0
        invariant
            first <= stop <= lines@.len(),
            bytes@.len() <= u32::MAX,
            region_wf(bytes@, lines@, depth@),
            run_stop(lines@, first as int, true) == run_stop(lines@, stop as int, true),
            markers@ == run_markers(bytes@, lines@, first as int, stop as int),
            rest@ == stripped_run(bytes@, lines@, first as int, stop as int),
            region_wf(bytes@, rest@, (depth@ - 1) as nat),
        decreases lines@.len() - stop,
    {
        reveal(region_wf);
        let (marker, line) = lines[stop].strip_one_marker(bytes);
        markers.push(marker);
        rest.push(line);
        stop += 1;
        assert(markers@ =~= run_markers(bytes@, lines@, first as int, stop as int));
        assert(rest@ =~= stripped_run(bytes@, lines@, first as int, stop as int));
    }
    (markers, rest, stop)
}

/// Reads the number that a number token spells.
pub fn read_number(bytes: &[u8], span: Span) -> (r: Option<i64>)
    ensures
        match r {
            Some(v) => number_value(bytes@, span) == Some(v as int),
            None => number_value(bytes@, span) is None,
        },
{
    let start = span.start.source_pos();
    let end = span.end.source_pos();
    if !(start <= end && end <= bytes.len()) {
        return None;
    }
    let word = slice_subrange(bytes, start, end);
    let mut acc: i64 = 0;
    let mut i: usize = 0;
    while i < word.len()
        invariant
            i <= word@.len(),
            0 <= acc,
            number_value(bytes@, span) == digits_value(word@, 0, 0),
            digits_value(word@, 0, 0) == digits_value(word@, i as int, acc as int),
        decreases word@.len() - i,
    {
        let b: u8 = word[i];
        if !(0x30 <= b && b <= 0x39) {
            return None;
        }
        let next: i128 = acc as i128 * 10 + (b - 0x30) as i128;
        if next > i64::MAX as i128 {
            return None;
        }
        acc = next as i64;
        i += 1;
    }
    Some(acc)
}

/// The text of a token, where the token lies in the source on the borders of
/// characters.
pub fn token_source<'a>(source: &'a str, bytes: &[u8], tok: Token) -> (r: Option<&'a str>)
    requires
        bytes@ == source.spec_bytes(),
    ensures
        match r {
            Some(s) => token_text(source.spec_bytes(), tok.span) == Some(s@),
            None => token_text(source.spec_bytes(), tok.span) is None,
        },
{
    let start = tok.span.start.source_pos();
    let end = tok.span.end.source_pos();
    if start <= end && end <= bytes.len() && source.is_char_boundary(end) {
        let (head, _) = source.split_at(end);
        assert(head.spec_bytes() == source.spec_bytes().subrange(0, end as int));
        if head.is_char_boundary(start) {
            let (_, text) = head.split_at(start);
            proof {
                let src = source.spec_bytes();
                assert(head.spec_bytes().len() == end);
                assert(text.spec_bytes() =~= src.subrange(start as int, end as int));
                assert(encode_utf8(text@) == src.subrange(start as int, end as int));
                vstd::utf8::encode_utf8_decode_utf8(text@);
                assert(decode_utf8(src.subrange(start as int, end as int)) == text@);
            }
            Some(text)
        } else {
            None
        }
    } else {
        None
    }
}

fn escaped(c: char) -> (r: Option<char>)
    ensures
        r == escape(c),
{
    if c == 'n' {
        Some('\n')
    } else if c == 't' {
        Some('\t')
    } else if c == 'r' {
        Some('\r')
    } else if c == '0' {
        Some('\0')
    } else if c == '\\' || c == '"' || c == '\'' {
        Some(c)
    } else {
        None
    }
}

/// Reads the value of a string literal from its text, quotes included.
pub fn read_string(text: &str) -> (r: Option<String>)
    ensures
        match r {
            Some(s) => text@.len() >= 2 && unescape(text@, 1, Seq::empty()) == Some(s@),
            None => text@.len() < 2 || unescape(text@, 1, Seq::empty()) is None,
        },
{
    let n = text.unicode_len();
    if n < 2 {
        return None;
    }
    let mut it = text.chars();
    let mut out = String::new();
    let _ = it.next();
    let mut i: usize = 1;
    while i < n - 1
        invariant
            1 <= i <= n,
            n == text@.len(),
            it.remaining() == text@.skip(i as int),
            unescape(text@, 1, Seq::empty()) == unescape(text@, i as int, out@),
        decreases n - i,
    {
        match it.next() {
            Some(c) => {
                if c == '\\' {
                    if i < n - 2 {
                        match it.next() {
                            Some(d) => match escaped(d) {
                                Some(x) => {
                                    out.push(x);
                                    assert(text@.skip(i as int).drop_first().drop_first()
                                        =~= text@.skip(i + 2));
                                    i += 2;
                                },
                                None => {
                                    return None;
                                },
                            },
                            None => {
                                return None;
                            },
                        }
                    } else {
                        return None;
                    }
                } else {
                    out.push(c);
                    assert(text@.skip(i as int).drop_first() =~= text@.skip(i + 1));
                    i += 1;
                }
            },
            None => {
                return None;
            },
        }
    }
    Some(out)
}

} // verus!
