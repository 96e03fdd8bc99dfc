//! What an editor asks for: places as lines and columns, the one error of
//! a document as a diagnostic, and the tokens for display as steps from
//! each to the next.
//!
//! A column counts units of UTF-16: a character of four bytes counts two,
//! any other character one.

use crate::display::{display, display_tokens, in_order, Token, TokenKind};
use crate::document::{parse_program, program};
use crate::pos::Span;
use vstd::prelude::*;
use vstd::string::StringSliceAdditionalSpecFns;

verus! {

/// A place in a text: a line and a column, both from 0.
#[derive(PartialEq, Eq, Structural, Debug, Clone, Copy)]
pub struct Position {
    pub line: u32,
    pub character: u32,
}

/// A stretch of a text, from `start` up to `end`.
#[derive(PartialEq, Eq, Structural, Debug, Clone, Copy)]
pub struct Range {
    pub start: Position,
    pub end: Position,
}

/// An error of a document, for an editor to show.
#[derive(Debug)]
pub struct Diagnostic {
    pub range: Range,
    pub message: String,
}

/// A token for display as an editor takes it: how many lines it is below
/// the token before it, how many columns it is behind the start of that
/// token (behind the start of its line where it is on a line of its own),
/// how many columns long it is, and the number of its class.
#[derive(PartialEq, Eq, Structural, Debug, Clone, Copy)]
pub struct SemanticToken {
    pub delta_line: u32,
    pub delta_start: u32,
    pub length: u32,
    pub token_type: u32,
    pub token_modifiers_bitset: u32,
}

/// How many columns the byte `b` adds: a byte that goes on a character adds
/// none, the first byte of a character of four bytes adds two.
pub open spec fn columns_of(b: u8) -> int {
    if 0x80 <= b <= 0xbf {
        0
    } else if b >= 0xf0 {
        2
    } else {
        1
    }
}

/// The line and the column that a walk over the bytes from `from` up to
/// `to` leads to when it starts at line `line`, column `column`.
pub open spec fn walk(src: Seq<u8>, from: int, to: int, line: int, column: int) -> (int, int)
    decreases to - from,
{
    if from < 0 || from >= to || to > src.len() {
        (line, column)
    } else if src[from] == 0x0a {
        walk(src, from + 1, to, line + 1, 0)
    } else {
        walk(src, from + 1, to, line, column + columns_of(src[from]))
    }
}

/// How many columns the bytes from `from` up to `to` take.
pub open spec fn width(src: Seq<u8>, from: int, to: int) -> int
    decreases to - from,
{
    if from < 0 || from >= to || to > src.len() {
        0
    } else {
        columns_of(src[from]) + width(src, from + 1, to)
    }
}

/// A count as a number of 32 bits: the largest such number where it is
/// beyond that.
pub open spec fn clamp(x: int) -> u32 {
    if x < 0 {
        0
    } else if x > u32::MAX {
        u32::MAX
    } else {
        x as u32
    }
}

/// The place of the byte `offset`.
pub open spec fn place(src: Seq<u8>, offset: int) -> Position {
    Position {
        line: clamp(walk(src, 0, offset, 0, 0).0),
        character: clamp(walk(src, 0, offset, 0, 0).1),
    }
}

/// The range of a span.
pub open spec fn range_of(src: Seq<u8>, span: Span) -> Range {
    Range { start: place(src, span.start.offset()), end: place(src, span.end.offset()) }
}

/// The range of an error at `span`. A text too long to have places has its
/// error at its very start.
pub open spec fn error_range(src: Seq<u8>, span: Span) -> Range {
    if src.len() <= u32::MAX {
        range_of(src, span)
    } else {
        Range {
            start: Position { line: 0, character: 0 },
            end: Position { line: 0, character: 0 },
        }
    }
}

/// The number of a class among the classes that an editor is told of.
pub open spec fn class_number(t: TokenKind) -> u32 {
    match t {
        TokenKind::Keyword => 0,
        TokenKind::Value => 1,
        TokenKind::Operator => 2,
        TokenKind::Punctuation => 3,
        TokenKind::Number => 4,
        TokenKind::Comment => 5,
        TokenKind::String => 6,
    }
}

/// The tokens from token `i` on as steps: `line` and `column` are the place
/// of the start of the token before, which is at the byte `from`.
pub open spec fn steps(src: Seq<u8>, toks: Seq<Token>, i: int, from: int, line: int, column: int) -> Seq<
    SemanticToken,
>
    decreases toks.len() - i,
{
    if i < 0 || i >= toks.len() {
        Seq::empty()
    } else {
        let start = toks[i].span.start.offset();
        let end = toks[i].span.end.offset();
        let here = walk(src, from, start, line, column);
        let step = SemanticToken {
            delta_line: clamp(here.0 - line),
            delta_start: clamp(
                if here.0 == line {
                    here.1 - column
                } else {
                    here.1
                },
            ),
            length: clamp(width(src, start, end)),
            token_type: class_number(toks[i].kind),
            token_modifiers_bitset: 0,
        };
        seq![step] + steps(src, toks, i + 1, start, here.0, here.1)
    }
}

/// The tokens of a document for display, as steps from each to the next.
pub open spec fn semantic_tokens(src: Seq<u8>) -> Seq<SemanticToken> {
    steps(src, display(src), 0, 0, 0, 0)
}

fn columns(b: u8) -> (n: u64)
    ensures
        n == columns_of(b),
{
    if 0x80 <= b && b <= 0xbf {
        0
    } else if b >= 0xf0 {
        2
    } else {
        1
    }
}

fn clamped(x: u64) -> (r: u32)
    ensures
        r == clamp(x as int),
{
    if x > u32::MAX as u64 {
        u32::MAX
    } else {
        x as u32
    }
}

/// Walks over the bytes from `from` up to `to`.
fn walk_on(bytes: &[u8], from: usize, to: usize, line: u64, column: u64) -> (r: (u64, u64))
    requires
        line <= from,
        column <= 2 * from,
        bytes@.len() <= u32::MAX,
    ensures
        (r.0 as int, r.1 as int) == walk(bytes@, from as int, to as int, line as int, column as int),
        from <= to <= bytes@.len() ==> r.0 <= to && r.1 <= 2 * to,
        !(from <= to <= bytes@.len()) ==> r == (line, column),
        r.0 >= line,
        r.0 == line ==> r.1 >= column,
{
    if to > bytes.len() || from >= to {
        return (line, column);
    }
    let mut i: usize = from;
    let mut line = line;
    let mut column = column;
    let ghost line0 = line;
    let ghost column0 = column;
    while i < to
        invariant
            from <= i <= to <= bytes@.len() <= u32::MAX,
            line <= i,
            column <= 2 * i,
            line >= line0,
            line == line0 ==> column >= column0,
            walk(bytes@, from as int, to as int, line0 as int, column0 as int) == walk(
                bytes@,
                i as int,
                to as int,
                line as int,
                column as int,
            ),
        decreases to - i,
    {
        let b: u8 = bytes[i];
        if b == 0x0a {
            line = line + 1;
            column = 0;
        } else {
            column = column + columns(b);
        }
        i += 1;
    }
    (line, column)
}

/// How many columns the bytes from `from` up to `to` take.
fn width_of(bytes: &[u8], from: usize, to: usize) -> (n: u64)
    requires
        bytes@.len() <= u32::MAX,
    ensures
        n == width(bytes@, from as int, to as int),
{
    if to > bytes.len() || from >= to {
        return 0;
    }
    let mut i: usize = to;
    let mut n: u64 = 0;
    while i > from
        invariant
            from <= i <= to <= bytes@.len() <= u32::MAX,
            n <= 2 * (to - i),
            n == width(bytes@, i as int, to as int),
        decreases i - from,
    {
        i -= 1;
        n = n + columns(bytes[i]);
    }
    n
}

/// The place of the byte `offset` of a text.
pub fn position_of(bytes: &[u8], offset: usize) -> (p: Position)
    requires
        bytes@.len() <= u32::MAX,
    ensures
        p == place(bytes@, offset as int),
{
    let (line, column) = walk_on(bytes, 0, offset, 0, 0);
    Position { line: clamped(line), character: clamped(column) }
}

/// The diagnostics of a document: its syntax error, where it has one.
pub fn get_diagnostics(source: &str) -> (r: Vec<Diagnostic>)
    ensures
        match program(source.spec_bytes()) {
            Ok(_) => r@.len() == 0,
            Err(e) => r@.len() == 1 && r@[0].message@ == e.message && r@[0].range == error_range(
                source.spec_bytes(),
                e.span,
            ),
        },
{
    let mut out: Vec<Diagnostic> = Vec::new();
    match parse_program(source) {
        Ok(_) => {},
        Err(e) => {
            let bytes = source.as_bytes();
            let range = if bytes.len() <= u32::MAX as usize {
                Range {
                    start: position_of(bytes, e.span.start.source_pos()),
                    end: position_of(bytes, e.span.end.source_pos()),
                }
            } else {
                let zero = Position { line: 0, character: 0 };
                Range { start: zero, end: zero }
            };
            out.push(Diagnostic { range, message: e.message });
        },
    }
    out
}

/// A text together with the offsets at which its lines start.
#[derive(Debug)]
pub struct Source {
    pub text: String,
    pub line_starts: Vec<usize>,
}

/// The offsets behind the line feeds of `src` from the byte `i` on.
pub open spec fn starts_from(src: Seq<u8>, i: int) -> Seq<usize>
    decreases src.len() - i,
{
    if i < 0 || i >= src.len() {
        Seq::empty()
    } else if src[i] == 0x0a {
        seq![(i + 1) as usize] + starts_from(src, i + 1)
    } else {
        starts_from(src, i + 1)
    }
}

/// The offsets at which the lines of `src` start: 0, and each offset
/// behind a line feed.
pub open spec fn line_starts_of(src: Seq<u8>) -> Seq<usize> {
    seq![0usize] + starts_from(src, 0)
}

/// How many of the offsets from the `i`th on are at or before `x`.
pub open spec fn count_up_to(starts: Seq<usize>, x: int, i: int) -> int
    decreases starts.len() - i,
{
    if i < 0 || i >= starts.len() {
        0
    } else if starts[i] <= x {
        1 + count_up_to(starts, x, i + 1)
    } else {
        count_up_to(starts, x, i + 1)
    }
}

impl Source {
    /// The text with the starts of its lines.
    pub fn new(source: String) -> (s: Source)
        ensures
            s.text@ == source@,
            s.line_starts@ == line_starts_of(vstd::utf8::encode_utf8(source@)),
    {
        let mut line_starts: Vec<usize> = Vec::new();
        line_starts.push(0);
        let bytes = source.as_str().as_bytes();
        let mut i: usize = 0;
        assert(line_starts@ + starts_from(bytes@, 0) =~= line_starts_of(bytes@));
        while i < bytes.len()
            invariant
                i <= bytes@.len(),
                line_starts_of(bytes@) == line_starts@ + starts_from(bytes@, i as int),
            decreases bytes@.len() - i,
        {
            let ghost before = line_starts@;
            if bytes[i] == 0x0a {
                line_starts.push(i + 1);
                assert(line_starts@ + starts_from(bytes@, i + 1) =~= before + starts_from(
                    bytes@,
                    i as int,
                ));
            }
            i += 1;
        }
        assert(line_starts@ + starts_from(bytes@, i as int) =~= line_starts@);
        Source { text: source, line_starts }
    }

    /// The number of the line in which a span starts, from 1: the number of
    /// lines that start at or before it.
    pub fn span_start_line(&self, span: Span) -> (line: u32)
        ensures
            line == clamp(count_up_to(self.line_starts@, span.start.offset(), 0)),
    {
        let at = span.start.source_pos();
        let mut count: u64 = 0;
        let mut i: usize = 0;
        while i < self.line_starts.len()
            invariant
                i <= self.line_starts@.len(),
                count <= i,
                at == span.start.offset(),
                count_up_to(self.line_starts@, at as int, 0) == count + count_up_to(
                    self.line_starts@,
                    at as int,
                    i as int,
                ),
            decreases self.line_starts@.len() - i,
        {
            if self.line_starts[i] <= at {
                count = count + 1;
            }
            i += 1;
        }
        clamped(count)
    }
}

/// The number of a class among the classes that an editor is told of.
pub fn token_type(t: TokenKind) -> (n: u32)
    ensures
        n == class_number(t),
{
    match t {
        TokenKind::Keyword => 0,
        TokenKind::Value => 1,
        TokenKind::Operator => 2,
        TokenKind::Punctuation => 3,
        TokenKind::Number => 4,
        TokenKind::Comment => 5,
        TokenKind::String => 6,
    }
}

/// The tokens of a document for display, as steps from each to the next.
pub fn get_semantic_tokens(src: &str) -> (r: Vec<SemanticToken>)
    ensures
        r@ == semantic_tokens(src.spec_bytes()),
{
    let bytes = src.as_bytes();
    let tokens = display_tokens(src);
    let mut result: Vec<SemanticToken> = Vec::new();
    if bytes.len() > u32::MAX as usize {
        assert(steps(bytes@, tokens@, 0, 0, 0, 0) =~= Seq::empty());
        return result;
    }
    let mut line: u64 = 0;
    let mut column: u64 = 0;
    let mut from: usize = 0;
    let mut i: usize = 0;
    assert(result@ + steps(bytes@, tokens@, 0, 0, 0, 0) =~= steps(bytes@, tokens@, 0, 0, 0, 0));
    while i < tokens.len()
        invariant
            i <= tokens@.len(),
            bytes@.len() <= u32::MAX,
            in_order(tokens@, 0, bytes@.len() as int),
            i == 0 ==> from == 0,
            i > 0 ==> from == tokens@[i - 1].span.start.offset(),
            line <= from,
            column <= 2 * from,
            from <= bytes@.len(),
            steps(bytes@, tokens@, 0, 0, 0, 0) == result@ + steps(
                bytes@,
                tokens@,
                i as int,
                from as int,
                line as int,
                column as int,
            ),
        decreases tokens@.len() - i,
    {
        let ghost before = result@;
        let token = tokens[i];
        let start = token.span.start.source_pos();
        let end = token.span.end.source_pos();
        proof {
            assert(tokens@[i as int].span.end.offset() <= bytes@.len());
            if i > 0 {
                assert(tokens@[i - 1].span.end.offset() <= tokens@[i as int].span.start.offset());
            }
        }
        let here = walk_on(bytes, from, start, line, column);
        let delta_line = here.0 - line;
        let delta_start = if here.0 == line {
            here.1 - column
        } else {
            here.1
        };
        let step = SemanticToken {
            delta_line: clamped(delta_line),
            delta_start: clamped(delta_start),
            length: clamped(width_of(bytes, start, end)),
            token_type: token_type(token.kind),
            token_modifiers_bitset: 0,
        };
        result.push(step);
        from = start;
        line = here.0;
        column = here.1;
        i += 1;
    }
    result
}

} // verus!
