//! The tokens of a document for display: every marker, every stretch of
//! prose and every token of the code, each with one of seven classes.

use crate::grammar::span_at;
use crate::lexer::{lex, next_token};
use crate::literate::{
    byte_span, first_marker, first_marked, leading_marker, leading_marker_of, lemma_lines_from,
    lines_inside, lines_of, split_lines, Extent, Marker,
};
use crate::pos::{Pos, Span};
use vstd::prelude::*;
use vstd::slice::slice_subrange;
use vstd::string::StringSliceAdditionalSpecFns;

verus! {

/// The class of a token for display.
#[derive(PartialEq, Eq, Structural, Debug, Clone, Copy)]
pub enum TokenKind {
    Keyword,
    Value,
    String,
    Operator,
    Punctuation,
    Number,
    Comment,
}

/// A token for display.
#[derive(PartialEq, Eq, Structural, Debug, Clone, Copy)]
pub struct Token {
    pub span: Span,
    pub kind: TokenKind,
}

/// The class of a token of the lexer; `None` for blanks, line ends and what
/// is no token.
pub open spec fn class_of(kind: crate::lexer::TokenKind) -> Option<TokenKind> {
    match kind {
        crate::lexer::TokenKind::Fn
        | crate::lexer::TokenKind::Let
        | crate::lexer::TokenKind::While
        | crate::lexer::TokenKind::If
        | crate::lexer::TokenKind::Else
        | crate::lexer::TokenKind::For
        | crate::lexer::TokenKind::In
        | crate::lexer::TokenKind::Return
        | crate::lexer::TokenKind::Struct
        | crate::lexer::TokenKind::True
        | crate::lexer::TokenKind::False
        | crate::lexer::TokenKind::Nil
        | crate::lexer::TokenKind::SelfKw => Some(TokenKind::Keyword),
        crate::lexer::TokenKind::Str => Some(TokenKind::String),
        crate::lexer::TokenKind::Dot | crate::lexer::TokenKind::Colon => Some(
            TokenKind::Punctuation,
        ),
        crate::lexer::TokenKind::Equals
        | crate::lexer::TokenKind::And
        | crate::lexer::TokenKind::Or
        | crate::lexer::TokenKind::Plus
        | crate::lexer::TokenKind::Minus
        | crate::lexer::TokenKind::Star
        | crate::lexer::TokenKind::Slash
        | crate::lexer::TokenKind::Less
        | crate::lexer::TokenKind::LessEq
        | crate::lexer::TokenKind::Greater
        | crate::lexer::TokenKind::GreaterEq
        | crate::lexer::TokenKind::EqEq
        | crate::lexer::TokenKind::NotEq => Some(TokenKind::Operator),
        crate::lexer::TokenKind::LeftParen
        | crate::lexer::TokenKind::RightParen
        | crate::lexer::TokenKind::LeftCurly
        | crate::lexer::TokenKind::RightCurly
        | crate::lexer::TokenKind::Comma
        | crate::lexer::TokenKind::Semicolon => Some(TokenKind::Punctuation),
        crate::lexer::TokenKind::Name => Some(TokenKind::Value),
        crate::lexer::TokenKind::Number => Some(TokenKind::Number),
        crate::lexer::TokenKind::CommentMarker | crate::lexer::TokenKind::CodeMarker => Some(
            TokenKind::Comment,
        ),
        crate::lexer::TokenKind::Space
        | crate::lexer::TokenKind::Newline
        | crate::lexer::TokenKind::Error => None,
        crate::lexer::TokenKind::CommentText => Some(TokenKind::Comment),
    }
}

impl TokenKind {
    pub fn from_lexer(kind: crate::lexer::TokenKind) -> (r: Option<TokenKind>)
        ensures
            r == class_of(kind),
    {
        match kind {
            crate::lexer::TokenKind::Fn
            | crate::lexer::TokenKind::Let
            | crate::lexer::TokenKind::While
            | crate::lexer::TokenKind::If
            | crate::lexer::TokenKind::Else
            | crate::lexer::TokenKind::For
            | crate::lexer::TokenKind::In
            | crate::lexer::TokenKind::Return
            | crate::lexer::TokenKind::Struct
            | crate::lexer::TokenKind::True
            | crate::lexer::TokenKind::False
            | crate::lexer::TokenKind::Nil
            | crate::lexer::TokenKind::SelfKw => Some(TokenKind::Keyword),
            crate::lexer::TokenKind::Str => Some(TokenKind::String),
            crate::lexer::TokenKind::Dot | crate::lexer::TokenKind::Colon => Some(
                TokenKind::Punctuation,
            ),
            crate::lexer::TokenKind::Equals
            | crate::lexer::TokenKind::And
            | crate::lexer::TokenKind::Or
            | crate::lexer::TokenKind::Plus
            | crate::lexer::TokenKind::Minus
            | crate::lexer::TokenKind::Star
            | crate::lexer::TokenKind::Slash
            | crate::lexer::TokenKind::Less
            | crate::lexer::TokenKind::LessEq
            | crate::lexer::TokenKind::Greater
            | crate::lexer::TokenKind::GreaterEq
            | crate::lexer::TokenKind::EqEq
            | crate::lexer::TokenKind::NotEq => Some(TokenKind::Operator),
            crate::lexer::TokenKind::LeftParen
            | crate::lexer::TokenKind::RightParen
            | crate::lexer::TokenKind::LeftCurly
            | crate::lexer::TokenKind::RightCurly
            | crate::lexer::TokenKind::Comma
            | crate::lexer::TokenKind::Semicolon => Some(TokenKind::Punctuation),
            crate::lexer::TokenKind::Name => Some(TokenKind::Value),
            crate::lexer::TokenKind::Number => Some(TokenKind::Number),
            crate::lexer::TokenKind::CommentMarker | crate::lexer::TokenKind::CodeMarker => Some(
                TokenKind::Comment,
            ),
            crate::lexer::TokenKind::Space
            | crate::lexer::TokenKind::Newline
            | crate::lexer::TokenKind::Error => None,
            crate::lexer::TokenKind::CommentText => Some(TokenKind::Comment),
        }
    }
}

/// The tokens of the code from `pos` up to `end`.
pub open spec fn code_display(src: Seq<u8>, pos: int, end: int) -> Seq<Token>
    decreases end - pos,
{
    if pos < 0 || pos >= end || end > src.len() {
        Seq::empty()
    } else {
        match lex(src.subrange(pos, end)) {
            Some((kind, len)) => if len <= 0 || pos + len > end {
                Seq::empty()
            } else {
                match class_of(kind) {
                    Some(class) => seq![Token { span: span_at(pos, pos + len), kind: class }]
                        + code_display(src, pos + len, end),
                    None => code_display(src, pos + len, end),
                }
            },
            None => Seq::empty(),
        }
    }
}

/// The tokens of what is left of a line behind its markers: those of its
/// code, or one token for its prose.
pub open spec fn rest_display(src: Seq<u8>, pos: int, end: int, in_code: bool) -> Seq<Token> {
    if in_code {
        code_display(src, pos, end)
    } else if 0 <= pos < end <= src.len() {
        seq![Token { span: span_at(pos, end), kind: TokenKind::Comment }]
    } else {
        Seq::empty()
    }
}

/// The tokens of a line from `pos` on: its markers as long as they
/// alternate, starting with `expected`, then what is left of it. Each
/// marker turns code into prose and prose into code.
pub open spec fn line_display(src: Seq<u8>, pos: int, end: int, expected: Marker, in_code: bool) -> Seq<
    Token,
>
    decreases end - pos,
{
    if pos < 0 || pos > end || end > src.len() {
        Seq::empty()
    } else {
        match leading_marker_of(src.subrange(pos, end)) {
            Some((m, off)) => if m == expected && 0 <= off < end - pos {
                seq![Token { span: byte_span(pos + off), kind: TokenKind::Comment }] + line_display(
                    src,
                    pos + off + 1,
                    end,
                    expected.flipped(),
                    !in_code,
                )
            } else {
                rest_display(src, pos, end, in_code)
            },
            None => rest_display(src, pos, end, in_code),
        }
    }
}

/// The tokens of the lines from line `i` on.
pub open spec fn lines_display(src: Seq<u8>, lines: Seq<Extent>, i: int, first: Marker) -> Seq<Token>
    decreases lines.len() - i,
{
    if i < 0 || i >= lines.len() {
        Seq::empty()
    } else {
        line_display(
            src,
            lines[i].start as int,
            lines[i].end as int,
            first,
            first == Marker::Comment,
        ) + lines_display(src, lines, i + 1, first)
    }
}

/// The tokens of a document for display, in the order of the text. The
/// document's first marker says what its unmarked lines are: code where it
/// is `#` or where there is none, prose where it is `>`. A text that byte
/// offsets of 32 bits cannot address has no tokens.
pub open spec fn display(src: Seq<u8>) -> Seq<Token> {
    if src.len() > u32::MAX {
        Seq::empty()
    } else {
        lines_display(src, lines_of(src), 0, first_marker(src, lines_of(src)))
    }
}

/// The tokens lie between the bytes `lo` and `hi`, none is empty, and each
/// starts where the one before it ends or behind that.
pub open spec fn in_order(toks: Seq<Token>, lo: int, hi: int) -> bool {
    &&& forall|i: int|
        0 <= i < toks.len() ==> lo <= (#[trigger] toks[i]).span.start.offset()
            < toks[i].span.end.offset() <= hi
    &&& forall|i: int, j: int|
        0 <= i < j < toks.len() ==> (#[trigger] toks[i]).span.end.offset() <= (
        #[trigger] toks[j]).span.start.offset()
}

proof fn lemma_joined(a: Seq<Token>, b: Seq<Token>, lo: int, mid: int, hi: int)
    requires
        in_order(a, lo, mid),
        in_order(b, mid, hi),
        lo <= mid <= hi,
    ensures
        in_order(a + b, lo, hi),
{
    let c = a + b;
    assert forall|i: int| 0 <= i < c.len() implies lo <= (#[trigger] c[i]).span.start.offset()
        < c[i].span.end.offset() <= hi by {
        if i < a.len() {
            assert(c[i] == a[i]);
        } else {
            assert(c[i] == b[i - a.len()]);
        }
    }
    assert forall|i: int, j: int| 0 <= i < j < c.len() implies (#[trigger] c[i]).span.end.offset()
        <= (#[trigger] c[j]).span.start.offset() by {
        if i < a.len() {
            assert(c[i] == a[i]);
        } else {
            assert(c[i] == b[i - a.len()]);
        }
        if j < a.len() {
            assert(c[j] == a[j]);
        } else {
            assert(c[j] == b[j - a.len()]);
        }
    }
}

proof fn lemma_single(t: Token, lo: int, hi: int)
    requires
        lo <= t.span.start.offset() < t.span.end.offset() <= hi,
    ensures
        in_order(seq![t], lo, hi),
{
}

proof fn lemma_wider(toks: Seq<Token>, lo: int, hi: int, lower: int, higher: int)
    requires
        in_order(toks, lo, hi),
        lower <= lo,
        hi <= higher,
    ensures
        in_order(toks, lower, higher),
{
}

proof fn lemma_code_in_order(src: Seq<u8>, pos: int, end: int)
    requires
        0 <= pos <= end <= src.len() <= u32::MAX,
    ensures
        in_order(code_display(src, pos, end), pos, end),
    decreases end - pos,
{
    if pos < end {
        match lex(src.subrange(pos, end)) {
            Some((kind, len)) => {
                if 0 < len && pos + len <= end {
                    lemma_code_in_order(src, pos + len, end);
                    match class_of(kind) {
                        Some(class) => {
                            let t = Token { span: span_at(pos, pos + len), kind: class };
                            lemma_single(t, pos, pos + len);
                            lemma_joined(
                                seq![t],
                                code_display(src, pos + len, end),
                                pos,
                                pos + len,
                                end,
                            );
                        },
                        None => {
                            lemma_wider(code_display(src, pos + len, end), pos + len, end, pos, end);
                        },
                    }
                }
            },
            None => {},
        }
    }
}

proof fn lemma_line_in_order(src: Seq<u8>, pos: int, end: int, expected: Marker, in_code: bool)
    requires
        0 <= pos <= end <= src.len() <= u32::MAX,
    ensures
        in_order(line_display(src, pos, end, expected, in_code), pos, end),
    decreases end - pos,
{
    lemma_code_in_order(src, pos, end);
    match leading_marker_of(src.subrange(pos, end)) {
        Some((m, off)) => {
            if m == expected && 0 <= off < end - pos {
                let t = Token { span: byte_span(pos + off), kind: TokenKind::Comment };
                lemma_line_in_order(src, pos + off + 1, end, expected.flipped(), !in_code);
                lemma_single(t, pos, pos + off + 1);
                lemma_joined(
                    seq![t],
                    line_display(src, pos + off + 1, end, expected.flipped(), !in_code),
                    pos,
                    pos + off + 1,
                    end,
                );
            }
        },
        None => {},
    }
}

proof fn lemma_lines_in_order(src: Seq<u8>, lines: Seq<Extent>, i: int, first: Marker, lo: int)
    requires
        src.len() <= u32::MAX,
        0 <= i <= lines.len(),
        0 <= lo <= src.len(),
        forall|k: int| i <= k < lines.len() ==> lo <= (#[trigger] lines[k]).start <= lines[k].end
            <= src.len(),
        forall|k: int, l: int|
            i <= k < l < lines.len() ==> (#[trigger] lines[k]).end <= (#[trigger] lines[l]).start,
    ensures
        in_order(lines_display(src, lines, i, first), lo, src.len() as int),
    decreases lines.len() - i,
{
    if i < lines.len() {
        let here = line_display(
            src,
            lines[i].start as int,
            lines[i].end as int,
            first,
            first == Marker::Comment,
        );
        lemma_line_in_order(
            src,
            lines[i].start as int,
            lines[i].end as int,
            first,
            first == Marker::Comment,
        );
        lemma_wider(here, lines[i].start as int, lines[i].end as int, lo, lines[i].end as int);
        lemma_lines_in_order(src, lines, i + 1, first, lines[i].end as int);
        lemma_joined(
            here,
            lines_display(src, lines, i + 1, first),
            lo,
            lines[i].end as int,
            src.len() as int,
        );
    }
}

/// Each token of the code is what the lexer reads at its start: the bytes
/// of its span are the bytes of that token, and its class is the class of
/// the kind that the lexer gave it.
pub proof fn code_token_is_lexed(src: Seq<u8>, pos: int, end: int, k: int)
    requires
        0 <= pos <= end <= src.len() <= u32::MAX,
        0 <= k < code_display(src, pos, end).len(),
    ensures
        ({
            let t = code_display(src, pos, end)[k];
            let start = t.span.start.offset();
            &&& pos <= start < t.span.end.offset() <= end
            &&& lex(src.subrange(start, end)) is Some
            &&& (lex(src.subrange(start, end))->0).1 == t.span.end.offset() - start
            &&& class_of((lex(src.subrange(start, end))->0).0) == Some(t.kind)
        }),
    decreases end - pos,
{
    match lex(src.subrange(pos, end)) {
        Some((kind, len)) => {
            if 0 < len && pos + len <= end {
                let rest = code_display(src, pos + len, end);
                match class_of(kind) {
                    Some(class) => {
                        if k > 0 {
                            assert(code_display(src, pos, end)[k] == rest[k - 1]);
                            code_token_is_lexed(src, pos + len, end, k - 1);
                        }
                    },
                    None => {
                        code_token_is_lexed(src, pos + len, end, k);
                    },
                }
            }
        },
        None => {},
    }
}

/// The tokens for display come in the order of the text and do not
/// overlap; each is a stretch of at least one byte of the text. So a reader
/// may take each from the text by its span, and may reckon the place of
/// each from the end of the one before it.
pub proof fn display_in_order(src: Seq<u8>)
    ensures
        in_order(display(src), 0, src.len() as int),
{
    if src.len() <= u32::MAX {
        lemma_lines_from(src, 0);
        lemma_lines_in_order(src, lines_of(src), 0, first_marker(src, lines_of(src)), 0);
    }
}

/// The first marker of a document, whether or not all its markers agree.
fn leading_mode(bytes: &[u8], lines: &Vec<Extent>) -> (first: Marker)
    requires
        lines_inside(bytes@, lines@),
    ensures
        first == first_marker(bytes@, lines@),
{
    let mut i: usize = 0;
    while i < lines.len()
        invariant
            i <= lines@.len(),
            lines_inside(bytes@, lines@),
            first_marked(bytes@, lines@, 0) == first_marked(bytes@, lines@, i as int),
        decreases lines@.len() - i,
    {
        let line = lines[i];
        match leading_marker(slice_subrange(bytes, line.start, line.end)) {
            Some((m, _)) => {
                return m;
            },
            None => {},
        }
        i += 1;
    }
    Marker::Comment
}

fn push_code(bytes: &[u8], start: usize, end: usize, out: &mut Vec<Token>)
    requires
        start <= end <= bytes@.len() <= u32::MAX,
    ensures
        final(out)@ == old(out)@ + code_display(bytes@, start as int, end as int),
{
    let mut pos: usize = start;
    assert(out@ + code_display(bytes@, start as int, end as int) =~= old(out)@ + code_display(
        bytes@,
        start as int,
        end as int,
    ));
    while pos < end
        invariant
            start <= pos <= end <= bytes@.len() <= u32::MAX,
            old(out)@ + code_display(bytes@, start as int, end as int) == out@ + code_display(
                bytes@,
                pos as int,
                end as int,
            ),
        decreases end - pos,
    {
        let ghost before = out@;
        match next_token(slice_subrange(bytes, pos, end)) {
            Some((kind, len)) => {
                match TokenKind::from_lexer(kind) {
                    Some(class) => {
                        let span = Span::new(Pos::new(pos as u32), Pos::new((pos + len) as u32));
                        out.push(Token { span, kind: class });
                        assert(out@ + code_display(bytes@, pos + len, end as int) =~= before
                            + code_display(bytes@, pos as int, end as int));
                    },
                    None => {},
                }
                pos = pos + len;
            },
            None => {
                proof {
                    assert(false);
                }
            },
        }
    }
    assert(out@ + code_display(bytes@, pos as int, end as int) =~= out@);
}

fn push_line(bytes: &[u8], start: usize, end: usize, first: Marker, out: &mut Vec<Token>)
    requires
        start <= end <= bytes@.len() <= u32::MAX,
    ensures
        final(out)@ == old(out)@ + line_display(
            bytes@,
            start as int,
            end as int,
            first,
            first == Marker::Comment,
        ),
{
    let mut pos: usize = start;
    let mut expected = first;
    let mut in_code = match first {
        Marker::Comment => true,
        Marker::Code => false,
    };
    let ghost whole = old(out)@ + line_display(
        bytes@,
        start as int,
        end as int,
        first,
        first == Marker::Comment,
    );
    loop
        invariant
            start <= pos <= end <= bytes@.len() <= u32::MAX,
            whole == out@ + line_display(bytes@, pos as int, end as int, expected, in_code),
        ensures
            whole == out@ + rest_display(bytes@, pos as int, end as int, in_code),
            start <= pos <= end <= bytes@.len() <= u32::MAX,
        decreases end - pos,
    {
        let ghost before = out@;
        match leading_marker(slice_subrange(bytes, pos, end)) {
            Some((m, off)) => {
                if m == expected {
                    let at = Pos::new((pos + off) as u32);
                    out.push(Token { span: Span::new(at, at.plus_len(1)), kind: TokenKind::Comment });
                    assert(out@ + line_display(
                        bytes@,
                        pos + off + 1,
                        end as int,
                        expected.flipped(),
                        !in_code,
                    ) =~= before + line_display(bytes@, pos as int, end as int, expected, in_code));
                    pos = pos + off + 1;
                    expected = expected.other();
                    in_code = !in_code;
                } else {
                    break ;
                }
            },
            None => {
                break ;
            },
        }
    }
    if in_code {
        push_code(bytes, pos, end, out);
    } else if pos < end {
        let ghost before = out@;
        out.push(
            Token {
                span: Span::new(Pos::new(pos as u32), Pos::new(end as u32)),
                kind: TokenKind::Comment,
            },
        );
        assert(out@ =~= before + rest_display(bytes@, pos as int, end as int, in_code));
    } else {
        assert(out@ + rest_display(bytes@, pos as int, end as int, in_code) =~= out@);
    }
}

/// The tokens of a document for display.
pub fn display_tokens(source: &str) -> (tokens: Vec<Token>)
    ensures
        tokens@ == display(source.spec_bytes()),
        in_order(tokens@, 0, source.spec_bytes().len() as int),
{
    proof {
        display_in_order(source.spec_bytes());
    }
    let bytes = source.as_bytes();
    let mut out: Vec<Token> = Vec::new();
    if bytes.len() > u32::MAX as usize {
        return out;
    }
    let lines = split_lines(bytes);
    proof {
        lemma_lines_from(bytes@, 0);
    }
    let first = leading_mode(bytes, &lines);
    let mut i: usize = 0;
    assert(out@ + lines_display(bytes@, lines@, 0, first) =~= lines_display(bytes@, lines@, 0, first));
    while i < lines.len()
        invariant
            i <= lines@.len(),
            bytes@.len() <= u32::MAX,
            lines_inside(bytes@, lines@),
            lines_display(bytes@, lines@, 0, first) == out@ + lines_display(
                bytes@,
                lines@,
                i as int,
                first,
            ),
        decreases lines@.len() - i,
    {
        let ghost before = out@;
        let line = lines[i];
        push_line(bytes, line.start, line.end, first, &mut out);
        assert(out@ + lines_display(bytes@, lines@, i + 1, first) =~= before + lines_display(
            bytes@,
            lines@,
            i as int,
            first,
        ));
        i += 1;
    }
    assert(out@ + lines_display(bytes@, lines@, i as int, first) =~= out@);
    out
}

} // verus!
