//! The grammar, as a function from the text to the tree.
//!
//! A code region is first cut into items: its tokens, blanks left out, with
//! one item for each run of marked lines. The functions below then say, for
//! each construct, which tree the items from a position on give, and where
//! the construct ends; or the one error that stops the whole parse.

use crate::ast::{
    ArgV, BlockV, CommentElemV, CommentV, ExprV, FnDefV, IfCondV, IfTailV, NakedBlockV, NameV, ParamV,
    StmtV, Token,
};
use crate::error::ErrorV;
use crate::lexer::{lex, TokenKind, is_digit};
use crate::literate::{Line};
use crate::pos::{Pos, Span};
use vstd::prelude::*;
use vstd::utf8::{decode_utf8, is_char_boundary};

verus! {

/// One item of a code region.
#[derive(PartialEq, Eq, Structural, Debug, Clone, Copy)]
pub enum Item {
    /// A token of the code.
    Tok(Token),
    /// The run of marked lines that starts with line `first` of the region:
    /// a comment among the code. `marker` is the first marker of that line.
    Nested { marker: Token, first: usize },
}

impl Item {
    /// The token that stands for the item in an error.
    pub open spec fn token(self) -> Token {
        match self {
            Item::Tok(t) => t,
            Item::Nested { marker, .. } => marker,
        }
    }
}

/// The span from byte `start` up to byte `end`.
pub open spec fn span_at(start: int, end: int) -> Span {
    Span { start: Pos { src_offset: start as u32 }, end: Pos { src_offset: end as u32 } }
}

/// The start of line `i`, where there is such a line.
pub open spec fn line_start(lines: Seq<Line>, i: int) -> int {
    if 0 <= i < lines.len() {
        lines[i].start as int
    } else {
        0
    }
}

/// The index of the first line at or after `i` that is marked if `marked` is
/// false, unmarked if it is true: the end of the run that starts at `i`.
pub open spec fn run_stop(lines: Seq<Line>, i: int, marked: bool) -> int
    decreases lines.len() - i,
{
    if 0 <= i < lines.len() && (lines[i].levels > 0) == marked {
        run_stop(lines, i + 1, marked)
    } else {
        i
    }
}

/// The items of a code region from the byte `pos` of its line `i` on.
pub open spec fn items_from(src: Seq<u8>, lines: Seq<Line>, i: int, pos: int) -> Seq<Item>
    decreases lines.len() - i, lines[i].end - pos,
{
    if i < 0 || i >= lines.len() {
        Seq::empty()
    } else if lines[i].levels > 0 {
        let stop = run_stop(lines, i + 1, true);
        if stop <= i || stop > lines.len() {
            Seq::empty()
        } else {
            seq![Item::Nested { marker: lines[i].marker_token(src), first: i as usize }]
                + items_from(src, lines, stop, line_start(lines, stop))
        }
    } else if pos < lines[i].start || pos >= lines[i].end || lines[i].end > src.len() {
        items_from(src, lines, i + 1, line_start(lines, i + 1))
    } else {
        match lex(src.subrange(pos, lines[i].end as int)) {
            Some((kind, len)) => {
                if len <= 0 || pos + len > lines[i].end {
                    Seq::empty()
                } else if kind == TokenKind::Space || kind == TokenKind::Newline {
                    items_from(src, lines, i, pos + len)
                } else {
                    seq![Item::Tok(Token { span: span_at(pos, pos + len), kind })] + items_from(
                        src,
                        lines,
                        i,
                        pos + len,
                    )
                }
            },
            None => Seq::empty(),
        }
    }
}

/// The items of a whole code region.
pub open spec fn items_of(src: Seq<u8>, lines: Seq<Line>) -> Seq<Item> {
    items_from(src, lines, 0, line_start(lines, 0))
}

/// The lines `i` up to `j`, each with its first marker taken off.
pub open spec fn stripped_run(src: Seq<u8>, lines: Seq<Line>, i: int, j: int) -> Seq<Line> {
    Seq::new((j - i) as nat, |k: int| lines[i + k].stripped(src))
}

/// The first markers of the lines `i` up to `j`.
pub open spec fn run_markers(src: Seq<u8>, lines: Seq<Line>, i: int, j: int) -> Seq<Token> {
    Seq::new((j - i) as nat, |k: int| lines[i + k].marker_token(src))
}

/// What a parser works on: the text, the lines of the region, its items, and
/// how deep the markers of the region can still nest.
pub struct Ctx {
    pub src: Seq<u8>,
    pub lines: Seq<Line>,
    pub items: Seq<Item>,
    pub depth: nat,
}

/// A tree and the position behind it, or the error.
pub type Parsed<T> = Result<(T, int), ErrorV>;

impl Ctx {
    /// How many items are left at `pos`.
    pub open spec fn left(self, pos: int) -> nat {
        if pos <= self.items.len() {
            (self.items.len() - pos) as nat
        } else {
            0
        }
    }

    pub open spec fn peek(self, pos: int) -> Option<Item> {
        if 0 <= pos < self.items.len() {
            Some(self.items[pos])
        } else {
            None
        }
    }

    /// The kind of the token at `pos`; `None` at the end and at a comment.
    pub open spec fn peek_kind(self, pos: int) -> Option<TokenKind> {
        match self.peek(pos) {
            Some(Item::Tok(t)) => Some(t.kind),
            _ => None,
        }
    }

    /// Where an error at the end of the items stands: at the last of them.
    pub open spec fn end_span(self) -> Span {
        if self.items.len() > 0 {
            self.items[self.items.len() - 1].token().span
        } else {
            span_at(0, 0)
        }
    }

    /// The error for what stands at `pos` where nothing can take it.
    pub open spec fn unexpected(self, pos: int) -> ErrorV {
        match self.peek(pos) {
            Some(Item::Tok(t)) => ErrorV {
                span: t.span,
                message: if t.kind == TokenKind::Error {
                    "invalid token"@
                } else {
                    "unexpected token"@
                },
            },
            Some(Item::Nested { marker, .. }) => ErrorV {
                span: marker.span,
                message: "unexpected comment"@,
            },
            None => ErrorV { span: self.end_span(), message: "unexpected end of input"@ },
        }
    }

    /// The token of kind `kind` at `pos`.
    pub open spec fn expect(self, pos: int, kind: TokenKind) -> Parsed<Token> {
        if self.peek_kind(pos) == Some(kind) {
            Ok((self.items[pos].token(), pos + 1))
        } else {
            Err(self.unexpected(pos))
        }
    }

    /// The name at `pos`.
    pub open spec fn name(self, pos: int) -> Parsed<NameV> {
        match self.expect(pos, TokenKind::Name) {
            Ok((tok, next)) => match token_text(self.src, tok.span) {
                Some(text) => Ok((NameV { tok, text }, next)),
                None => Err(ErrorV { span: tok.span, message: "invalid text"@ }),
            },
            Err(e) => Err(e),
        }
    }
}

/// A result that is known to end behind `floor`. Every construct takes at
/// least one item, so this changes no result; it is what lets the functions
/// below be defined by recursion on what is left.
pub open spec fn after<T>(floor: int, r: Parsed<T>) -> Parsed<T> {
    match r {
        Ok((_, next)) => if next > floor {
            r
        } else {
            Err(arbitrary())
        },
        Err(_) => r,
    }
}

/// The characters that the bytes of `span` encode; `None` where `span` does
/// not lie in the text on the borders of characters.
pub open spec fn token_text(src: Seq<u8>, span: Span) -> Option<Seq<char>> {
    let start = span.start.offset();
    let end = span.end.offset();
    if start <= end <= src.len() && is_char_boundary(src, end) && is_char_boundary(
        src.subrange(0, end),
        start,
    ) {
        Some(decode_utf8(src.subrange(start, end)))
    } else {
        None
    }
}

/// The number that the digits of `w` from `i` on spell after the digits that
/// gave `acc`; `None` where a byte is no digit or the number goes beyond the
/// largest `i64`.
pub open spec fn digits_value(w: Seq<u8>, i: int, acc: int) -> Option<int>
    decreases w.len() - i,
{
    if i < 0 || i >= w.len() {
        Some(acc)
    } else if is_digit(w[i]) && acc * 10 + (w[i] - 0x30) <= i64::MAX {
        digits_value(w, i + 1, acc * 10 + (w[i] - 0x30))
    } else {
        None
    }
}

/// The value of the number token at `span`.
pub open spec fn number_value(src: Seq<u8>, span: Span) -> Option<int> {
    let start = span.start.offset();
    let end = span.end.offset();
    if start <= end <= src.len() {
        digits_value(src.subrange(start, end), 0, 0)
    } else {
        None
    }
}

/// The character that a backslash and `c` stand for.
pub open spec fn escape(c: char) -> Option<char> {
    if c == 'n' {
        Some('\n')
    } else if c == 't' {
        Some('\t')
    } else if c == 'r' {
        Some('\r')
    } else if c == '0' {
        Some('\0')
    } else if c == '\\' || c == '"' || c == '\'' {
        Some(c)
    } else {
        None
    }
}

/// The characters that `s` stands for from `i` up to its last character, put
/// behind `acc`; `None` at a backslash with nothing known behind it.
pub open spec fn unescape(s: Seq<char>, i: int, acc: Seq<char>) -> Option<Seq<char>>
    decreases s.len() - i,
{
    if i < 0 || i + 1 >= s.len() {
        Some(acc)
    } else if s[i] == '\\' {
        if i + 2 < s.len() && escape(s[i + 1]) is Some {
            unescape(s, i + 2, acc.push(escape(s[i + 1])->0))
        } else {
            None
        }
    } else {
        unescape(s, i + 1, acc.push(s[i]))
    }
}

/// The value of the string literal at `span`: what stands between its
/// quotes, with the escapes resolved.
pub open spec fn string_value(src: Seq<u8>, span: Span) -> Option<Seq<char>> {
    match token_text(src, span) {
        Some(text) => if text.len() >= 2 {
            unescape(text, 1, Seq::empty())
        } else {
            None
        },
        None => None,
    }
}

/// How tightly an operator binds, from the loosest.
#[derive(PartialEq, Eq, Structural, Debug, Clone, Copy)]
pub enum Prec {
    Min,
    Assign,
    Or,
    And,
    Equals,
    Compare,
    AddSub,
    MulDiv,
    CallField,
    Atom,
}

impl Prec {
    pub open spec fn rank(self) -> int {
        match self {
            Prec::Min => 0,
            Prec::Assign => 1,
            Prec::Or => 2,
            Prec::And => 3,
            Prec::Equals => 4,
            Prec::Compare => 5,
            Prec::AddSub => 6,
            Prec::MulDiv => 7,
            Prec::CallField => 8,
            Prec::Atom => 9,
        }
    }
}

/// For a binary operator: how tightly it binds, and how tightly what stands
/// to its right must bind at least. The second is above the first but for
/// `=`, so all operators group to the left and `=` groups to the right.
pub open spec fn binop_table(kind: TokenKind) -> Option<(Prec, Prec)> {
    match kind {
        TokenKind::Equals => Some((Prec::Assign, Prec::Assign)),
        TokenKind::Or => Some((Prec::Or, Prec::And)),
        TokenKind::And => Some((Prec::And, Prec::Equals)),
        TokenKind::EqEq | TokenKind::NotEq => Some((Prec::Equals, Prec::Compare)),
        TokenKind::Less | TokenKind::LessEq | TokenKind::Greater | TokenKind::GreaterEq => Some(
            (Prec::Compare, Prec::AddSub),
        ),
        TokenKind::Plus | TokenKind::Minus => Some((Prec::AddSub, Prec::MulDiv)),
        TokenKind::Star | TokenKind::Slash => Some((Prec::MulDiv, Prec::CallField)),
        _ => None,
    }
}

/// The span of an expression: from its first token to its last.
pub open spec fn view_span(e: ExprV) -> Span
    decreases e,
{
    match e {
        ExprV::Name { name } => name.tok.span,
        ExprV::Number { tok, .. } => tok.span,
        ExprV::Bool { tok, .. } => tok.span,
        ExprV::Str { tok, .. } => tok.span,
        ExprV::Nil { tok } => tok.span,
        ExprV::SelfExpr { tok } => tok.span,
        ExprV::Call { func, right_paren, .. } => view_span(*func).merged(right_paren.span),
        ExprV::Paren { left_paren, right_paren, .. } => left_paren.span.merged(right_paren.span),
        ExprV::BinOp { lhs, rhs, .. } => view_span(*lhs).merged(view_span(*rhs)),
        ExprV::Field { obj, field, .. } => view_span(*obj).merged(field.tok.span),
        ExprV::AssignVar { name, value, .. } => name.tok.span.merged(view_span(*value)),
        ExprV::AssignField { obj, value, .. } => view_span(*obj).merged(view_span(*value)),
    }
}

/// The expression that `operator` makes of what stands on its two sides.
/// `=` takes a name or a field to its left, nothing else.
pub open spec fn combine(lhs: ExprV, operator: Token, rhs: ExprV) -> Result<ExprV, ErrorV> {
    if operator.kind == TokenKind::Equals {
        match lhs {
            ExprV::Name { name } => Ok(ExprV::AssignVar { name, eq: operator, value: Box::new(rhs) }),
            ExprV::Field { obj, dot, field } => Ok(
                ExprV::AssignField { obj, dot, field, eq: operator, value: Box::new(rhs) },
            ),
            _ => Err(ErrorV { span: view_span(lhs), message: "invalid assignment target"@ }),
        }
    } else {
        Ok(ExprV::BinOp { lhs: Box::new(lhs), operator, rhs: Box::new(rhs) })
    }
}

/// An atom: a name, a literal, or an expression in parentheses.
#[verifier::opaque]
pub open spec fn atom(c: Ctx, pos: int) -> Parsed<ExprV>
    decreases c.depth, c.left(pos), 1int,
{
    match c.peek_kind(pos) {
        Some(TokenKind::Name) => match c.name(pos) {
            Ok((name, next)) => Ok((ExprV::Name { name }, next)),
            Err(e) => Err(e),
        },
        Some(TokenKind::Number) => {
            let tok = c.items[pos].token();
            match number_value(c.src, tok.span) {
                Some(value) => Ok((ExprV::Number { tok, value: value as i64 }, pos + 1)),
                None => Err(ErrorV { span: tok.span, message: "invalid number"@ }),
            }
        },
        Some(TokenKind::Str) => {
            let tok = c.items[pos].token();
            match string_value(c.src, tok.span) {
                Some(value) => Ok((ExprV::Str { tok, value }, pos + 1)),
                None => Err(ErrorV { span: tok.span, message: "invalid string literal"@ }),
            }
        },
        Some(TokenKind::False) => Ok((ExprV::Bool { tok: c.items[pos].token(), value: false }, pos + 1)),
        Some(TokenKind::True) => Ok((ExprV::Bool { tok: c.items[pos].token(), value: true }, pos + 1)),
        Some(TokenKind::Nil) => Ok((ExprV::Nil { tok: c.items[pos].token() }, pos + 1)),
        Some(TokenKind::SelfKw) => Ok((ExprV::SelfExpr { tok: c.items[pos].token() }, pos + 1)),
        Some(TokenKind::LeftParen) => {
            let left_paren = c.items[pos].token();
            match after(pos, expr(c, pos + 1, Prec::Min)) {
                Ok((inner, p)) => match c.expect(p, TokenKind::RightParen) {
                    Ok((right_paren, next)) => Ok(
                        (ExprV::Paren { left_paren, inner: Box::new(inner), right_paren }, next),
                    ),
                    Err(e) => Err(e),
                },
                Err(e) => Err(e),
            }
        },
        _ => Err(c.unexpected(pos)),
    }
}

/// An expression whose operators all bind at least as tightly as `min`.
#[verifier::opaque]
pub open spec fn expr(c: Ctx, pos: int, min: Prec) -> Parsed<ExprV>
    decreases c.depth, c.left(pos), 3int,
{
    match after(pos, atom(c, pos)) {
        Ok((first, p)) => if c.left(p) < c.left(pos) {
            expr_rest(c, first, p, min)
        } else {
            Err(arbitrary())
        },
        Err(e) => Err(e),
    }
}

/// What goes on the expression `lhs`, which ends at `pos`: binary operators
/// with their right sides, field accesses and calls, as long as they bind at
/// least as tightly as `min`.
#[verifier::opaque]
pub open spec fn expr_rest(c: Ctx, lhs: ExprV, pos: int, min: Prec) -> Parsed<ExprV>
    decreases c.depth, c.left(pos), 2int,
{
    match c.peek_kind(pos) {
        None => Ok((lhs, pos)),
        Some(kind) => {
            let tok = c.items[pos].token();
            match binop_table(kind) {
                Some((prec, rhs_prec)) => if prec.rank() >= min.rank() {
                    match after(pos, expr(c, pos + 1, rhs_prec)) {
                        Ok((rhs, p)) => match combine(lhs, tok, rhs) {
                            Ok(both) => if c.left(p) < c.left(pos) {
                                expr_rest(c, both, p, min)
                            } else {
                                Err(arbitrary())
                            },
                            Err(e) => Err(e),
                        },
                        Err(e) => Err(e),
                    }
                } else {
                    Ok((lhs, pos))
                },
                None => if kind == TokenKind::Dot && Prec::CallField.rank() >= min.rank() {
                    match c.name(pos + 1) {
                        Ok((field, p)) => if c.left(p) < c.left(pos) {
                            expr_rest(c, ExprV::Field { obj: Box::new(lhs), dot: tok, field }, p, min)
                        } else {
                            Err(arbitrary())
                        },
                        Err(e) => Err(e),
                    }
                } else if kind == TokenKind::LeftParen && Prec::CallField.rank() >= min.rank() {
                    match after(pos, arg_list(c, pos + 1, Seq::empty())) {
                        Ok((args, p)) => match c.expect(p, TokenKind::RightParen) {
                            Ok((right_paren, next)) => if c.left(next) < c.left(pos) {
                                expr_rest(
                                    c,
                                    ExprV::Call {
                                        func: Box::new(lhs),
                                        left_paren: tok,
                                        args,
                                        right_paren,
                                    },
                                    next,
                                    min,
                                )
                            } else {
                                Err(arbitrary())
                            },
                            Err(e) => Err(e),
                        },
                        Err(e) => Err(e),
                    }
                } else {
                    Ok((lhs, pos))
                },
            }
        },
    }
}

/// The arguments of a call behind those of `acc`, up to the closing
/// parenthesis, which is left to the caller. A comma may stand behind the
/// last argument; without a comma the list ends.
#[verifier::opaque]
pub open spec fn arg_list(c: Ctx, pos: int, acc: Seq<ArgV>) -> Parsed<Seq<ArgV>>
    decreases c.depth, c.left(pos), 4int,
{
    if c.peek_kind(pos) == Some(TokenKind::RightParen) {
        Ok((acc, pos))
    } else {
        match after(pos, expr(c, pos, Prec::Min)) {
            Ok((item, p)) => if c.peek_kind(p) == Some(TokenKind::Comma) {
                if c.left(p + 1) < c.left(pos) {
                    arg_list(c, p + 1, acc.push(ArgV { item, comma: Some(c.items[p].token()) }))
                } else {
                    Err(arbitrary())
                }
            } else {
                Ok((acc.push(ArgV { item, comma: None }), p))
            },
            Err(e) => Err(e),
        }
    }
}

/// The parameters of a function behind those of `acc`, as `arg_list`.
pub open spec fn param_list(c: Ctx, pos: int, acc: Seq<ParamV>) -> Parsed<Seq<ParamV>>
    decreases c.left(pos),
{
    if c.peek_kind(pos) == Some(TokenKind::RightParen) {
        Ok((acc, pos))
    } else {
        match c.name(pos) {
            Ok((item, p)) => if c.peek_kind(p) == Some(TokenKind::Comma) {
                if c.left(p + 1) < c.left(pos) {
                    param_list(c, p + 1, acc.push(ParamV { item, comma: Some(c.items[p].token()) }))
                } else {
                    Err(arbitrary())
                }
            } else {
                Ok((acc.push(ParamV { item, comma: None }), p))
            },
            Err(e) => Err(e),
        }
    }
}

/// The condition of an `if`: an expression, or `let NAME: TYPE = VALUE`.
#[verifier::opaque]
pub open spec fn cond(c: Ctx, pos: int) -> Parsed<IfCondV>
    decreases c.depth, c.left(pos), 5int,
{
    if c.peek_kind(pos) == Some(TokenKind::Let) {
        let let_tok = c.items[pos].token();
        match c.name(pos + 1) {
            Ok((name, q1)) => match c.expect(q1, TokenKind::Colon) {
                Ok((colon, q2)) => match after(pos, expr(c, q2, Prec::Or)) {
                    Ok((ty, q3)) => match c.expect(q3, TokenKind::Equals) {
                        Ok((eq, q4)) => match after(pos, expr(c, q4, Prec::Min)) {
                            Ok((value, next)) => Ok(
                                (IfCondV::TypeTest { let_tok, name, colon, ty, eq, value }, next),
                            ),
                            Err(e) => Err(e),
                        },
                        Err(e) => Err(e),
                    },
                    Err(e) => Err(e),
                },
                Err(e) => Err(e),
            },
            Err(e) => Err(e),
        }
    } else {
        match expr(c, pos, Prec::Min) {
            Ok((e, next)) => Ok((IfCondV::Expr(e), next)),
            Err(e) => Err(e),
        }
    }
}

/// What follows the body of an `if`: nothing, `else` and a block, or `else
/// if` with all that an `if` has.
#[verifier::opaque]
pub open spec fn tail(c: Ctx, pos: int) -> Parsed<IfTailV>
    decreases c.depth, c.left(pos), 9int,
{
    if c.peek_kind(pos) == Some(TokenKind::Else) {
        let else_tok = c.items[pos].token();
        if c.peek_kind(pos + 1) == Some(TokenKind::If) {
            let if_tok = c.items[pos + 1].token();
            match after(pos, cond(c, pos + 2)) {
                Ok((test, q1)) => match after(pos, block(c, q1)) {
                    Ok((body, q2)) => match tail(c, q2) {
                        Ok((rest, next)) => Ok(
                            (
                                IfTailV::ElseIf {
                                    else_tok,
                                    if_tok,
                                    cond: test,
                                    body,
                                    tail: Box::new(rest),
                                },
                                next,
                            ),
                        ),
                        Err(e) => Err(e),
                    },
                    Err(e) => Err(e),
                },
                Err(e) => Err(e),
            }
        } else {
            match after(pos, block(c, pos + 1)) {
                Ok((body, next)) => Ok((IfTailV::Else { else_tok, body }, next)),
                Err(e) => Err(e),
            }
        }
    } else {
        Ok((IfTailV::End, pos))
    }
}

/// A block: statements between curly brackets.
#[verifier::opaque]
pub open spec fn block(c: Ctx, pos: int) -> Parsed<BlockV>
    decreases c.depth, c.left(pos), 10int,
{
    match c.expect(pos, TokenKind::LeftCurly) {
        Ok((left_curly, q1)) => match after(pos, stmts(c, q1, true, Seq::empty())) {
            Ok((list, q2)) => match c.expect(q2, TokenKind::RightCurly) {
                Ok((right_curly, next)) => Ok(
                    (BlockV { left_curly, contents: NakedBlockV { stmts: list }, right_curly }, next),
                ),
                Err(e) => Err(e),
            },
            Err(e) => Err(e),
        },
        Err(e) => Err(e),
    }
}

/// A function definition.
#[verifier::opaque]
pub open spec fn fn_def(c: Ctx, pos: int) -> Parsed<FnDefV>
    decreases c.depth, c.left(pos), 10int,
{
    match c.expect(pos, TokenKind::Fn) {
        Ok((fn_tok, q1)) => match c.name(q1) {
            Ok((name, q2)) => match c.expect(q2, TokenKind::LeftParen) {
                Ok((left_paren, q3)) => match after(pos, param_list(c, q3, Seq::empty())) {
                    Ok((params, q4)) => match c.expect(q4, TokenKind::RightParen) {
                        Ok((right_paren, q5)) => match after(pos, block(c, q5)) {
                            Ok((body, next)) => Ok(
                                (FnDefV { fn_tok, name, left_paren, params, right_paren, body }, next),
                            ),
                            Err(e) => Err(e),
                        },
                        Err(e) => Err(e),
                    },
                    Err(e) => Err(e),
                },
                Err(e) => Err(e),
            },
            Err(e) => Err(e),
        },
        Err(e) => Err(e),
    }
}

/// The function definitions inside a struct definition, behind those of
/// `acc`.
#[verifier::opaque]
pub open spec fn fn_defs(c: Ctx, pos: int, acc: Seq<FnDefV>) -> Parsed<Seq<FnDefV>>
    decreases c.depth, c.left(pos), 11int,
{
    if c.peek_kind(pos) == Some(TokenKind::Fn) {
        match after(pos, fn_def(c, pos)) {
            Ok((f, p)) => if c.left(p) < c.left(pos) {
                fn_defs(c, p, acc.push(f))
            } else {
                Err(arbitrary())
            },
            Err(e) => Err(e),
        }
    } else {
        Ok((acc, pos))
    }
}

/// A statement that ends with a semicolon behind the expression `value`.
pub open spec fn semi(c: Ctx, r: Parsed<ExprV>) -> Parsed<(ExprV, Token)> {
    match r {
        Ok((value, p)) => match c.expect(p, TokenKind::Semicolon) {
            Ok((semi, next)) => Ok(((value, semi), next)),
            Err(e) => Err(e),
        },
        Err(e) => Err(e),
    }
}

/// The comment that the run of marked lines from line `first` on gives.
#[verifier::opaque]
pub open spec fn nested_stmt(c: Ctx, pos: int, first: usize) -> Parsed<StmtV>
    decreases c.depth, c.left(pos), 11int,
{
    let stop = run_stop(c.lines, first as int, true);
    if !(first < c.lines.len() && c.lines[first as int].levels > 0) {
        Err(c.unexpected(pos))
    } else if c.depth == 0 {
        Err(arbitrary())
    } else {
        match comment(
            c.src,
            stripped_run(c.src, c.lines, first as int, stop),
            run_markers(c.src, c.lines, first as int, stop),
            (c.depth - 1) as nat,
        ) {
            Ok(found) => Ok((StmtV::Comment(found), pos + 1)),
            Err(e) => Err(e),
        }
    }
}

/// `if COND { .. }` with what follows it; `pos` is behind the `if`.
#[verifier::opaque]
pub open spec fn if_stmt(c: Ctx, pos: int, if_tok: Token) -> Parsed<StmtV>
    decreases c.depth, c.left(pos), 11int,
{
    match after(pos, cond(c, pos)) {
        Ok((test, q1)) => match after(pos, block(c, q1)) {
            Ok((body, q2)) => match tail(c, q2) {
                Ok((rest, next)) => Ok((StmtV::If { if_tok, cond: test, body, tail: rest }, next)),
                Err(e) => Err(e),
            },
            Err(e) => Err(e),
        },
        Err(e) => Err(e),
    }
}

/// `for NAME in EXPR { .. }`; `pos` is behind the `for`.
#[verifier::opaque]
pub open spec fn for_stmt(c: Ctx, pos: int, for_tok: Token) -> Parsed<StmtV>
    decreases c.depth, c.left(pos), 11int,
{
    match c.name(pos) {
        Ok((name, q1)) => match c.expect(q1, TokenKind::In) {
            Ok((in_tok, q2)) => match after(pos, expr(c, q2, Prec::Min)) {
                Ok((iterable, q3)) => match block(c, q3) {
                    Ok((body, next)) => Ok(
                        (StmtV::For { for_tok, name, in_tok, iterable, body }, next),
                    ),
                    Err(e) => Err(e),
                },
                Err(e) => Err(e),
            },
            Err(e) => Err(e),
        },
        Err(e) => Err(e),
    }
}

/// `while EXPR { .. }`; `pos` is behind the `while`.
#[verifier::opaque]
pub open spec fn while_stmt(c: Ctx, pos: int, while_tok: Token) -> Parsed<StmtV>
    decreases c.depth, c.left(pos), 11int,
{
    match after(pos, expr(c, pos, Prec::Min)) {
        Ok((test, q1)) => match block(c, q1) {
            Ok((body, next)) => Ok((StmtV::While { while_tok, cond: test, body }, next)),
            Err(e) => Err(e),
        },
        Err(e) => Err(e),
    }
}

/// `return EXPR;`; `pos` is behind the `return`.
#[verifier::opaque]
pub open spec fn return_stmt(c: Ctx, pos: int, ret: Token) -> Parsed<StmtV>
    decreases c.depth, c.left(pos), 11int,
{
    match semi(c, expr(c, pos, Prec::Min)) {
        Ok(((value, semi), next)) => Ok((StmtV::Return { ret, value, semi }, next)),
        Err(e) => Err(e),
    }
}

/// `let NAME = EXPR;`; `pos` is behind the `let`.
#[verifier::opaque]
pub open spec fn let_stmt(c: Ctx, pos: int, let_tok: Token) -> Parsed<StmtV>
    decreases c.depth, c.left(pos), 11int,
{
    match c.name(pos) {
        Ok((name, q1)) => match c.expect(q1, TokenKind::Equals) {
            Ok((eq, q2)) => match semi(c, expr(c, q2, Prec::Min)) {
                Ok(((value, semi), next)) => Ok(
                    (StmtV::Let { let_tok, name, eq, value, semi }, next),
                ),
                Err(e) => Err(e),
            },
            Err(e) => Err(e),
        },
        Err(e) => Err(e),
    }
}

/// `struct NAME { FNS }`; `pos` is behind the `struct`.
#[verifier::opaque]
pub open spec fn struct_stmt(c: Ctx, pos: int, struct_tok: Token) -> Parsed<StmtV>
    decreases c.depth, c.left(pos), 12int,
{
    match c.name(pos) {
        Ok((name, q1)) => match c.expect(q1, TokenKind::LeftCurly) {
            Ok((left_curly, q2)) => match after(pos, fn_defs(c, q2, Seq::empty())) {
                Ok((fns, q3)) => match c.expect(q3, TokenKind::RightCurly) {
                    Ok((right_curly, next)) => Ok(
                        (StmtV::StructDef { struct_tok, name, left_curly, fns, right_curly }, next),
                    ),
                    Err(e) => Err(e),
                },
                Err(e) => Err(e),
            },
            Err(e) => Err(e),
        },
        Err(e) => Err(e),
    }
}

/// The semicolon that the last statement of a region may leave out: an
/// empty token at the end of its expression.
pub open spec fn implied_semi(value: ExprV) -> Token {
    Token {
        span: Span { start: view_span(value).end, end: view_span(value).end },
        kind: TokenKind::Semicolon,
    }
}

/// An expression and a semicolon. At the very end of a region the
/// semicolon may be left out.
#[verifier::opaque]
pub open spec fn expr_stmt(c: Ctx, pos: int) -> Parsed<StmtV>
    decreases c.depth, c.left(pos), 11int,
{
    match expr(c, pos, Prec::Min) {
        Ok((value, p)) => if c.peek(p) is None {
            Ok((StmtV::Expr { expr: value, semi: implied_semi(value) }, p))
        } else {
            match c.expect(p, TokenKind::Semicolon) {
                Ok((semi, next)) => Ok((StmtV::Expr { expr: value, semi }, next)),
                Err(e) => Err(e),
            }
        },
        Err(e) => Err(e),
    }
}

/// A statement: a comment among the code, one of the forms that a keyword
/// or `{` starts, or else an expression with a semicolon.
#[verifier::opaque]
pub open spec fn stmt(c: Ctx, pos: int) -> Parsed<StmtV>
    decreases c.depth, c.left(pos), 13int,
{
    match c.peek(pos) {
        None => Err(c.unexpected(pos)),
        Some(Item::Nested { marker, first }) => nested_stmt(c, pos, first),
        Some(Item::Tok(tok)) => match tok.kind {
            TokenKind::If => if_stmt(c, pos + 1, tok),
            TokenKind::For => for_stmt(c, pos + 1, tok),
            TokenKind::While => while_stmt(c, pos + 1, tok),
            TokenKind::Return => return_stmt(c, pos + 1, tok),
            TokenKind::Let => let_stmt(c, pos + 1, tok),
            TokenKind::Fn => match fn_def(c, pos) {
                Ok((f, next)) => Ok((StmtV::FnDef(f), next)),
                Err(e) => Err(e),
            },
            TokenKind::Struct => struct_stmt(c, pos + 1, tok),
            TokenKind::LeftCurly => match block(c, pos) {
                Ok((b, next)) => Ok((StmtV::Block(b), next)),
                Err(e) => Err(e),
            },
            _ => expr_stmt(c, pos),
        },
    }
}

/// The statements behind those of `acc`: up to the end of the items, or,
/// where `closing` is set, up to a closing curly bracket, which is left to
/// the caller.
#[verifier::opaque]
pub open spec fn stmts(c: Ctx, pos: int, closing: bool, acc: Seq<StmtV>) -> Parsed<Seq<StmtV>>
    decreases c.depth, c.left(pos), 14int,
{
    if c.peek(pos) is None || (closing && c.peek_kind(pos) == Some(TokenKind::RightCurly)) {
        Ok((acc, pos))
    } else {
        match after(pos, stmt(c, pos)) {
            Ok((s, p)) => if c.left(p) < c.left(pos) {
                stmts(c, p, closing, acc.push(s))
            } else {
                Err(arbitrary())
            },
            Err(e) => Err(e),
        }
    }
}

/// The code of a region: the statements that its items give.
#[verifier::opaque]
pub open spec fn code(src: Seq<u8>, lines: Seq<Line>, depth: nat) -> Result<NakedBlockV, ErrorV>
    decreases depth, items_of(src, lines).len() + 1, 0int,
{
    let c = Ctx { src, lines, items: items_of(src, lines), depth };
    match stmts(c, 0, false, Seq::empty()) {
        Ok((list, _)) => Ok(NakedBlockV { stmts: list }),
        Err(e) => Err(e),
    }
}

/// The prose token of the run of unmarked lines from `i` up to `j`: from the
/// start of the first of them to the end of the last.
pub open spec fn text_token(lines: Seq<Line>, i: int, j: int) -> Token {
    Token { span: span_at(lines[i].start as int, lines[j - 1].end as int), kind: TokenKind::CommentText }
}

/// The elements of a comment from its line `i` on, behind those of `acc`:
/// each run of unmarked lines is a stretch of prose, each run of marked lines
/// is code, parsed with one marker taken off each line.
#[verifier::opaque]
pub open spec fn elements(src: Seq<u8>, lines: Seq<Line>, i: int, depth: nat, acc: Seq<CommentElemV>)
    -> Result<Seq<CommentElemV>, ErrorV>
    decreases depth, lines.len() - i, 0int,
{
    if i < 0 || i >= lines.len() {
        Ok(acc)
    } else if lines[i].levels == 0 {
        let stop = run_stop(lines, i + 1, false);
        if stop <= i || stop > lines.len() {
            Err(arbitrary())
        } else {
            elements(src, lines, stop, depth, acc.push(CommentElemV::Text(text_token(lines, i, stop))))
        }
    } else {
        let stop = run_stop(lines, i + 1, true);
        if stop <= i || stop > lines.len() || depth == 0 {
            Err(arbitrary())
        } else {
            match code(src, stripped_run(src, lines, i, stop), (depth - 1) as nat) {
                Ok(found) => elements(
                    src,
                    lines,
                    stop,
                    depth,
                    acc.push(
                        CommentElemV::Code { markers: run_markers(src, lines, i, stop), code: found },
                    ),
                ),
                Err(e) => Err(e),
            }
        }
    }
}

/// The comment that the lines of a comment region give; `markers` are the
/// markers that were taken off them.
#[verifier::opaque]
pub open spec fn comment(src: Seq<u8>, lines: Seq<Line>, markers: Seq<Token>, depth: nat) -> Result<
    CommentV,
    ErrorV,
>
    decreases depth, lines.len() + 1, 0int,
{
    match elements(src, lines, 0, depth, Seq::empty()) {
        Ok(list) => Ok(CommentV { markers, elements: list }),
        Err(e) => Err(e),
    }
}

} // verus!
