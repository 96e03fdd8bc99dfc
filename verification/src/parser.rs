//! The parser: recursive descent over the items of a code region, with the
//! comments among them parsed on the way.

use crate::ast::{
    arg_view, args_view, block_view, comment_view, cond_view, elem_view, elems_view, expr_view,
    fn_view, fns_view, naked_view, name_view, param_view, params_view, stmt_view, stmts_view,
    tail_view, Arg, Block, Comment, CommentElem, Expr, FnDef, IfCond, IfTail, NakedBlock, Name,
    Param, Stmt, Token,
};
use crate::ast::{
    ArgV, BlockV, CommentV, ExprV, FnDefV, IfCondV, IfTailV, NakedBlockV, NameV,
    ParamV, StmtV,
};
use crate::error::{Error, ErrorV};
use crate::grammar::{
    arg_list, atom, binop_table, block, code, combine, comment, cond, elements, expr, expr_rest,
    fn_def, fn_defs, items_of, param_list, run_stop, semi, stmt, stmts,
    expr_stmt, for_stmt, if_stmt, let_stmt, nested_stmt, return_stmt, struct_stmt, while_stmt,
    tail, view_span, Ctx, Item, Prec,
};
use crate::lexer::TokenKind;
use crate::literate::Line;
use crate::pos::{Pos, Span};
use crate::scan::{collect_items, read_number, read_string, region_wf, strip_run, token_source};
use vstd::prelude::*;
use vstd::string::StringSliceAdditionalSpecFns;

verus! {

/// The span of an expression: from its first token to its last.
pub open spec fn span_of(e: Expr) -> Span {
    view_span(expr_view(e))
}

impl Expr {
    pub fn span(&self) -> (span: Span)
        ensures
            span == span_of(*self),
        decreases self,
    {
        match self {
            Expr::Name { name } => name.tok.span,
            Expr::Number { tok, .. } => tok.span,
            Expr::Bool { tok, .. } => tok.span,
            Expr::Str { tok, .. } => tok.span,
            Expr::Nil { tok } => tok.span,
            Expr::SelfExpr { tok } => tok.span,
            Expr::Call { func, right_paren, .. } => func.span().merge(right_paren.span),
            Expr::Paren { left_paren, right_paren, .. } => left_paren.span.merge(right_paren.span),
            Expr::BinOp { lhs, rhs, .. } => lhs.span().merge(rhs.span()),
            Expr::Field { obj, field, .. } => obj.span().merge(field.tok.span),
            Expr::AssignVar { name, value, .. } => name.tok.span.merge(value.span()),
            Expr::AssignField { obj, value, .. } => obj.span().merge(value.span()),
        }
    }
}

/// The span of a condition: that of its expression, or from `let` to the
/// end of the value that is tested.
pub open spec fn cond_span(c: IfCond) -> Span {
    match c {
        IfCond::Expr(e) => span_of(e),
        IfCond::TypeTest { let_tok, value, .. } => let_tok.span.merged(span_of(value)),
    }
}

impl IfCond {
    pub fn span(&self) -> (span: Span)
        ensures
            span == cond_span(*self),
    {
        match self {
            IfCond::Expr(e) => e.span(),
            IfCond::TypeTest { let_tok, value, .. } => let_tok.span.merge(value.span()),
        }
    }
}

impl Prec {
    /// Whether this binds at least as tightly as `other`.
    pub fn at_least(self, other: Prec) -> (r: bool)
        ensures
            r == (self.rank() >= other.rank()),
    {
        self.level() >= other.level()
    }

    fn level(self) -> (r: u8)
        ensures
            r == self.rank(),
    {
        match self {
            Prec::Min => 0,
            Prec::Assign => 1,
            Prec::Or => 2,
            Prec::And => 3,
            Prec::Equals => 4,
            Prec::Compare => 5,
            Prec::AddSub => 6,
            Prec::MulDiv => 7,
            Prec::CallField => 8,
            Prec::Atom => 9,
        }
    }
}

/// For a binary operator: how tightly it binds, and how tightly what stands
/// to its right must bind at least.
pub fn binop_prec(token: TokenKind) -> (r: Option<(Prec, Prec)>)
    ensures
        r == binop_table(token),
{
    match token {
        TokenKind::Equals => Some((Prec::Assign, Prec::Assign)),
        TokenKind::Or => Some((Prec::Or, Prec::And)),
        TokenKind::And => Some((Prec::And, Prec::Equals)),
        TokenKind::EqEq | TokenKind::NotEq => Some((Prec::Equals, Prec::Compare)),
        TokenKind::Less | TokenKind::LessEq | TokenKind::Greater | TokenKind::GreaterEq => Some(
            (Prec::Compare, Prec::AddSub),
        ),
        TokenKind::Plus | TokenKind::Minus => Some((Prec::AddSub, Prec::MulDiv)),
        TokenKind::Star | TokenKind::Slash => Some((Prec::MulDiv, Prec::CallField)),
        _ => None,
    }
}

/// Makes one expression of an operator and its two sides.
fn join(lhs: Expr, operator: Token, rhs: Expr) -> (r: Result<Expr, Error>)
    ensures
        match r {
            Ok(e) => combine(expr_view(lhs), operator, expr_view(rhs)) == Ok::<ExprV, ErrorV>(
                expr_view(e),
            ),
            Err(x) => combine(expr_view(lhs), operator, expr_view(rhs)) == Err::<ExprV, ErrorV>(x@),
        },
{
    if operator.kind == TokenKind::Equals {
        match lhs {
            Expr::Name { name } => Ok(Expr::AssignVar { name, eq: operator, value: Box::new(rhs) }),
            Expr::Field { obj, dot, field } => Ok(
                Expr::AssignField { obj, dot, field, eq: operator, value: Box::new(rhs) },
            ),
            other => Err(Error::new(other.span(), "invalid assignment target")),
        }
    } else {
        Ok(Expr::BinOp { lhs: Box::new(lhs), operator, rhs: Box::new(rhs) })
    }
}

struct Parser<'a> {
    source: &'a str,
    bytes: &'a [u8],
    lines: &'a Vec<Line>,
    items: Vec<Item>,
    pos: usize,
    depth: Ghost<nat>,
}

impl<'a> Parser<'a> {
    spec fn ctx(self) -> Ctx {
        Ctx { src: self.bytes@, lines: self.lines@, items: self.items@, depth: self.depth@ }
    }

    spec fn wf(self) -> bool {
        &&& self.bytes@ == self.source.spec_bytes()
        &&& self.bytes@.len() <= u32::MAX
        &&& self.pos <= self.items@.len() <= usize::MAX
        &&& region_wf(self.bytes@, self.lines@, self.depth@)
    }

    /// The parser is in order and reads what `before` read, at the same place
    /// or further on.
    spec fn moved(self, before: Self) -> bool {
        &&& self.wf()
        &&& self.ctx() == before.ctx()
        &&& self.source@ == before.source@
        &&& self.pos >= before.pos
    }

    spec fn at(self) -> int {
        self.pos as int
    }

    fn peek(&self) -> (r: Option<Item>)
        requires
            self.wf(),
        ensures
            r == self.ctx().peek(self.at()),
    {
        if self.pos < self.items.len() {
            Some(self.items[self.pos])
        } else {
            None
        }
    }

    fn peek_kind(&self) -> (r: Option<TokenKind>)
        requires
            self.wf(),
        ensures
            r == self.ctx().peek_kind(self.at()),
    {
        match self.peek() {
            Some(Item::Tok(t)) => Some(t.kind),
            _ => None,
        }
    }

    /// Whether a token of kind `kind` comes next.
    fn sees(&self, kind: TokenKind) -> (r: bool)
        requires
            self.wf(),
        ensures
            r == (self.ctx().peek_kind(self.at()) == Some(kind)),
    {
        match self.peek() {
            Some(Item::Tok(t)) => t.kind == kind,
            _ => false,
        }
    }

    /// Takes the token that comes next.
    fn consume(&mut self) -> (r: Option<Token>)
        requires
            old(self).wf(),
        ensures
            final(self).moved(*old(self)),
            match r {
                Some(t) => old(self).ctx().peek(old(self).at()) == Some(Item::Tok(t))
                    && final(self).pos == old(self).pos + 1,
                None => !(old(self).ctx().peek(old(self).at()) is Some && old(self).ctx().peek(
                    old(self).at(),
                )->0 is Tok) && final(self).pos == old(self).pos,
            },
    {
        if self.pos < self.items.len() {
            match self.items[self.pos] {
                Item::Tok(t) => {
                    self.pos = self.pos + 1;
                    Some(t)
                },
                _ => None,
            }
        } else {
            None
        }
    }

    /// Takes the token that comes next if it is of kind `kind`.
    fn check(&mut self, kind: TokenKind) -> (r: Option<Token>)
        requires
            old(self).wf(),
        ensures
            final(self).moved(*old(self)),
            match r {
                Some(t) => old(self).ctx().peek_kind(old(self).at()) == Some(kind)
                    && t == old(self).ctx().items[old(self).at()].token()
                    && final(self).pos == old(self).pos + 1,
                None => old(self).ctx().peek_kind(old(self).at()) != Some(kind) && final(self).pos
                    == old(self).pos,
            },
    {
        if self.sees(kind) {
            self.consume()
        } else {
            None
        }
    }

    /// The error for what comes next.
    fn unexpected(&self) -> (e: Error)
        requires
            self.wf(),
        ensures
            e@ == self.ctx().unexpected(self.at()),
    {
        match self.peek() {
            Some(Item::Tok(t)) => {
                if t.kind == TokenKind::Error {
                    Error::new(t.span, "invalid token")
                } else {
                    Error::new(t.span, "unexpected token")
                }
            },
            Some(Item::Nested { marker, .. }) => Error::new(marker.span, "unexpected comment"),
            None => {
                let span = if self.items.len() > 0 {
                    match self.items[self.items.len() - 1] {
                        Item::Tok(t) => t.span,
                        Item::Nested { marker, .. } => marker.span,
                    }
                } else {
                    Span::new(Pos::new(0), Pos::new(0))
                };
                Error::new(span, "unexpected end of input")
            },
        }
    }

    /// Takes the token that comes next, which must be of kind `kind`.
    fn expect(&mut self, kind: TokenKind) -> (r: Result<Token, Error>)
        requires
            old(self).wf(),
        ensures
            final(self).moved(*old(self)),
            match r {
                Ok(t) => old(self).ctx().expect(old(self).at(), kind) == Ok::<(Token, int), ErrorV>(
                    (t, final(self).at()),
                ) && final(self).pos == old(self).pos + 1,
                Err(x) => old(self).ctx().expect(old(self).at(), kind) == Err::<
                    (Token, int),
                    ErrorV,
                >(x@),
            },
    {
        match self.check(kind) {
            Some(tok) => Ok(tok),
            None => Err(self.unexpected()),
        }
    }

    fn token_source(&self, token: Token) -> (r: Option<&'a str>)
        requires
            self.wf(),
        ensures
            match r {
                Some(s) => crate::grammar::token_text(self.bytes@, token.span) == Some(s@),
                None => crate::grammar::token_text(self.bytes@, token.span) is None,
            },
    {
        token_source(self.source, self.bytes, token)
    }

    /// Takes the name that comes next.
    fn parse_name(&mut self) -> (r: Result<Name, Error>)
        requires
            old(self).wf(),
        ensures
            final(self).moved(*old(self)),
            match r {
                Ok(n) => old(self).ctx().name(old(self).at()) == Ok::<(NameV, int), ErrorV>(
                    (name_view(n), final(self).at()),
                ) && final(self).pos == old(self).pos + 1,
                Err(x) => old(self).ctx().name(old(self).at()) == Err::<(NameV, int), ErrorV>(x@),
            },
    {
        let tok = self.expect(TokenKind::Name)?;
        match self.token_source(tok) {
            Some(text) => Ok(Name { tok, text: text.to_owned() }),
            None => Err(Error::new(tok.span, "invalid text")),
        }
    }

    fn parse_atom_expr(&mut self) -> (r: Result<Expr, Error>)
        requires
            old(self).wf(),
        ensures
            final(self).moved(*old(self)),
            match r {
                Ok(e) => atom(old(self).ctx(), old(self).at()) == Ok::<(ExprV, int), ErrorV>(
                    (expr_view(e), final(self).at()),
                ) && final(self).pos > old(self).pos,
                Err(x) => atom(old(self).ctx(), old(self).at()) == Err::<(ExprV, int), ErrorV>(x@),
            },
        decreases old(self).depth@, old(self).ctx().left(old(self).at()), 1int,
    {
        reveal(atom);
        reveal(expr);
        match self.peek_kind() {
            Some(TokenKind::Name) => {
                let name = self.parse_name()?;
                Ok(Expr::Name { name })
            },
            Some(TokenKind::Number) => {
                let tok = self.expect(TokenKind::Number)?;
                match read_number(self.bytes, tok.span) {
                    Some(value) => Ok(Expr::Number { tok, value }),
                    None => Err(Error::new(tok.span, "invalid number")),
                }
            },
            Some(TokenKind::Str) => {
                let tok = self.expect(TokenKind::Str)?;
                let value = match self.token_source(tok) {
                    Some(text) => read_string(text),
                    None => None,
                };
                match value {
                    Some(value) => Ok(Expr::Str { tok, value }),
                    None => Err(Error::new(tok.span, "invalid string literal")),
                }
            },
            Some(TokenKind::False) => {
                let tok = self.expect(TokenKind::False)?;
                Ok(Expr::Bool { tok, value: false })
            },
            Some(TokenKind::True) => {
                let tok = self.expect(TokenKind::True)?;
                Ok(Expr::Bool { tok, value: true })
            },
            Some(TokenKind::Nil) => {
                let tok = self.expect(TokenKind::Nil)?;
                Ok(Expr::Nil { tok })
            },
            Some(TokenKind::SelfKw) => {
                let tok = self.expect(TokenKind::SelfKw)?;
                Ok(Expr::SelfExpr { tok })
            },
            Some(TokenKind::LeftParen) => {
                let left_paren = self.expect(TokenKind::LeftParen)?;
                let inner = self.parse_expr(Prec::Min)?;
                let right_paren = self.expect(TokenKind::RightParen)?;
                Ok(Expr::Paren { left_paren, inner: Box::new(inner), right_paren })
            },
            _ => Err(self.unexpected()),
        }
    }

    fn parse_expr(&mut self, min_prec: Prec) -> (r: Result<Expr, Error>)
        requires
            old(self).wf(),
        ensures
            final(self).moved(*old(self)),
            match r {
                Ok(e) => expr(old(self).ctx(), old(self).at(), min_prec) == Ok::<
                    (ExprV, int),
                    ErrorV,
                >((expr_view(e), final(self).at())) && final(self).pos > old(self).pos,
                Err(x) => expr(old(self).ctx(), old(self).at(), min_prec) == Err::<
                    (ExprV, int),
                    ErrorV,
                >(x@),
            },
        decreases old(self).depth@, old(self).ctx().left(old(self).at()), 3int,
    {
        reveal(expr);
        reveal(atom);
        reveal(expr_rest);
        reveal(arg_list);
        let ghost c = self.ctx();
        let ghost start = self.at();
        let mut lhs = self.parse_atom_expr()?;
        loop
            invariant
                self.moved(*old(self)),
                self.pos > old(self).pos,
                c == old(self).ctx(),
                start == old(self).at(),
                expr(c, start, min_prec) == expr_rest(c, expr_view(lhs), self.at(), min_prec),
            decreases c.left(self.at()),
        {
            reveal(expr);
            reveal(atom);
            reveal(expr_rest);
            reveal(arg_list);
            let kind = match self.peek_kind() {
                Some(kind) => kind,
                None => {
                    return Ok(lhs);
                },
            };
            match binop_prec(kind) {
                Some((prec, rhs_prec)) => {
                    if !prec.at_least(min_prec) {
                        return Ok(lhs);
                    }
                    let operator = self.expect(kind)?;
                    let rhs = self.parse_expr(rhs_prec)?;
                    lhs = join(lhs, operator, rhs)?;
                },
                None => {
                    if !Prec::CallField.at_least(min_prec) {
                        return Ok(lhs);
                    }
                    match kind {
                        TokenKind::Dot => {
                            let dot = self.expect(TokenKind::Dot)?;
                            let field = self.parse_name()?;
                            lhs = Expr::Field { obj: Box::new(lhs), dot, field };
                        },
                        TokenKind::LeftParen => {
                            let left_paren = self.expect(TokenKind::LeftParen)?;
                            let args = self.parse_list()?;
                            let right_paren = self.expect(TokenKind::RightParen)?;
                            lhs = Expr::Call { func: Box::new(lhs), left_paren, args, right_paren };
                        },
                        _ => {
                            return Ok(lhs);
                        },
                    }
                },
            }
        }
    }

    /// The arguments of a call, up to the closing parenthesis.
    fn parse_list(&mut self) -> (r: Result<Vec<Arg>, Error>)
        requires
            old(self).wf(),
        ensures
            final(self).moved(*old(self)),
            match r {
                Ok(v) => arg_list(old(self).ctx(), old(self).at(), Seq::empty()) == Ok::<
                    (Seq<ArgV>, int),
                    ErrorV,
                >((args_view(v), final(self).at())),
                Err(x) => arg_list(old(self).ctx(), old(self).at(), Seq::empty()) == Err::<
                    (Seq<ArgV>, int),
                    ErrorV,
                >(x@),
            },
        decreases old(self).depth@, old(self).ctx().left(old(self).at()), 4int,
    {
        reveal(arg_list);
        reveal(expr);
        let ghost c = self.ctx();
        let ghost start = self.at();
        let mut list: Vec<Arg> = Vec::new();
        assert(args_view(list) =~= Seq::empty());
        loop
            invariant
                self.moved(*old(self)),
                c == old(self).ctx(),
                start == old(self).at(),
                arg_list(c, start, Seq::empty()) == arg_list(c, self.at(), args_view(list)),
            decreases c.left(self.at()),
        {
            reveal(arg_list);
            reveal(expr);
            if self.sees(TokenKind::RightParen) {
                return Ok(list);
            }
            let item = self.parse_expr(Prec::Min)?;
            let ghost before = args_view(list);
            match self.check(TokenKind::Comma) {
                Some(comma) => {
                    let arg = Arg { item, comma: Some(comma) };
                    assert(arg_view(arg) == ArgV { item: expr_view(item), comma: Some(comma) });
                    list.push(arg);
                    assert(args_view(list) =~= before.push(arg_view(arg)));
                },
                None => {
                    let arg = Arg { item, comma: None };
                    assert(arg_view(arg) == ArgV { item: expr_view(item), comma: None });
                    list.push(arg);
                    assert(args_view(list) =~= before.push(arg_view(arg)));
                    return Ok(list);
                },
            }
        }
    }

    /// The parameters of a function, up to the closing parenthesis.
    fn parse_params(&mut self) -> (r: Result<Vec<Param>, Error>)
        requires
            old(self).wf(),
        ensures
            final(self).moved(*old(self)),
            match r {
                Ok(v) => param_list(old(self).ctx(), old(self).at(), Seq::empty()) == Ok::<
                    (Seq<ParamV>, int),
                    ErrorV,
                >((params_view(v), final(self).at())),
                Err(x) => param_list(old(self).ctx(), old(self).at(), Seq::empty()) == Err::<
                    (Seq<ParamV>, int),
                    ErrorV,
                >(x@),
            },
    {
        let ghost c = self.ctx();
        let ghost start = self.at();
        let mut list: Vec<Param> = Vec::new();
        assert(params_view(list) =~= Seq::empty());
        loop
            invariant
                self.moved(*old(self)),
                c == old(self).ctx(),
                start == old(self).at(),
                param_list(c, start, Seq::empty()) == param_list(c, self.at(), params_view(list)),
            decreases c.left(self.at()),
        {
            if self.sees(TokenKind::RightParen) {
                return Ok(list);
            }
            let item = self.parse_name()?;
            let ghost before = params_view(list);
            match self.check(TokenKind::Comma) {
                Some(comma) => {
                    let param = Param { item, comma: Some(comma) };
                    list.push(param);
                    assert(params_view(list) =~= before.push(param_view(param)));
                },
                None => {
                    let param = Param { item, comma: None };
                    list.push(param);
                    assert(params_view(list) =~= before.push(param_view(param)));
                    return Ok(list);
                },
            }
        }
    }

    /// The condition of an `if`.
    fn parse_cond(&mut self) -> (r: Result<IfCond, Error>)
        requires
            old(self).wf(),
        ensures
            final(self).moved(*old(self)),
            match r {
                Ok(v) => cond(old(self).ctx(), old(self).at()) == Ok::<(IfCondV, int), ErrorV>(
                    (cond_view(v), final(self).at()),
                ) && final(self).pos > old(self).pos,
                Err(x) => cond(old(self).ctx(), old(self).at()) == Err::<(IfCondV, int), ErrorV>(
                    x@,
                ),
            },
        decreases old(self).depth@, old(self).ctx().left(old(self).at()), 5int,
    {
        reveal(cond);
        reveal(expr);
        if self.sees(TokenKind::Let) {
            let let_tok = self.expect(TokenKind::Let)?;
            let name = self.parse_name()?;
            let colon = self.expect(TokenKind::Colon)?;
            let ty = self.parse_expr(Prec::Or)?;
            let eq = self.expect(TokenKind::Equals)?;
            let value = self.parse_expr(Prec::Min)?;
            Ok(IfCond::TypeTest { let_tok, name, colon, ty, eq, value })
        } else {
            let e = self.parse_expr(Prec::Min)?;
            Ok(IfCond::Expr(e))
        }
    }

    /// What follows the body of an `if`.
    fn parse_tail(&mut self) -> (r: Result<IfTail, Error>)
        requires
            old(self).wf(),
        ensures
            final(self).moved(*old(self)),
            match r {
                Ok(v) => tail(old(self).ctx(), old(self).at()) == Ok::<(IfTailV, int), ErrorV>(
                    (tail_view(v), final(self).at()),
                ),
                Err(x) => tail(old(self).ctx(), old(self).at()) == Err::<(IfTailV, int), ErrorV>(
                    x@,
                ),
            },
        decreases old(self).depth@, old(self).ctx().left(old(self).at()), 9int,
    {
        reveal(tail_view);
        reveal(block_view);
        reveal(tail);
        reveal(cond);
        reveal(block);
        match self.check(TokenKind::Else) {
            Some(else_tok) => {
                match self.check(TokenKind::If) {
                    Some(if_tok) => {
                        let cond = self.parse_cond()?;
                        let body = self.parse_block()?;
                        let rest = self.parse_tail()?;
                        Ok(IfTail::ElseIf { else_tok, if_tok, cond, body, tail: Box::new(rest) })
                    },
                    None => {
                        let body = self.parse_block()?;
                        Ok(IfTail::Else { else_tok, body })
                    },
                }
            },
            None => Ok(IfTail::End),
        }
    }

    fn parse_block(&mut self) -> (r: Result<Block, Error>)
        requires
            old(self).wf(),
        ensures
            final(self).moved(*old(self)),
            match r {
                Ok(v) => block(old(self).ctx(), old(self).at()) == Ok::<(BlockV, int), ErrorV>(
                    (block_view(v), final(self).at()),
                ) && final(self).pos > old(self).pos,
                Err(x) => block(old(self).ctx(), old(self).at()) == Err::<(BlockV, int), ErrorV>(
                    x@,
                ),
            },
        decreases old(self).depth@, old(self).ctx().left(old(self).at()), 10int,
    {
        reveal(block_view);
        reveal(naked_view);
        reveal(stmts_view);
        reveal(block);
        reveal(stmts);
        let left_curly = self.expect(TokenKind::LeftCurly)?;
        let stmts = self.parse_stmts(true)?;
        let right_curly = self.expect(TokenKind::RightCurly)?;
        Ok(Block { left_curly, contents: NakedBlock { stmts }, right_curly })
    }

    fn parse_fn_def(&mut self) -> (r: Result<FnDef, Error>)
        requires
            old(self).wf(),
        ensures
            final(self).moved(*old(self)),
            match r {
                Ok(v) => fn_def(old(self).ctx(), old(self).at()) == Ok::<(FnDefV, int), ErrorV>(
                    (fn_view(v), final(self).at()),
                ) && final(self).pos > old(self).pos,
                Err(x) => fn_def(old(self).ctx(), old(self).at()) == Err::<(FnDefV, int), ErrorV>(
                    x@,
                ),
            },
        decreases old(self).depth@, old(self).ctx().left(old(self).at()), 10int,
    {
        reveal(fn_view);
        reveal(block_view);
        reveal(fn_def);
        reveal(block);
        let fn_tok = self.expect(TokenKind::Fn)?;
        let name = self.parse_name()?;
        let left_paren = self.expect(TokenKind::LeftParen)?;
        let params = self.parse_params()?;
        let right_paren = self.expect(TokenKind::RightParen)?;
        let body = self.parse_block()?;
        Ok(FnDef { fn_tok, name, left_paren, params, right_paren, body })
    }

    /// The function definitions inside a struct definition.
    fn parse_fn_defs(&mut self) -> (r: Result<Vec<FnDef>, Error>)
        requires
            old(self).wf(),
        ensures
            final(self).moved(*old(self)),
            match r {
                Ok(v) => fn_defs(old(self).ctx(), old(self).at(), Seq::empty()) == Ok::<
                    (Seq<FnDefV>, int),
                    ErrorV,
                >((fns_view(v), final(self).at())),
                Err(x) => fn_defs(old(self).ctx(), old(self).at(), Seq::empty()) == Err::<
                    (Seq<FnDefV>, int),
                    ErrorV,
                >(x@),
            },
        decreases old(self).depth@, old(self).ctx().left(old(self).at()), 11int,
    {
        reveal(fns_view);
        reveal(fn_view);
        reveal(fn_defs);
        reveal(fn_def);
        let ghost c = self.ctx();
        let ghost start = self.at();
        let mut list: Vec<FnDef> = Vec::new();
        assert(fns_view(list) =~= Seq::empty());
        while self.sees(TokenKind::Fn)
            invariant
                self.moved(*old(self)),
                c == old(self).ctx(),
                start == old(self).at(),
                fn_defs(c, start, Seq::empty()) == fn_defs(c, self.at(), fns_view(list)),
            decreases c.left(self.at()),
        {
            reveal(fns_view);
            reveal(fn_view);
            reveal(fn_defs);
            reveal(fn_def);
            let f = self.parse_fn_def()?;
            let ghost before = fns_view(list);
            let ghost fv = fn_view(f);
            list.push(f);
            assert(fns_view(list) =~= before.push(fv));
        }
        Ok(list)
    }

    /// The expression that comes next, and the semicolon behind it.
    fn parse_to_semi(&mut self) -> (r: Result<(Expr, Token), Error>)
        requires
            old(self).wf(),
        ensures
            final(self).moved(*old(self)),
            match r {
                Ok(v) => semi(old(self).ctx(), expr(old(self).ctx(), old(self).at(), Prec::Min))
                    == Ok::<((ExprV, Token), int), ErrorV>(
                    ((expr_view(v.0), v.1), final(self).at()),
                ) && final(self).pos > old(self).pos,
                Err(x) => semi(old(self).ctx(), expr(old(self).ctx(), old(self).at(), Prec::Min))
                    == Err::<((ExprV, Token), int), ErrorV>(x@),
            },
        decreases old(self).depth@, old(self).ctx().left(old(self).at()), 4int,
    {
        reveal(expr);
        let value = self.parse_expr(Prec::Min)?;
        let semi = self.expect(TokenKind::Semicolon)?;
        Ok((value, semi))
    }

    /// The comment that starts with line `first` of the region.
    fn parse_nested(&mut self, first: usize) -> (r: Result<Stmt, Error>)
        requires
            old(self).wf(),
            old(self).ctx().peek(old(self).at()) is Some,
        ensures
            final(self).moved(*old(self)),
            match r {
                Ok(v) => nested_stmt(old(self).ctx(), old(self).at(), first) == Ok::<
                    (StmtV, int),
                    ErrorV,
                >((stmt_view(v), final(self).at()))
                    && final(self).pos > old(self).pos,
                Err(x) => nested_stmt(old(self).ctx(), old(self).at(), first) == Err::<
                    (StmtV, int),
                    ErrorV,
                >(x@),
            },
        decreases old(self).depth@, old(self).ctx().left(old(self).at()), 11int,
    {
        reveal(stmt_view);
        reveal(comment_view);
        reveal(nested_stmt);
        reveal(comment);
        if !(first < self.lines.len() && self.lines[first].levels > 0) {
            return Err(self.unexpected());
        }
        let (markers, lines, _) = strip_run(self.bytes, self.lines, first, self.depth);
        assert(self.pos < self.items@.len());
        let found = parse_comment(
            self.source,
            self.bytes,
            &lines,
            markers,
            Ghost((self.depth@ - 1) as nat),
        )?;
        self.pos = self.pos + 1;
        Ok(Stmt::Comment(found))
    }

    fn parse_if(&mut self, if_tok: Token) -> (r: Result<Stmt, Error>)
        requires
            old(self).wf(),
        ensures
            final(self).moved(*old(self)),
            match r {
                Ok(v) => if_stmt(old(self).ctx(), old(self).at(), if_tok) == Ok::<
                    (StmtV, int),
                    ErrorV,
                >((stmt_view(v), final(self).at()))
                    && final(self).pos > old(self).pos,
                Err(x) => if_stmt(old(self).ctx(), old(self).at(), if_tok) == Err::<
                    (StmtV, int),
                    ErrorV,
                >(x@),
            },
        decreases old(self).depth@, old(self).ctx().left(old(self).at()), 11int,
    {
        reveal(stmt_view);
        reveal(block_view);
        reveal(tail_view);
        reveal(if_stmt);
        reveal(cond);
        reveal(block);
        reveal(tail);
        let cond = self.parse_cond()?;
        let body = self.parse_block()?;
        let tail = self.parse_tail()?;
        Ok(Stmt::If { if_tok, cond, body, tail })
    }

    fn parse_for(&mut self, for_tok: Token) -> (r: Result<Stmt, Error>)
        requires
            old(self).wf(),
        ensures
            final(self).moved(*old(self)),
            match r {
                Ok(v) => for_stmt(old(self).ctx(), old(self).at(), for_tok) == Ok::<
                    (StmtV, int),
                    ErrorV,
                >((stmt_view(v), final(self).at()))
                    && final(self).pos > old(self).pos,
                Err(x) => for_stmt(old(self).ctx(), old(self).at(), for_tok) == Err::<
                    (StmtV, int),
                    ErrorV,
                >(x@),
            },
        decreases old(self).depth@, old(self).ctx().left(old(self).at()), 11int,
    {
        reveal(stmt_view);
        reveal(block_view);
        reveal(for_stmt);
        reveal(expr);
        reveal(block);
        let name = self.parse_name()?;
        let in_tok = self.expect(TokenKind::In)?;
        let iterable = self.parse_expr(Prec::Min)?;
        let body = self.parse_block()?;
        Ok(Stmt::For { for_tok, name, in_tok, iterable, body })
    }

    fn parse_while(&mut self, while_tok: Token) -> (r: Result<Stmt, Error>)
        requires
            old(self).wf(),
        ensures
            final(self).moved(*old(self)),
            match r {
                Ok(v) => while_stmt(old(self).ctx(), old(self).at(), while_tok) == Ok::<
                    (StmtV, int),
                    ErrorV,
                >((stmt_view(v), final(self).at()))
                    && final(self).pos > old(self).pos,
                Err(x) => while_stmt(old(self).ctx(), old(self).at(), while_tok) == Err::<
                    (StmtV, int),
                    ErrorV,
                >(x@),
            },
        decreases old(self).depth@, old(self).ctx().left(old(self).at()), 11int,
    {
        reveal(stmt_view);
        reveal(block_view);
        reveal(while_stmt);
        reveal(expr);
        reveal(block);
        let cond = self.parse_expr(Prec::Min)?;
        let body = self.parse_block()?;
        Ok(Stmt::While { while_tok, cond, body })
    }

    fn parse_return(&mut self, ret: Token) -> (r: Result<Stmt, Error>)
        requires
            old(self).wf(),
        ensures
            final(self).moved(*old(self)),
            match r {
                Ok(v) => return_stmt(old(self).ctx(), old(self).at(), ret) == Ok::<
                    (StmtV, int),
                    ErrorV,
                >((stmt_view(v), final(self).at()))
                    && final(self).pos > old(self).pos,
                Err(x) => return_stmt(old(self).ctx(), old(self).at(), ret) == Err::<
                    (StmtV, int),
                    ErrorV,
                >(x@),
            },
        decreases old(self).depth@, old(self).ctx().left(old(self).at()), 11int,
    {
        reveal(stmt_view);
        reveal(return_stmt);
        reveal(expr);
        let (value, semi) = self.parse_to_semi()?;
        Ok(Stmt::Return { ret, value, semi })
    }

    fn parse_let(&mut self, let_tok: Token) -> (r: Result<Stmt, Error>)
        requires
            old(self).wf(),
        ensures
            final(self).moved(*old(self)),
            match r {
                Ok(v) => let_stmt(old(self).ctx(), old(self).at(), let_tok) == Ok::<
                    (StmtV, int),
                    ErrorV,
                >((stmt_view(v), final(self).at()))
                    && final(self).pos > old(self).pos,
                Err(x) => let_stmt(old(self).ctx(), old(self).at(), let_tok) == Err::<
                    (StmtV, int),
                    ErrorV,
                >(x@),
            },
        decreases old(self).depth@, old(self).ctx().left(old(self).at()), 11int,
    {
        reveal(stmt_view);
        reveal(let_stmt);
        reveal(expr);
        let name = self.parse_name()?;
        let eq = self.expect(TokenKind::Equals)?;
        let (value, semi) = self.parse_to_semi()?;
        Ok(Stmt::Let { let_tok, name, eq, value, semi })
    }

    fn parse_struct(&mut self, struct_tok: Token) -> (r: Result<Stmt, Error>)
        requires
            old(self).wf(),
        ensures
            final(self).moved(*old(self)),
            match r {
                Ok(v) => struct_stmt(old(self).ctx(), old(self).at(), struct_tok) == Ok::<
                    (StmtV, int),
                    ErrorV,
                >((stmt_view(v), final(self).at()))
                    && final(self).pos > old(self).pos,
                Err(x) => struct_stmt(old(self).ctx(), old(self).at(), struct_tok) == Err::<
                    (StmtV, int),
                    ErrorV,
                >(x@),
            },
        decreases old(self).depth@, old(self).ctx().left(old(self).at()), 12int,
    {
        reveal(stmt_view);
        reveal(fns_view);
        reveal(struct_stmt);
        reveal(fn_defs);
        let name = self.parse_name()?;
        let left_curly = self.expect(TokenKind::LeftCurly)?;
        let fns = self.parse_fn_defs()?;
        let right_curly = self.expect(TokenKind::RightCurly)?;
        Ok(Stmt::StructDef { struct_tok, name, left_curly, fns, right_curly })
    }

    fn parse_expr_stmt(&mut self) -> (r: Result<Stmt, Error>)
        requires
            old(self).wf(),
        ensures
            final(self).moved(*old(self)),
            match r {
                Ok(v) => expr_stmt(old(self).ctx(), old(self).at()) == Ok::<
                    (StmtV, int),
                    ErrorV,
                >((stmt_view(v), final(self).at()))
                    && final(self).pos > old(self).pos,
                Err(x) => expr_stmt(old(self).ctx(), old(self).at()) == Err::<
                    (StmtV, int),
                    ErrorV,
                >(x@),
            },
        decreases old(self).depth@, old(self).ctx().left(old(self).at()), 11int,
    {
        reveal(stmt_view);
        reveal(expr_stmt);
        reveal(expr);
        let expr = self.parse_expr(Prec::Min)?;
        if self.pos >= self.items.len() {
            let end = expr.span().end;
            let semi = Token { span: Span::new(end, end), kind: TokenKind::Semicolon };
            return Ok(Stmt::Expr { expr, semi });
        }
        let semi = self.expect(TokenKind::Semicolon)?;
        Ok(Stmt::Expr { expr, semi })
    }

    fn parse_stmt(&mut self) -> (r: Result<Stmt, Error>)
        requires
            old(self).wf(),
        ensures
            final(self).moved(*old(self)),
            match r {
                Ok(v) => stmt(old(self).ctx(), old(self).at()) == Ok::<
                    (StmtV, int),
                    ErrorV,
                >((stmt_view(v), final(self).at()))
                    && final(self).pos > old(self).pos,
                Err(x) => stmt(old(self).ctx(), old(self).at()) == Err::<
                    (StmtV, int),
                    ErrorV,
                >(x@),
            },
        decreases old(self).depth@, old(self).ctx().left(old(self).at()), 13int,
    {
        reveal(stmt_view);
        reveal(fn_view);
        reveal(block_view);
        reveal(stmt);
        reveal(nested_stmt);
        reveal(if_stmt);
        reveal(for_stmt);
        reveal(while_stmt);
        reveal(return_stmt);
        reveal(let_stmt);
        reveal(fn_def);
        reveal(struct_stmt);
        reveal(block);
        reveal(expr_stmt);
        let tok = match self.peek() {
            None => {
                return Err(self.unexpected());
            },
            Some(Item::Nested { first, .. }) => {
                return self.parse_nested(first);
            },
            Some(Item::Tok(tok)) => tok,
        };
        match tok.kind {
            TokenKind::If => {
                self.pos = self.pos + 1;
                self.parse_if(tok)
            },
            TokenKind::For => {
                self.pos = self.pos + 1;
                self.parse_for(tok)
            },
            TokenKind::While => {
                self.pos = self.pos + 1;
                self.parse_while(tok)
            },
            TokenKind::Return => {
                self.pos = self.pos + 1;
                self.parse_return(tok)
            },
            TokenKind::Let => {
                self.pos = self.pos + 1;
                self.parse_let(tok)
            },
            TokenKind::Fn => {
                let f = self.parse_fn_def()?;
                Ok(Stmt::FnDef(f))
            },
            TokenKind::Struct => {
                self.pos = self.pos + 1;
                self.parse_struct(tok)
            },
            TokenKind::LeftCurly => {
                let b = self.parse_block()?;
                Ok(Stmt::Block(b))
            },
            _ => self.parse_expr_stmt(),
        }
    }

    /// The statements up to the end of the items or, where `closing` is set,
    /// up to a closing curly bracket.
    fn parse_stmts(&mut self, closing: bool) -> (r: Result<Vec<Stmt>, Error>)
        requires
            old(self).wf(),
        ensures
            final(self).moved(*old(self)),
            match r {
                Ok(v) => stmts(old(self).ctx(), old(self).at(), closing, Seq::empty()) == Ok::<
                    (Seq<StmtV>, int),
                    ErrorV,
                >((stmts_view(v), final(self).at())),
                Err(x) => stmts(old(self).ctx(), old(self).at(), closing, Seq::empty()) == Err::<
                    (Seq<StmtV>, int),
                    ErrorV,
                >(x@),
            },
        decreases old(self).depth@, old(self).ctx().left(old(self).at()), 14int,
    {
        reveal(stmts_view);
        reveal(stmt_view);
        reveal(stmts);
        reveal(stmt);
        let ghost c = self.ctx();
        let ghost start = self.at();
        let mut list: Vec<Stmt> = Vec::new();
        assert(stmts_view(list) =~= Seq::empty());
        loop
            invariant
                self.moved(*old(self)),
                c == old(self).ctx(),
                start == old(self).at(),
                stmts(c, start, closing, Seq::empty()) == stmts(
                    c,
                    self.at(),
                    closing,
                    stmts_view(list),
                ),
            decreases c.left(self.at()),
        {
            reveal(stmts_view);
            reveal(stmt_view);
            reveal(stmts);
            reveal(stmt);
            if self.pos >= self.items.len() || (closing && self.sees(TokenKind::RightCurly)) {
                return Ok(list);
            }
            let s = self.parse_stmt()?;
            let ghost before = stmts_view(list);
            let ghost sv = stmt_view(s);
            list.push(s);
            assert(stmts_view(list) =~= before.push(sv));
        }
    }
}

/// Parses the lines of a code region.
pub(crate) fn parse_code(source: &str, bytes: &[u8], lines: &Vec<Line>, depth: Ghost<nat>) -> (r: Result<
    NakedBlock,
    Error,
>)
    requires
        bytes@ == source.spec_bytes(),
        bytes@.len() <= u32::MAX,
        region_wf(bytes@, lines@, depth@),
    ensures
        match r {
            Ok(b) => code(bytes@, lines@, depth@) == Ok::<NakedBlockV, ErrorV>(naked_view(b)),
            Err(x) => code(bytes@, lines@, depth@) == Err::<NakedBlockV, ErrorV>(x@),
        },
    decreases depth@, items_of(bytes@, lines@).len() + 1, 0int,
{
    reveal(naked_view);
    reveal(stmts_view);
    reveal(code);
    reveal(stmts);
    let items = collect_items(bytes, lines, depth);
    let mut parser = Parser { source, bytes, lines, items, pos: 0, depth };
    let stmts = parser.parse_stmts(false)?;
    Ok(NakedBlock { stmts })
}

/// Parses the lines of a comment region: each run of unmarked lines is a
/// stretch of prose, each run of marked lines is code.
pub(crate) fn parse_comment(
    source: &str,
    bytes: &[u8],
    lines: &Vec<Line>,
    markers: Vec<Token>,
    depth: Ghost<nat>,
) -> (r: Result<Comment, Error>)
    requires
        bytes@ == source.spec_bytes(),
        bytes@.len() <= u32::MAX,
        region_wf(bytes@, lines@, depth@),
    ensures
        match r {
            Ok(c) => comment(bytes@, lines@, markers@, depth@) == Ok::<CommentV, ErrorV>(
                comment_view(c),
            ),
            Err(x) => comment(bytes@, lines@, markers@, depth@) == Err::<CommentV, ErrorV>(x@),
        },
    decreases depth@, lines@.len() + 1, 0int,
{
    reveal(comment_view);
    reveal(elems_view);
    reveal(elem_view);
    reveal(naked_view);
    reveal(comment);
    reveal(elements);
    reveal(code);
    let mut list: Vec<CommentElem> = Vec::new();
    let mut i: usize = 0;
    assert(elems_view(list) =~= Seq::empty());
    while i < lines.len()
        invariant
            i <= lines@.len(),
            bytes@ == source.spec_bytes(),
            bytes@.len() <= u32::MAX,
            region_wf(bytes@, lines@, depth@),
            elements(bytes@, lines@, 0, depth@, Seq::empty()) == elements(
                bytes@,
                lines@,
                i as int,
                depth@,
                elems_view(list),
            ),
        decreases lines@.len() - i,
    {
        reveal(comment_view);
        reveal(elems_view);
        reveal(elem_view);
        reveal(naked_view);
        reveal(comment);
        reveal(elements);
        reveal(code);
        let ghost before = elems_view(list);
        if lines[i].levels == 0 {
            let mut stop: usize = i + 1;
            while stop < lines.len() && lines[stop].levels == 0
                invariant
                    i < stop <= lines@.len(),
                    run_stop(lines@, i + 1, false) == run_stop(lines@, stop as int, false),
                decreases lines@.len() - stop,
            {
                reveal(comment_view);
                reveal(elems_view);
                reveal(elem_view);
                reveal(naked_view);
                reveal(comment);
                reveal(elements);
                reveal(code);
                stop += 1;
            }
            let span = Span::new(
                Pos::new(lines[i].start as u32),
                Pos::new(lines[stop - 1].end as u32),
            );
            let elem = CommentElem::Text(Token { span, kind: TokenKind::CommentText });
            let ghost ev = elem_view(elem);
            list.push(elem);
            assert(elems_view(list) =~= before.push(ev));
            i = stop;
        } else {
            let (code_markers, code_lines, stop) = strip_run(bytes, lines, i, depth);
            let code = parse_code(source, bytes, &code_lines, Ghost((depth@ - 1) as nat))?;
            let elem = CommentElem::Code { markers: code_markers, code };
            let ghost ev = elem_view(elem);
            list.push(elem);
            assert(elems_view(list) =~= before.push(ev));
            i = stop;
        }
    }
    Ok(Comment { markers, elements: list })
}

} // verus!
