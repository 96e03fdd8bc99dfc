//! The syntax tree, and its mathematical model: the same tree with `Seq` in
//! place of `Vec` and `String`.

use crate::lexer::TokenKind;
use crate::pos::Span;
use vstd::prelude::*;

verus! {

/// A stretch of the source text and what it is.
#[derive(PartialEq, Eq, Structural, Debug, Clone, Copy)]
pub struct Token {
    pub span: Span,
    pub kind: TokenKind,
}

/// A name token together with the name that it spells.
#[derive(Debug)]
pub struct Name {
    pub tok: Token,
    pub text: String,
}

/// An argument of a call, with the comma behind it.
#[derive(Debug)]
pub struct Arg {
    pub item: Expr,
    pub comma: Option<Token>,
}

/// A parameter of a function, with the comma behind it.
#[derive(Debug)]
pub struct Param {
    pub item: Name,
    pub comma: Option<Token>,
}

#[derive(Debug)]
pub enum Expr {
    Name { name: Name },
    Number { tok: Token, value: i64 },
    Bool { tok: Token, value: bool },
    Str { tok: Token, value: String },
    Nil { tok: Token },
    SelfExpr { tok: Token },
    Call { func: Box<Expr>, left_paren: Token, args: Vec<Arg>, right_paren: Token },
    Paren { left_paren: Token, inner: Box<Expr>, right_paren: Token },
    BinOp { lhs: Box<Expr>, operator: Token, rhs: Box<Expr> },
    Field { obj: Box<Expr>, dot: Token, field: Name },
    AssignVar { name: Name, eq: Token, value: Box<Expr> },
    AssignField { obj: Box<Expr>, dot: Token, field: Name, eq: Token, value: Box<Expr> },
}

#[derive(Debug)]
pub enum IfCond {
    Expr(Expr),
    TypeTest { let_tok: Token, name: Name, colon: Token, ty: Expr, eq: Token, value: Expr },
}

#[derive(Debug)]
pub enum IfTail {
    End,
    Else { else_tok: Token, body: Block },
    ElseIf { else_tok: Token, if_tok: Token, cond: IfCond, body: Block, tail: Box<IfTail> },
}

#[derive(Debug)]
pub struct NakedBlock {
    pub stmts: Vec<Stmt>,
}

#[derive(Debug)]
pub struct Block {
    pub left_curly: Token,
    pub contents: NakedBlock,
    pub right_curly: Token,
}

#[derive(Debug)]
pub struct FnDef {
    pub fn_tok: Token,
    pub name: Name,
    pub left_paren: Token,
    pub params: Vec<Param>,
    pub right_paren: Token,
    pub body: Block,
}

/// A stretch of embedded code inside a comment, or a run of its prose.
#[derive(Debug)]
pub enum CommentElem {
    Text(Token),
    Code { markers: Vec<Token>, code: NakedBlock },
}

/// A comment block: the markers that were taken off its lines, and what is
/// behind them, in the order of the text.
#[derive(Debug)]
pub struct Comment {
    pub markers: Vec<Token>,
    pub elements: Vec<CommentElem>,
}

#[derive(Debug)]
pub enum Stmt {
    If { if_tok: Token, cond: IfCond, body: Block, tail: IfTail },
    Expr { expr: Expr, semi: Token },
    For { for_tok: Token, name: Name, in_tok: Token, iterable: Expr, body: Block },
    While { while_tok: Token, cond: Expr, body: Block },
    Return { ret: Token, value: Expr, semi: Token },
    Let { let_tok: Token, name: Name, eq: Token, value: Expr, semi: Token },
    Comment(Comment),
    FnDef(FnDef),
    StructDef {
        struct_tok: Token,
        name: Name,
        left_curly: Token,
        fns: Vec<FnDef>,
        right_curly: Token,
    },
    Block(Block),
}

/// A whole document: its statements, and the code markers that were taken
/// off its lines to get at them.
#[derive(Debug)]
pub struct Program {
    pub stmts: Vec<Stmt>,
    pub code_markers: Vec<Token>,
}

// The model.

pub struct NameV {
    pub tok: Token,
    pub text: Seq<char>,
}

pub struct ArgV {
    pub item: ExprV,
    pub comma: Option<Token>,
}

pub struct ParamV {
    pub item: NameV,
    pub comma: Option<Token>,
}

pub enum ExprV {
    Name { name: NameV },
    Number { tok: Token, value: i64 },
    Bool { tok: Token, value: bool },
    Str { tok: Token, value: Seq<char> },
    Nil { tok: Token },
    SelfExpr { tok: Token },
    Call { func: Box<ExprV>, left_paren: Token, args: Seq<ArgV>, right_paren: Token },
    Paren { left_paren: Token, inner: Box<ExprV>, right_paren: Token },
    BinOp { lhs: Box<ExprV>, operator: Token, rhs: Box<ExprV> },
    Field { obj: Box<ExprV>, dot: Token, field: NameV },
    AssignVar { name: NameV, eq: Token, value: Box<ExprV> },
    AssignField { obj: Box<ExprV>, dot: Token, field: NameV, eq: Token, value: Box<ExprV> },
}

pub enum IfCondV {
    Expr(ExprV),
    TypeTest { let_tok: Token, name: NameV, colon: Token, ty: ExprV, eq: Token, value: ExprV },
}

pub enum IfTailV {
    End,
    Else { else_tok: Token, body: BlockV },
    ElseIf { else_tok: Token, if_tok: Token, cond: IfCondV, body: BlockV, tail: Box<IfTailV> },
}

pub struct NakedBlockV {
    pub stmts: Seq<StmtV>,
}

pub struct BlockV {
    pub left_curly: Token,
    pub contents: NakedBlockV,
    pub right_curly: Token,
}

pub struct FnDefV {
    pub fn_tok: Token,
    pub name: NameV,
    pub left_paren: Token,
    pub params: Seq<ParamV>,
    pub right_paren: Token,
    pub body: BlockV,
}

pub enum CommentElemV {
    Text(Token),
    Code { markers: Seq<Token>, code: NakedBlockV },
}

pub struct CommentV {
    pub markers: Seq<Token>,
    pub elements: Seq<CommentElemV>,
}

pub enum StmtV {
    If { if_tok: Token, cond: IfCondV, body: BlockV, tail: IfTailV },
    Expr { expr: ExprV, semi: Token },
    For { for_tok: Token, name: NameV, in_tok: Token, iterable: ExprV, body: BlockV },
    While { while_tok: Token, cond: ExprV, body: BlockV },
    Return { ret: Token, value: ExprV, semi: Token },
    Let { let_tok: Token, name: NameV, eq: Token, value: ExprV, semi: Token },
    Comment(CommentV),
    FnDef(FnDefV),
    StructDef {
        struct_tok: Token,
        name: NameV,
        left_curly: Token,
        fns: Seq<FnDefV>,
        right_curly: Token,
    },
    Block(BlockV),
}

pub struct ProgramV {
    pub stmts: Seq<StmtV>,
    pub code_markers: Seq<Token>,
}

pub open spec fn name_view(n: Name) -> NameV {
    NameV { tok: n.tok, text: n.text@ }
}

pub open spec fn param_view(p: Param) -> ParamV {
    ParamV { item: name_view(p.item), comma: p.comma }
}

pub open spec fn params_view(v: Vec<Param>) -> Seq<ParamV> {
    Seq::new(v@.len(), |i: int| param_view(v@[i]))
}

pub open spec fn expr_view(e: Expr) -> ExprV
    decreases e,
{
    match e {
        Expr::Name { name } => ExprV::Name { name: name_view(name) },
        Expr::Number { tok, value } => ExprV::Number { tok, value },
        Expr::Bool { tok, value } => ExprV::Bool { tok, value },
        Expr::Str { tok, value } => ExprV::Str { tok, value: value@ },
        Expr::Nil { tok } => ExprV::Nil { tok },
        Expr::SelfExpr { tok } => ExprV::SelfExpr { tok },
        Expr::Call { func, left_paren, args, right_paren } => ExprV::Call {
            func: Box::new(expr_view(*func)),
            left_paren,
            args: args_view(args),
            right_paren,
        },
        Expr::Paren { left_paren, inner, right_paren } => ExprV::Paren {
            left_paren,
            inner: Box::new(expr_view(*inner)),
            right_paren,
        },
        Expr::BinOp { lhs, operator, rhs } => ExprV::BinOp {
            lhs: Box::new(expr_view(*lhs)),
            operator,
            rhs: Box::new(expr_view(*rhs)),
        },
        Expr::Field { obj, dot, field } => ExprV::Field {
            obj: Box::new(expr_view(*obj)),
            dot,
            field: name_view(field),
        },
        Expr::AssignVar { name, eq, value } => ExprV::AssignVar {
            name: name_view(name),
            eq,
            value: Box::new(expr_view(*value)),
        },
        Expr::AssignField { obj, dot, field, eq, value } => ExprV::AssignField {
            obj: Box::new(expr_view(*obj)),
            dot,
            field: name_view(field),
            eq,
            value: Box::new(expr_view(*value)),
        },
    }
}

pub open spec fn arg_view(a: Arg) -> ArgV
    decreases a,
{
    ArgV { item: expr_view(a.item), comma: a.comma }
}

pub open spec fn args_view(v: Vec<Arg>) -> Seq<ArgV>
    decreases v,
{
    Seq::new(
        v@.len(),
        |i: int|
            if 0 <= i < v@.len() {
                arg_view(v@[i])
            } else {
                arbitrary()
            },
    )
}

pub open spec fn cond_view(c: IfCond) -> IfCondV {
    match c {
        IfCond::Expr(e) => IfCondV::Expr(expr_view(e)),
        IfCond::TypeTest { let_tok, name, colon, ty, eq, value } => IfCondV::TypeTest {
            let_tok,
            name: name_view(name),
            colon,
            ty: expr_view(ty),
            eq,
            value: expr_view(value),
        },
    }
}

#[verifier::opaque]
pub open spec fn stmt_view(s: Stmt) -> StmtV
    decreases s,
{
    match s {
        Stmt::If { if_tok, cond, body, tail } => StmtV::If {
            if_tok,
            cond: cond_view(cond),
            body: block_view(body),
            tail: tail_view(tail),
        },
        Stmt::Expr { expr, semi } => StmtV::Expr { expr: expr_view(expr), semi },
        Stmt::For { for_tok, name, in_tok, iterable, body } => StmtV::For {
            for_tok,
            name: name_view(name),
            in_tok,
            iterable: expr_view(iterable),
            body: block_view(body),
        },
        Stmt::While { while_tok, cond, body } => StmtV::While {
            while_tok,
            cond: expr_view(cond),
            body: block_view(body),
        },
        Stmt::Return { ret, value, semi } => StmtV::Return { ret, value: expr_view(value), semi },
        Stmt::Let { let_tok, name, eq, value, semi } => StmtV::Let {
            let_tok,
            name: name_view(name),
            eq,
            value: expr_view(value),
            semi,
        },
        Stmt::Comment(c) => StmtV::Comment(comment_view(c)),
        Stmt::FnDef(f) => StmtV::FnDef(fn_view(f)),
        Stmt::StructDef { struct_tok, name, left_curly, fns, right_curly } => StmtV::StructDef {
            struct_tok,
            name: name_view(name),
            left_curly,
            fns: fns_view(fns),
            right_curly,
        },
        Stmt::Block(b) => StmtV::Block(block_view(b)),
    }
}

#[verifier::opaque]
pub open spec fn stmts_view(v: Vec<Stmt>) -> Seq<StmtV>
    decreases v,
{
    Seq::new(
        v@.len(),
        |i: int|
            if 0 <= i < v@.len() {
                stmt_view(v@[i])
            } else {
                arbitrary()
            },
    )
}

#[verifier::opaque]
pub open spec fn naked_view(b: NakedBlock) -> NakedBlockV
    decreases b,
{
    NakedBlockV { stmts: stmts_view(b.stmts) }
}

#[verifier::opaque]
pub open spec fn block_view(b: Block) -> BlockV
    decreases b,
{
    BlockV {
        left_curly: b.left_curly,
        contents: naked_view(b.contents),
        right_curly: b.right_curly,
    }
}

#[verifier::opaque]
pub open spec fn tail_view(t: IfTail) -> IfTailV
    decreases t,
{
    match t {
        IfTail::End => IfTailV::End,
        IfTail::Else { else_tok, body } => IfTailV::Else { else_tok, body: block_view(body) },
        IfTail::ElseIf { else_tok, if_tok, cond, body, tail } => IfTailV::ElseIf {
            else_tok,
            if_tok,
            cond: cond_view(cond),
            body: block_view(body),
            tail: Box::new(tail_view(*tail)),
        },
    }
}

#[verifier::opaque]
pub open spec fn fn_view(f: FnDef) -> FnDefV
    decreases f,
{
    FnDefV {
        fn_tok: f.fn_tok,
        name: name_view(f.name),
        left_paren: f.left_paren,
        params: params_view(f.params),
        right_paren: f.right_paren,
        body: block_view(f.body),
    }
}

#[verifier::opaque]
pub open spec fn fns_view(v: Vec<FnDef>) -> Seq<FnDefV>
    decreases v,
{
    Seq::new(
        v@.len(),
        |i: int|
            if 0 <= i < v@.len() {
                fn_view(v@[i])
            } else {
                arbitrary()
            },
    )
}

#[verifier::opaque]
pub open spec fn elem_view(e: CommentElem) -> CommentElemV
    decreases e,
{
    match e {
        CommentElem::Text(t) => CommentElemV::Text(t),
        CommentElem::Code { markers, code } => CommentElemV::Code {
            markers: markers@,
            code: naked_view(code),
        },
    }
}

#[verifier::opaque]
pub open spec fn elems_view(v: Vec<CommentElem>) -> Seq<CommentElemV>
    decreases v,
{
    Seq::new(
        v@.len(),
        |i: int|
            if 0 <= i < v@.len() {
                elem_view(v@[i])
            } else {
                arbitrary()
            },
    )
}

#[verifier::opaque]
pub open spec fn comment_view(c: Comment) -> CommentV
    decreases c,
{
    CommentV { markers: c.markers@, elements: elems_view(c.elements) }
}

pub open spec fn program_view(p: Program) -> ProgramV {
    ProgramV { stmts: stmts_view(p.stmts), code_markers: p.code_markers@ }
}

impl View for Expr {
    type V = ExprV;

    open spec fn view(&self) -> ExprV {
        expr_view(*self)
    }
}

impl View for Stmt {
    type V = StmtV;

    open spec fn view(&self) -> StmtV {
        stmt_view(*self)
    }
}

impl View for Comment {
    type V = CommentV;

    open spec fn view(&self) -> CommentV {
        comment_view(*self)
    }
}

impl View for Program {
    type V = ProgramV;

    open spec fn view(&self) -> ProgramV {
        program_view(*self)
    }
}

} // verus!
