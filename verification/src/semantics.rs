//! What a program means: the state that its evaluation leaves, and its
//! result.
//!
//! Evaluation runs on a budget, `fuel`. An expression and a statement
//! evaluate their parts on one less than they have themselves, and so does
//! each round of a `while` and each `else` of an `if`; with no fuel left
//! evaluation fails. So every evaluation ends, and a program of any depth
//! and length runs to its end on a budget that is large enough.

use crate::ast::{Arg, Expr, FnDef, IfCond, IfTail, Param, Stmt};
use crate::error::ErrorV;
use crate::intrinsics::{
    call_native, kind_name, lookup_field, set_field, value_type, sum, difference, product,
    quotient, compare, Order, object_name,
};
use crate::lexer::TokenKind;
use crate::parser::span_of;
use crate::pos::{Pos, Span};
use crate::text::decimal_nat;
use crate::value::{Env, Native, ObjectV, State, Value};
use vstd::prelude::*;

verus! {

/// Why the statements of a block stop before their end.
pub enum Stop {
    Error(ErrorV),
    Return(Value),
}

/// The error of an evaluation that ran out of fuel at `span`.
pub open spec fn exhausted(span: Span) -> ErrorV {
    ErrorV { span, message: "evaluation budget exhausted"@ }
}

pub open spec fn undefined(span: Span) -> ErrorV {
    ErrorV { span, message: "undefined variable"@ }
}

/// The result of a native function as the result of the call at `span`.
pub open spec fn at_span(r: (State, Result<Value, Seq<char>>), span: Span) -> (
    State,
    Result<Value, ErrorV>,
) {
    match r.1 {
        Ok(v) => (r.0, Ok(v)),
        Err(message) => (r.0, Err(ErrorV { span, message })),
    }
}

/// The error for a field that a value does not have.
pub open spec fn no_field(s: State, o: Value, field: Seq<char>, span: Span) -> ErrorV {
    ErrorV { span, message: kind_name(s, o) + " does not have field `"@ + field + "`"@ }
}

/// The error for a value of the wrong kind: `what` and the kind it has.
pub open spec fn wrong_kind(what: Seq<char>, s: State, v: Value, span: Span) -> ErrorV {
    ErrorV { span, message: what + kind_name(s, v) }
}

/// The message for a call with the wrong number of arguments.
pub open spec fn args_message(name: Seq<char>, want: nat, got: nat) -> Seq<char> {
    name + " expects "@ + decimal_nat(want) + " args, got "@ + decimal_nat(got)
}

/// Where a statement starts: the span of its first token, or of its
/// expression.
pub open spec fn anchor(stmt: Stmt) -> Span {
    match stmt {
        Stmt::If { if_tok, .. } => if_tok.span,
        Stmt::Expr { expr, .. } => span_of(expr),
        Stmt::For { for_tok, .. } => for_tok.span,
        Stmt::While { while_tok, .. } => while_tok.span,
        Stmt::Return { ret, .. } => ret.span,
        Stmt::Let { let_tok, .. } => let_tok.span,
        Stmt::Comment(c) => if c.markers@.len() > 0 {
            c.markers@[0].span
        } else {
            Span { start: Pos { src_offset: 0 }, end: Pos { src_offset: 0 } }
        },
        Stmt::FnDef(f) => f.fn_tok.span,
        Stmt::StructDef { struct_tok, .. } => struct_tok.span,
        Stmt::Block(b) => b.left_curly.span,
    }
}

/// The environment of a call: the parameters from `i` on, each bound to its
/// argument, in front of `env`.
pub open spec fn bind_params(s: State, params: Seq<Param>, args: Seq<Value>, i: int, env: Env) -> (
    State,
    Env,
)
    decreases params.len() - i,
{
    if i < 0 || i >= params.len() || i >= args.len() {
        (s, env)
    } else {
        let (s1, env1) = s.define(env, params[i].item.text@, args[i]);
        bind_params(s1, params, args, i + 1, env1)
    }
}

/// The value of an expression.
#[verifier::opaque]
pub open spec fn eval_expr(fuel: nat, s: State, e: Expr, env: Env, depth: nat) -> (
    State,
    Result<Value, ErrorV>,
)
    decreases fuel, 0int, 0int,
{
    if fuel == 0 {
        (s, Err(exhausted(span_of(e))))
    } else {
        let f = (fuel - 1) as nat;
        match e {
            Expr::Name { name } => match s.lookup(env, name.text@) {
                Some(v) => (s, Ok(v)),
                None => (s, Err(undefined(name.tok.span))),
            },
            Expr::Number { value, .. } => (s, Ok(Value::Int(value))),
            Expr::Bool { value, .. } => (s, Ok(Value::Bool(value))),
            Expr::Str { value, .. } => (
                s.store(ObjectV::Str(value@)).0,
                Ok(Value::Str(s.store(ObjectV::Str(value@)).1)),
            ),
            Expr::Nil { .. } => (s, Ok(Value::Nil)),
            Expr::SelfExpr { tok } => match s.lookup(env, "self"@) {
                Some(v) => (s, Ok(v)),
                None => (s, Err(undefined(tok.span))),
            },
            Expr::Call { func, args, .. } => eval_call(f, s, *func, args@, span_of(e), env, depth),
            Expr::Paren { inner, .. } => eval_expr(f, s, *inner, env, depth),
            Expr::BinOp { lhs, operator, rhs } => eval_binop(
                f,
                s,
                *lhs,
                operator.kind,
                *rhs,
                span_of(e),
                env,
                depth,
            ),
            Expr::Field { obj, field, .. } => match eval_expr(f, s, *obj, env, depth) {
                (s1, Ok(o)) => match lookup_field(s1, o, field.text@).1 {
                    Some(v) => (lookup_field(s1, o, field.text@).0, Ok(v)),
                    None => (
                        lookup_field(s1, o, field.text@).0,
                        Err(
                            no_field(
                                lookup_field(s1, o, field.text@).0,
                                o,
                                field.text@,
                                field.tok.span,
                            ),
                        ),
                    ),
                },
                (s1, Err(x)) => (s1, Err(x)),
            },
            Expr::AssignVar { name, value, .. } => match eval_expr(f, s, *value, env, depth) {
                (s1, Ok(v)) => match s1.assign(env, name.text@, v) {
                    Some(s2) => (s2, Ok(v)),
                    None => (s1, Err(undefined(name.tok.span))),
                },
                (s1, Err(x)) => (s1, Err(x)),
            },
            Expr::AssignField { obj, field, value, .. } => match eval_expr(f, s, *obj, env, depth) {
                (s1, Ok(o)) => match eval_expr(f, s1, *value, env, depth) {
                    (s2, Ok(v)) => match set_field(s2, o, field.text@, v).1 {
                        Ok(_) => (set_field(s2, o, field.text@, v).0, Ok(v)),
                        Err(message) => (
                            set_field(s2, o, field.text@, v).0,
                            Err(ErrorV { span: field.tok.span, message }),
                        ),
                    },
                    (s2, Err(x)) => (s2, Err(x)),
                },
                (s1, Err(x)) => (s1, Err(x)),
            },
        }
    }
}

/// The values of the arguments from `i` on, behind those of `acc`.
#[verifier::opaque]
pub open spec fn eval_args(
    fuel: nat,
    s: State,
    args: Seq<Arg>,
    i: int,
    env: Env,
    depth: nat,
    acc: Seq<Value>,
) -> (State, Result<Seq<Value>, ErrorV>)
    decreases fuel, 1int, args.len() - i,
{
    if i < 0 || i >= args.len() {
        (s, Ok(acc))
    } else {
        match eval_expr(fuel, s, args[i].item, env, depth) {
            (s1, Ok(v)) => eval_args(fuel, s1, args, i + 1, env, depth, acc.push(v)),
            (s1, Err(x)) => (s1, Err(x)),
        }
    }
}

/// The call of the function `id` of the program with the values `args`:
/// its body runs in its own scope in front of the environment that the
/// function was defined in, whatever the environment of the call. A body
/// that comes to its end gives `nil`.
#[verifier::opaque]
pub open spec fn call_user(fuel: nat, s: State, id: usize, args: Seq<Value>, span: Span, depth: nat) -> (
    State,
    Result<Value, ErrorV>,
)
    decreases fuel, 3int, 0int,
{
    match s.object(id) {
        Some(ObjectV::UserFunc { def, env: captured, .. }) => if args.len() != def.params@.len() {
            (
                s,
                Err(
                    ErrorV {
                        span,
                        message: args_message(object_name(s, id), def.params@.len(), args.len()),
                    },
                ),
            )
        } else {
            let bound = bind_params(s, def.params@, args, 0, captured.fenced());
            match eval_block(fuel, bound.0, def.body.contents.stmts@, bound.1, depth + 1) {
                (s1, Ok(_)) => (s1, Ok(Value::Nil)),
                (s1, Err(Stop::Error(x))) => (s1, Err(x)),
                (s1, Err(Stop::Return(v))) => (s1, Ok(v)),
            }
        },
        _ => (s, Err(uncallable(s, Value::UserFunc(id), span))),
    }
}

/// The error for the call of what is no function.
pub open spec fn uncallable(s: State, callee: Value, span: Span) -> ErrorV {
    ErrorV { span, message: kind_name(s, callee) + " cannot be called"@ }
}

/// A call: the value of `func`, then the values of the arguments, then what
/// the function does with them. A struct type without a constructor makes
/// an instance without fields and takes no arguments.
#[verifier::opaque]
pub open spec fn eval_call(
    fuel: nat,
    s: State,
    func: Expr,
    args: Seq<Arg>,
    span: Span,
    env: Env,
    depth: nat,
) -> (State, Result<Value, ErrorV>)
    decreases fuel, 4int, 0int,
{
    match eval_expr(fuel, s, func, env, depth) {
        (s1, Err(x)) => (s1, Err(x)),
        (s1, Ok(callee)) => {
            let uncallable = (s1, Err(uncallable(s1, callee, span)));
            match callee {
                Value::NativeFunc(id) => match s1.object(id) {
                    Some(ObjectV::NativeFunc { func: f, .. }) => match eval_args(
                        fuel,
                        s1,
                        args,
                        0,
                        env,
                        depth,
                        Seq::empty(),
                    ) {
                        (s2, Ok(vals)) => at_span(call_native(s2, f, vals), span),
                        (s2, Err(x)) => (s2, Err(x)),
                    },
                    _ => uncallable,
                },
                Value::Struct(id) => match s1.object(id) {
                    Some(ObjectV::Struct { name, ctor: Some(f) }) => match eval_args(
                        fuel,
                        s1,
                        args,
                        0,
                        env,
                        depth,
                        Seq::empty(),
                    ) {
                        (s2, Ok(vals)) => at_span(call_native(s2, f, vals), span),
                        (s2, Err(x)) => (s2, Err(x)),
                    },
                    Some(ObjectV::Struct { name, ctor: None }) => if args.len() > 0 {
                        (s1, Err(ErrorV { span, message: args_message(name, 0, args.len()) }))
                    } else {
                        (
                            s1.store(ObjectV::Instance { ty: id, fields: Seq::empty() }).0,
                            Ok(Value::Instance(s1.heap.len() as usize)),
                        )
                    },
                    _ => uncallable,
                },
                Value::UserFunc(id) => match eval_args(fuel, s1, args, 0, env, depth, Seq::empty()) {
                    (s2, Ok(vals)) => call_user(fuel, s2, id, vals, span, depth),
                    (s2, Err(x)) => (s2, Err(x)),
                },
                _ => uncallable,
            }
        },
    }
}

/// The truth value of a condition.
#[verifier::opaque]
pub open spec fn eval_cond(fuel: nat, s: State, e: Expr, env: Env, depth: nat) -> (
    State,
    Result<bool, ErrorV>,
)
    decreases fuel, 1int, 0int,
{
    match eval_expr(fuel, s, e, env, depth) {
        (s1, Ok(Value::Bool(b))) => (s1, Ok(b)),
        (s1, Ok(other)) => (s1, Err(wrong_kind("condition evaluated to a "@, s1, other, span_of(e)))),
        (s1, Err(x)) => (s1, Err(x)),
    }
}

/// What an operator other than `&&` and `||` makes of two values.
pub open spec fn operate(s: State, op: TokenKind, l: Value, r: Value) -> (
    State,
    Result<Value, Seq<char>>,
) {
    let order = compare(s, l, r);
    match op {
        TokenKind::Plus => sum(s, l, r),
        TokenKind::Minus => (s, difference(s, l, r)),
        TokenKind::Star => (s, product(s, l, r)),
        TokenKind::Slash => (s, quotient(s, l, r)),
        TokenKind::Less => (s, Ok(Value::Bool(order == Some(Order::Less)))),
        TokenKind::LessEq => (
            s,
            Ok(Value::Bool(order == Some(Order::Less) || order == Some(Order::Equal))),
        ),
        TokenKind::Greater => (s, Ok(Value::Bool(order == Some(Order::Greater)))),
        TokenKind::GreaterEq => (
            s,
            Ok(Value::Bool(order == Some(Order::Greater) || order == Some(Order::Equal))),
        ),
        TokenKind::EqEq => (s, Ok(Value::Bool(order == Some(Order::Equal)))),
        TokenKind::NotEq => (s, Ok(Value::Bool(order != Some(Order::Equal)))),
        _ => (s, Err("invalid operator"@)),
    }
}

/// A binary operator. `&&` and `||` take truth values and leave their right
/// side alone where the left side decides; all others evaluate both sides.
#[verifier::opaque]
pub open spec fn eval_binop(
    fuel: nat,
    s: State,
    lhs: Expr,
    op: TokenKind,
    rhs: Expr,
    span: Span,
    env: Env,
    depth: nat,
) -> (State, Result<Value, ErrorV>)
    decreases fuel, 2int, 0int,
{
    if op == TokenKind::And || op == TokenKind::Or {
        match eval_cond(fuel, s, lhs, env, depth) {
            (s1, Ok(b)) => if b == (op == TokenKind::Or) {
                (s1, Ok(Value::Bool(b)))
            } else {
                match eval_cond(fuel, s1, rhs, env, depth) {
                    (s2, Ok(c)) => (s2, Ok(Value::Bool(c))),
                    (s2, Err(x)) => (s2, Err(x)),
                }
            },
            (s1, Err(x)) => (s1, Err(x)),
        }
    } else {
        match eval_expr(fuel, s, lhs, env, depth) {
            (s1, Ok(l)) => match eval_expr(fuel, s1, rhs, env, depth) {
                (s2, Ok(r)) => at_span(operate(s2, op, l, r), span),
                (s2, Err(x)) => (s2, Err(x)),
            },
            (s1, Err(x)) => (s1, Err(x)),
        }
    }
}

/// The condition of an `if`: whether it holds, and the environment for
/// the body. A type test holds where the struct type of the value is the
/// very struct that the type expression names, and then binds the name to
/// the value for the body alone.
#[verifier::opaque]
pub open spec fn eval_if_cond(fuel: nat, s: State, c: IfCond, env: Env, depth: nat) -> (
    State,
    Result<(bool, Env), ErrorV>,
)
    decreases fuel, 2int, 0int,
{
    match c {
        IfCond::Expr(e) => match eval_cond(fuel, s, e, env, depth) {
            (s1, Ok(b)) => (s1, Ok((b, env))),
            (s1, Err(x)) => (s1, Err(x)),
        },
        IfCond::TypeTest { name, ty, value, .. } => match eval_expr(fuel, s, ty, env, depth) {
            (s1, Ok(Value::Struct(expected))) => match eval_expr(fuel, s1, value, env, depth) {
                (s2, Ok(v)) => if value_type(s2, v) == expected {
                    (
                        s2.define(env.fenced(), name.text@, v).0,
                        Ok((true, s2.define(env.fenced(), name.text@, v).1)),
                    )
                } else {
                    (s2, Ok((false, env)))
                },
                (s2, Err(x)) => (s2, Err(x)),
            },
            (s1, Ok(other)) => (s1, Err(wrong_kind("type evaluated to "@, s1, other, span_of(ty)))),
            (s1, Err(x)) => (s1, Err(x)),
        },
    }
}

/// An `if` with all that follows it.
#[verifier::opaque]
pub open spec fn eval_if(
    fuel: nat,
    s: State,
    c: IfCond,
    body: Seq<Stmt>,
    rest: IfTail,
    env: Env,
    depth: nat,
) -> (State, Result<(), Stop>)
    decreases fuel, 3int, 0int,
{
    match eval_if_cond(fuel, s, c, env, depth) {
        (s1, Ok((true, inner))) => eval_block(fuel, s1, body, inner, depth),
        (s1, Ok((false, _))) => eval_if_tail(fuel, s1, rest, env, depth),
        (s1, Err(x)) => (s1, Err(Stop::Error(x))),
    }
}

/// What follows the body of an `if` whose condition did not hold.
#[verifier::opaque]
pub open spec fn eval_if_tail(fuel: nat, s: State, rest: IfTail, env: Env, depth: nat) -> (
    State,
    Result<(), Stop>,
)
    decreases fuel, 0int, 0int,
{
    match rest {
        IfTail::End => (s, Ok(())),
        IfTail::Else { else_tok, body } => if fuel == 0 {
            (s, Err(Stop::Error(exhausted(else_tok.span))))
        } else {
            eval_block((fuel - 1) as nat, s, body.contents.stmts@, env, depth)
        },
        IfTail::ElseIf { else_tok, cond, body, tail, .. } => if fuel == 0 {
            (s, Err(Stop::Error(exhausted(else_tok.span))))
        } else {
            eval_if((fuel - 1) as nat, s, cond, body.contents.stmts@, *tail, env, depth)
        },
    }
}

/// A block: its statements one after the other, behind a fence, so that
/// what they define is gone at its end.
#[verifier::opaque]
pub open spec fn eval_block(fuel: nat, s: State, stmts: Seq<Stmt>, env: Env, depth: nat) -> (
    State,
    Result<(), Stop>,
)
    decreases fuel, 2int, 0int,
{
    eval_stmts(fuel, s, stmts, 0, env.fenced(), depth)
}

/// The statements from `i` on, each in the environment that the one before
/// it left.
#[verifier::opaque]
pub open spec fn eval_stmts(fuel: nat, s: State, stmts: Seq<Stmt>, i: int, env: Env, depth: nat) -> (
    State,
    Result<(), Stop>,
)
    decreases fuel, 1int, stmts.len() - i,
{
    if i < 0 || i >= stmts.len() {
        (s, Ok(()))
    } else {
        match eval_statement(fuel, s, stmts[i], env, depth) {
            (s1, Ok(env1)) => eval_stmts(fuel, s1, stmts, i + 1, env1, depth),
            (s1, Err(stop)) => (s1, Err(stop)),
        }
    }
}

/// The result of a statement that leaves the environment as it is.
pub open spec fn keeping(r: (State, Result<(), Stop>), env: Env) -> (State, Result<Env, Stop>) {
    match r.1 {
        Ok(_) => (r.0, Ok(env)),
        Err(stop) => (r.0, Err(stop)),
    }
}

/// A statement: the state that it leaves, and the environment for the
/// statements behind it, or why they are not reached.
#[verifier::opaque]
pub open spec fn eval_statement(fuel: nat, s: State, stmt: Stmt, env: Env, depth: nat) -> (
    State,
    Result<Env, Stop>,
)
    decreases fuel, 0int, 0int,
{
    if fuel == 0 {
        (s, Err(Stop::Error(exhausted(anchor(stmt)))))
    } else {
        let f = (fuel - 1) as nat;
        match stmt {
            Stmt::If { cond, body, tail, .. } => keeping(
                eval_if(f, s, cond, body.contents.stmts@, tail, env, depth),
                env,
            ),
            Stmt::Expr { expr, .. } => match eval_expr(f, s, expr, env, depth) {
                (s1, Ok(_)) => (s1, Ok(env)),
                (s1, Err(x)) => (s1, Err(Stop::Error(x))),
            },
            Stmt::For { name, iterable, body, .. } => match eval_expr(f, s, iterable, env, depth) {
                (s1, Ok(Value::List(id))) if s1.items(id) is Some => keeping(
                    eval_for(f, s1, s1.items(id)->0, 0, name.text@, body.contents.stmts@, env, depth),
                    env,
                ),
                (s1, Ok(other)) => (
                    s1,
                    Err(Stop::Error(wrong_kind("cannot iterate over "@, s1, other, span_of(iterable)))),
                ),
                (s1, Err(x)) => (s1, Err(Stop::Error(x))),
            },
            Stmt::While { while_tok, cond, body } => keeping(
                eval_while(f, s, cond, body.contents.stmts@, while_tok.span, env, depth),
                env,
            ),
            Stmt::Return { ret, value, .. } => if depth == 0 {
                (
                    s,
                    Err(
                        Stop::Error(
                            ErrorV {
                                span: ret.span,
                                message: "cannot use return outside of a function"@,
                            },
                        ),
                    ),
                )
            } else {
                match eval_expr(f, s, value, env, depth) {
                    (s1, Ok(v)) => (s1, Err(Stop::Return(v))),
                    (s1, Err(x)) => (s1, Err(Stop::Error(x))),
                }
            },
            Stmt::Let { name, value, .. } => match eval_expr(f, s, value, env, depth) {
                (s1, Ok(v)) => (s1.define(env, name.text@, v).0, Ok(s1.define(env, name.text@, v).1)),
                (s1, Err(x)) => (s1, Err(Stop::Error(x))),
            },
            Stmt::Comment(_) => (s, Ok(env)),
            Stmt::FnDef(def) => {
                let made = s.store(ObjectV::UserFunc { name: def.name.text@, def, env });
                (
                    made.0.define(env, def.name.text@, Value::UserFunc(made.1)).0,
                    Ok(made.0.define(env, def.name.text@, Value::UserFunc(made.1)).1),
                )
            },
            Stmt::StructDef { name, fns, .. } => if fns@.len() > 0 {
                (
                    s,
                    Err(
                        Stop::Error(
                            ErrorV {
                                span: name.tok.span,
                                message: "struct member functions are not supported"@,
                            },
                        ),
                    ),
                )
            } else {
                let made = s.store(ObjectV::Struct { name: name.text@, ctor: None });
                (
                    made.0.define(env, name.text@, Value::Struct(made.1)).0,
                    Ok(made.0.define(env, name.text@, Value::Struct(made.1)).1),
                )
            },
            Stmt::Block(b) => keeping(eval_block(f, s, b.contents.stmts@, env, depth), env),
        }
    }
}

/// The rounds of a `for` for the values from `i` on: each round defines
/// the name anew and runs the body.
#[verifier::opaque]
pub open spec fn eval_for(
    fuel: nat,
    s: State,
    items: Seq<Value>,
    i: int,
    name: Seq<char>,
    body: Seq<Stmt>,
    env: Env,
    depth: nat,
) -> (State, Result<(), Stop>)
    decreases fuel, 3int, items.len() - i,
{
    if i < 0 || i >= items.len() {
        (s, Ok(()))
    } else {
        let round = s.define(env, name, items[i]);
        match eval_block(fuel, round.0, body, round.1, depth) {
            (s1, Ok(_)) => eval_for(fuel, s1, items, i + 1, name, body, env, depth),
            (s1, Err(stop)) => (s1, Err(stop)),
        }
    }
}

/// The rounds of a `while`: the condition, then the body, as long as the
/// condition holds.
#[verifier::opaque]
pub open spec fn eval_while(
    fuel: nat,
    s: State,
    cond: Expr,
    body: Seq<Stmt>,
    at: Span,
    env: Env,
    depth: nat,
) -> (State, Result<(), Stop>)
    decreases fuel, 0int, 0int,
{
    if fuel == 0 {
        (s, Err(Stop::Error(exhausted(at))))
    } else {
        let f = (fuel - 1) as nat;
        match eval_cond(f, s, cond, env, depth) {
            (s1, Ok(true)) => match eval_block(f, s1, body, env, depth) {
                (s2, Ok(_)) => eval_while(f, s2, cond, body, at, env, depth),
                (s2, Err(stop)) => (s2, Err(stop)),
            },
            (s1, Ok(false)) => (s1, Ok(())),
            (s1, Err(x)) => (s1, Err(Stop::Error(x))),
        }
    }
}

/// The error for a `return` that comes up to the top of a program.
pub open spec fn stray_return() -> ErrorV {
    ErrorV {
        span: Span { start: Pos { src_offset: 0 }, end: Pos { src_offset: 0 } },
        message: "cannot use return outside of a function"@,
    }
}

/// The statements of a program from `i` on, among the globals.
pub open spec fn run_from(fuel: nat, s: State, stmts: Seq<Stmt>, i: int, env: Env) -> (
    State,
    Result<(), ErrorV>,
)
    decreases stmts.len() - i,
{
    if i < 0 || i >= stmts.len() {
        (s, Ok(()))
    } else {
        match eval_statement(fuel, s, stmts[i], env, 0) {
            (s1, Ok(env1)) => run_from(fuel, s1, stmts, i + 1, env1),
            (s1, Err(Stop::Error(x))) => (s1, Err(x)),
            (s1, Err(Stop::Return(_))) => (s1, Err(stray_return())),
        }
    }
}

/// The state with the object `o` under the global name `name`.
pub open spec fn with_global(s: State, name: Seq<char>, o: ObjectV, v: Value) -> State {
    s.store(o).0.define(Env::Global, name, v).0
}

/// The state with the built-in struct type `name`.
pub open spec fn with_type(s: State, name: Seq<char>, ctor: Option<Native>) -> State {
    with_global(s, name, ObjectV::Struct { name, ctor }, Value::Struct(s.heap.len() as usize))
}

/// The state with the built-in function `name`.
pub open spec fn with_native(s: State, name: Seq<char>, func: Native) -> State {
    with_global(s, name, ObjectV::NativeFunc { name, func }, Value::NativeFunc(s.heap.len() as usize))
}

/// The state in which every program starts: the built-in struct types
/// `Nil`, `Int`, `Bool`, `Str`, `List`, `Struct` and `Fn`, the first
/// objects of the heap in this order, and the functions `print`, `println`
/// and `panic`, all under their names among the globals.
pub open spec fn initial_state() -> State {
    let s0 = State {
        heap: Seq::empty(),
        nodes: Seq::empty(),
        globals: Seq::empty(),
        output: Seq::empty(),
    };
    let s1 = with_type(s0, "Nil"@, None);
    let s2 = with_type(s1, "Int"@, None);
    let s3 = with_type(s2, "Bool"@, None);
    let s4 = with_type(s3, "Str"@, None);
    let s5 = with_type(s4, "List"@, Some(Native::ListCtor));
    let s6 = with_type(s5, "Struct"@, None);
    let s7 = with_type(s6, "Fn"@, None);
    let s8 = with_native(s7, "print"@, Native::Print);
    let s9 = with_native(s8, "println"@, Native::Println);
    with_native(s9, "panic"@, Native::Panic)
}

} // verus!
