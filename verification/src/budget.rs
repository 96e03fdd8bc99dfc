//! The budget and the result: a run that does not fail is the same run on
//! every larger budget.

use crate::ast::{Arg, Expr, IfCond, IfTail, Stmt};
use crate::lexer::TokenKind;
use crate::pos::Span;
use crate::semantics::{
    bind_params, call_user, eval_args, eval_binop, eval_block, eval_call, eval_cond, eval_expr,
    eval_for, eval_if, eval_if_cond, eval_if_tail, eval_statement, eval_stmts, eval_while,
    run_from, Stop,
};
use crate::value::{Env, ObjectV, State, Value};
use vstd::prelude::*;

verus! {

/// The statements did not fail: they came to their end, or to a `return`.
pub open spec fn unfailed<T>(r: Result<T, Stop>) -> bool {
    !(r matches Err(Stop::Error(_)))
}

proof fn lemma_expr(f: nat, g: nat, s: State, e: Expr, env: Env, depth: nat)
    requires
        f <= g,
    ensures
        eval_expr(f, s, e, env, depth).1 is Ok ==> eval_expr(g, s, e, env, depth) == eval_expr(
            f,
            s,
            e,
            env,
            depth,
        ),
    decreases f, 0int, 0int,
{
    reveal(eval_expr);
    reveal(eval_call);
    reveal(eval_binop);
    if f > 0 {
        let f1 = (f - 1) as nat;
        let g1 = (g - 1) as nat;
        match e {
            Expr::Call { func, args, .. } => {
                lemma_call(f1, g1, s, *func, args@, crate::parser::span_of(e), env, depth);
            },
            Expr::Paren { inner, .. } => {
                lemma_expr(f1, g1, s, *inner, env, depth);
            },
            Expr::BinOp { lhs, operator, rhs } => {
                lemma_binop(
                    f1,
                    g1,
                    s,
                    *lhs,
                    operator.kind,
                    *rhs,
                    crate::parser::span_of(e),
                    env,
                    depth,
                );
            },
            Expr::Field { obj, .. } => {
                lemma_expr(f1, g1, s, *obj, env, depth);
            },
            Expr::AssignVar { value, .. } => {
                lemma_expr(f1, g1, s, *value, env, depth);
            },
            Expr::AssignField { obj, value, .. } => {
                lemma_expr(f1, g1, s, *obj, env, depth);
                lemma_expr(f1, g1, eval_expr(f1, s, *obj, env, depth).0, *value, env, depth);
            },
            _ => {},
        }
    }
}

proof fn lemma_args(
    f: nat,
    g: nat,
    s: State,
    args: Seq<Arg>,
    i: int,
    env: Env,
    depth: nat,
    acc: Seq<Value>,
)
    requires
        f <= g,
    ensures
        eval_args(f, s, args, i, env, depth, acc).1 is Ok ==> eval_args(
            g,
            s,
            args,
            i,
            env,
            depth,
            acc,
        ) == eval_args(f, s, args, i, env, depth, acc),
    decreases f, 1int, args.len() - i,
{
    reveal(eval_args);
    reveal(eval_expr);
    if 0 <= i < args.len() {
        lemma_expr(f, g, s, args[i].item, env, depth);
        let r = eval_expr(f, s, args[i].item, env, depth);
        match r.1 {
            Ok(v) => {
                lemma_args(f, g, r.0, args, i + 1, env, depth, acc.push(v));
            },
            Err(_) => {},
        }
    }
}

proof fn lemma_call_user(
    f: nat,
    g: nat,
    s: State,
    id: usize,
    args: Seq<Value>,
    span: Span,
    depth: nat,
)
    requires
        f <= g,
    ensures
        call_user(f, s, id, args, span, depth).1 is Ok ==> call_user(g, s, id, args, span, depth)
            == call_user(f, s, id, args, span, depth),
    decreases f, 3int, 0int,
{
    reveal(call_user);
    reveal(eval_block);
    match s.object(id) {
        Some(ObjectV::UserFunc { def, env: captured, .. }) => {
            if args.len() == def.params@.len() {
                let bound = bind_params(s, def.params@, args, 0, captured.fenced());
                lemma_block(f, g, bound.0, def.body.contents.stmts@, bound.1, depth + 1);
            }
        },
        _ => {},
    }
}

proof fn lemma_call(
    f: nat,
    g: nat,
    s: State,
    func: Expr,
    args: Seq<Arg>,
    span: Span,
    env: Env,
    depth: nat,
)
    requires
        f <= g,
    ensures
        eval_call(f, s, func, args, span, env, depth).1 is Ok ==> eval_call(
            g,
            s,
            func,
            args,
            span,
            env,
            depth,
        ) == eval_call(f, s, func, args, span, env, depth),
    decreases f, 4int, 0int,
{
    reveal(eval_call);
    reveal(eval_expr);
    reveal(eval_args);
    reveal(call_user);
    lemma_expr(f, g, s, func, env, depth);
    let r = eval_expr(f, s, func, env, depth);
    lemma_args(f, g, r.0, args, 0, env, depth, Seq::empty());
    let a = eval_args(f, r.0, args, 0, env, depth, Seq::empty());
    match (r.1, a.1) {
        (Ok(Value::UserFunc(id)), Ok(vals)) => {
            lemma_call_user(f, g, a.0, id, vals, span, depth);
        },
        _ => {},
    }
}

proof fn lemma_cond(f: nat, g: nat, s: State, e: Expr, env: Env, depth: nat)
    requires
        f <= g,
    ensures
        eval_cond(f, s, e, env, depth).1 is Ok ==> eval_cond(g, s, e, env, depth) == eval_cond(
            f,
            s,
            e,
            env,
            depth,
        ),
    decreases f, 1int, 0int,
{
    reveal(eval_cond);
    reveal(eval_expr);
    lemma_expr(f, g, s, e, env, depth);
}

proof fn lemma_binop(
    f: nat,
    g: nat,
    s: State,
    lhs: Expr,
    op: TokenKind,
    rhs: Expr,
    span: Span,
    env: Env,
    depth: nat,
)
    requires
        f <= g,
    ensures
        eval_binop(f, s, lhs, op, rhs, span, env, depth).1 is Ok ==> eval_binop(
            g,
            s,
            lhs,
            op,
            rhs,
            span,
            env,
            depth,
        ) == eval_binop(f, s, lhs, op, rhs, span, env, depth),
    decreases f, 2int, 0int,
{
    reveal(eval_binop);
    reveal(eval_cond);
    reveal(eval_expr);
    lemma_cond(f, g, s, lhs, env, depth);
    lemma_cond(f, g, eval_cond(f, s, lhs, env, depth).0, rhs, env, depth);
    lemma_expr(f, g, s, lhs, env, depth);
    lemma_expr(f, g, eval_expr(f, s, lhs, env, depth).0, rhs, env, depth);
}

proof fn lemma_if_cond(f: nat, g: nat, s: State, c: IfCond, env: Env, depth: nat)
    requires
        f <= g,
    ensures
        eval_if_cond(f, s, c, env, depth).1 is Ok ==> eval_if_cond(g, s, c, env, depth)
            == eval_if_cond(f, s, c, env, depth),
    decreases f, 2int, 0int,
{
    reveal(eval_if_cond);
    reveal(eval_cond);
    reveal(eval_expr);
    match c {
        IfCond::Expr(e) => {
            lemma_cond(f, g, s, e, env, depth);
        },
        IfCond::TypeTest { ty, value, .. } => {
            lemma_expr(f, g, s, ty, env, depth);
            lemma_expr(f, g, eval_expr(f, s, ty, env, depth).0, value, env, depth);
        },
    }
}

proof fn lemma_if(
    f: nat,
    g: nat,
    s: State,
    c: IfCond,
    body: Seq<Stmt>,
    rest: IfTail,
    env: Env,
    depth: nat,
)
    requires
        f <= g,
    ensures
        unfailed(eval_if(f, s, c, body, rest, env, depth).1) ==> eval_if(
            g,
            s,
            c,
            body,
            rest,
            env,
            depth,
        ) == eval_if(f, s, c, body, rest, env, depth),
    decreases f, 3int, 0int,
{
    reveal(eval_if);
    reveal(eval_if_cond);
    reveal(eval_block);
    reveal(eval_if_tail);
    lemma_if_cond(f, g, s, c, env, depth);
    let r = eval_if_cond(f, s, c, env, depth);
    match r.1 {
        Ok((true, inner)) => {
            lemma_block(f, g, r.0, body, inner, depth);
        },
        Ok((false, _)) => {
            lemma_if_tail(f, g, r.0, rest, env, depth);
        },
        Err(_) => {},
    }
}

proof fn lemma_if_tail(f: nat, g: nat, s: State, rest: IfTail, env: Env, depth: nat)
    requires
        f <= g,
    ensures
        unfailed(eval_if_tail(f, s, rest, env, depth).1) ==> eval_if_tail(g, s, rest, env, depth)
            == eval_if_tail(f, s, rest, env, depth),
    decreases f, 0int, 0int,
{
    reveal(eval_if_tail);
    reveal(eval_block);
    reveal(eval_if);
    if f > 0 {
        let f1 = (f - 1) as nat;
        let g1 = (g - 1) as nat;
        match rest {
            IfTail::End => {},
            IfTail::Else { body, .. } => {
                lemma_block(f1, g1, s, body.contents.stmts@, env, depth);
            },
            IfTail::ElseIf { cond, body, tail, .. } => {
                lemma_if(f1, g1, s, cond, body.contents.stmts@, *tail, env, depth);
            },
        }
    }
}

proof fn lemma_block(f: nat, g: nat, s: State, stmts: Seq<Stmt>, env: Env, depth: nat)
    requires
        f <= g,
    ensures
        unfailed(eval_block(f, s, stmts, env, depth).1) ==> eval_block(g, s, stmts, env, depth)
            == eval_block(f, s, stmts, env, depth),
    decreases f, 2int, 0int,
{
    reveal(eval_block);
    reveal(eval_stmts);
    lemma_stmts(f, g, s, stmts, 0, env.fenced(), depth);
}

proof fn lemma_stmts(f: nat, g: nat, s: State, stmts: Seq<Stmt>, i: int, env: Env, depth: nat)
    requires
        f <= g,
    ensures
        unfailed(eval_stmts(f, s, stmts, i, env, depth).1) ==> eval_stmts(
            g,
            s,
            stmts,
            i,
            env,
            depth,
        ) == eval_stmts(f, s, stmts, i, env, depth),
    decreases f, 1int, stmts.len() - i,
{
    reveal(eval_stmts);
    reveal(eval_statement);
    if 0 <= i < stmts.len() {
        lemma_statement(f, g, s, stmts[i], env, depth);
        let r = eval_statement(f, s, stmts[i], env, depth);
        match r.1 {
            Ok(env1) => {
                lemma_stmts(f, g, r.0, stmts, i + 1, env1, depth);
            },
            Err(_) => {},
        }
    }
}

proof fn lemma_statement(f: nat, g: nat, s: State, stmt: Stmt, env: Env, depth: nat)
    requires
        f <= g,
    ensures
        unfailed(eval_statement(f, s, stmt, env, depth).1) ==> eval_statement(
            g,
            s,
            stmt,
            env,
            depth,
        ) == eval_statement(f, s, stmt, env, depth),
    decreases f, 0int, 0int,
{
    reveal(eval_statement);
    reveal(eval_if);
    reveal(eval_expr);
    reveal(eval_for);
    reveal(eval_while);
    reveal(eval_block);
    if f > 0 {
        let f1 = (f - 1) as nat;
        let g1 = (g - 1) as nat;
        match stmt {
            Stmt::If { cond, body, tail, .. } => {
                lemma_if(f1, g1, s, cond, body.contents.stmts@, tail, env, depth);
            },
            Stmt::Expr { expr, .. } => {
                lemma_expr(f1, g1, s, expr, env, depth);
            },
            Stmt::For { name, iterable, body, .. } => {
                lemma_expr(f1, g1, s, iterable, env, depth);
                let r = eval_expr(f1, s, iterable, env, depth);
                match r.1 {
                    Ok(Value::List(id)) => {
                        if r.0.items(id) is Some {
                            lemma_for(
                                f1,
                                g1,
                                r.0,
                                r.0.items(id)->0,
                                0,
                                name.text@,
                                body.contents.stmts@,
                                env,
                                depth,
                            );
                        }
                    },
                    _ => {},
                }
            },
            Stmt::While { while_tok, cond, body } => {
                lemma_while(f1, g1, s, cond, body.contents.stmts@, while_tok.span, env, depth);
            },
            Stmt::Return { value, .. } => {
                lemma_expr(f1, g1, s, value, env, depth);
            },
            Stmt::Let { value, .. } => {
                lemma_expr(f1, g1, s, value, env, depth);
            },
            Stmt::Block(b) => {
                lemma_block(f1, g1, s, b.contents.stmts@, env, depth);
            },
            _ => {},
        }
    }
}

proof fn lemma_for(
    f: nat,
    g: nat,
    s: State,
    items: Seq<Value>,
    i: int,
    name: Seq<char>,
    body: Seq<Stmt>,
    env: Env,
    depth: nat,
)
    requires
        f <= g,
    ensures
        unfailed(eval_for(f, s, items, i, name, body, env, depth).1) ==> eval_for(
            g,
            s,
            items,
            i,
            name,
            body,
            env,
            depth,
        ) == eval_for(f, s, items, i, name, body, env, depth),
    decreases f, 3int, items.len() - i,
{
    reveal(eval_for);
    reveal(eval_block);
    if 0 <= i < items.len() {
        let round = s.define(env, name, items[i]);
        lemma_block(f, g, round.0, body, round.1, depth);
        let r = eval_block(f, round.0, body, round.1, depth);
        match r.1 {
            Ok(_) => {
                lemma_for(f, g, r.0, items, i + 1, name, body, env, depth);
            },
            Err(_) => {},
        }
    }
}

proof fn lemma_while(
    f: nat,
    g: nat,
    s: State,
    cond: Expr,
    body: Seq<Stmt>,
    at: Span,
    env: Env,
    depth: nat,
)
    requires
        f <= g,
    ensures
        unfailed(eval_while(f, s, cond, body, at, env, depth).1) ==> eval_while(
            g,
            s,
            cond,
            body,
            at,
            env,
            depth,
        ) == eval_while(f, s, cond, body, at, env, depth),
    decreases f, 0int, 0int,
{
    reveal(eval_while);
    reveal(eval_cond);
    reveal(eval_block);
    if f > 0 {
        let f1 = (f - 1) as nat;
        let g1 = (g - 1) as nat;
        lemma_cond(f1, g1, s, cond, env, depth);
        let c = eval_cond(f1, s, cond, env, depth);
        lemma_block(f1, g1, c.0, body, env, depth);
        let b = eval_block(f1, c.0, body, env, depth);
        lemma_while(f1, g1, b.0, cond, body, at, env, depth);
    }
}

/// A run that comes to its end without an error is the same run on every
/// larger budget: the same output, the same state. So the budget decides
/// one thing only, whether a run is given up.
pub proof fn more_fuel_same_run(f: nat, g: nat, s: State, stmts: Seq<Stmt>, i: int, env: Env)
    requires
        f <= g,
        run_from(f, s, stmts, i, env).1 is Ok,
    ensures
        run_from(g, s, stmts, i, env) == run_from(f, s, stmts, i, env),
    decreases stmts.len() - i,
{
    if 0 <= i < stmts.len() {
        lemma_statement(f, g, s, stmts[i], env, 0);
        let r = eval_statement(f, s, stmts[i], env, 0);
        match r.1 {
            Ok(env1) => {
                more_fuel_same_run(f, g, r.0, stmts, i + 1, env1);
            },
            Err(_) => {},
        }
    }
}

/// An expression that has a value has that value on every larger budget.
pub proof fn more_fuel_same_value(f: nat, g: nat, s: State, e: Expr, env: Env, depth: nat)
    requires
        f <= g,
        eval_expr(f, s, e, env, depth).1 is Ok,
    ensures
        eval_expr(g, s, e, env, depth) == eval_expr(f, s, e, env, depth),
{
    lemma_expr(f, g, s, e, env, depth);
}

} // verus!
