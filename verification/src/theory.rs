//! What follows from the semantics: how scopes, closures and the operators
//! `&&` and `||` behave in every program.

use crate::ast::{Arg, Expr, Param, Stmt};
use crate::intrinsics::{
    call_native, printed,
};
use crate::lexer::TokenKind;
use crate::pos::Span;
use crate::semantics::{
    bind_params, call_user, eval_args, eval_binop, eval_block, eval_call, eval_cond, eval_expr,
    eval_for, eval_if, eval_if_cond, eval_if_tail, eval_statement, eval_stmts, eval_while,
};
use crate::value::{bound, find, BindingV, Env, Native, ObjectV, State, Value};
use vstd::prelude::*;

verus! {

/// `false && ..` is `false`, and what stands on the right is not
/// evaluated: the state is the one that the left side left.
pub proof fn and_stops_at_false(
    fuel: nat,
    s: State,
    lhs: Expr,
    rhs: Expr,
    span: Span,
    env: Env,
    depth: nat,
)
    requires
        eval_cond(fuel, s, lhs, env, depth).1 == Ok::<bool, crate::error::ErrorV>(false),
    ensures
        eval_binop(fuel, s, lhs, TokenKind::And, rhs, span, env, depth) == (
            eval_cond(fuel, s, lhs, env, depth).0,
            Ok::<Value, crate::error::ErrorV>(Value::Bool(false)),
        ),
{
    reveal(eval_binop);
    reveal(eval_cond);
}

/// `true || ..` is `true`, and what stands on the right is not evaluated:
/// the state is the one that the left side left.
pub proof fn or_stops_at_true(
    fuel: nat,
    s: State,
    lhs: Expr,
    rhs: Expr,
    span: Span,
    env: Env,
    depth: nat,
)
    requires
        eval_cond(fuel, s, lhs, env, depth).1 == Ok::<bool, crate::error::ErrorV>(true),
    ensures
        eval_binop(fuel, s, lhs, TokenKind::Or, rhs, span, env, depth) == (
            eval_cond(fuel, s, lhs, env, depth).0,
            Ok::<Value, crate::error::ErrorV>(Value::Bool(true)),
        ),
{
    reveal(eval_binop);
    reveal(eval_cond);
}

/// A call does not depend on the environment of the call beyond the values
/// of the function and of the arguments: where two environments give the
/// same for these, the call gives the same in both. The body of the
/// function never sees the environment that it is called from.
pub proof fn call_ignores_call_site(
    fuel: nat,
    s: State,
    func: Expr,
    args: Seq<Arg>,
    span: Span,
    here: Env,
    there: Env,
    depth: nat,
)
    requires
        eval_expr(fuel, s, func, here, depth) == eval_expr(fuel, s, func, there, depth),
        eval_args(fuel, eval_expr(fuel, s, func, here, depth).0, args, 0, here, depth, Seq::empty())
            == eval_args(
            fuel,
            eval_expr(fuel, s, func, here, depth).0,
            args,
            0,
            there,
            depth,
            Seq::empty(),
        ),
    ensures
        eval_call(fuel, s, func, args, span, here, depth) == eval_call(
            fuel,
            s,
            func,
            args,
            span,
            there,
            depth,
        ),
{
    reveal(eval_call);
    reveal(eval_expr);
    reveal(eval_args);
    reveal(call_user);
}

/// The environment is one that the state knows: a binding of its arena, or
/// the globals.
pub open spec fn env_ok(s: State, env: Env) -> bool {
    match env {
        Env::Chain(i) => i < s.nodes.len(),
        _ => true,
    }
}

/// `t` has all the bindings of `s` under their names and in their places,
/// and the same globals by name: the values may differ, and `t` may have
/// more bindings on its arena.
pub open spec fn extends(s: State, t: State) -> bool {
    &&& s.nodes.len() <= t.nodes.len()
    &&& forall|i: int|
        0 <= i < s.nodes.len() ==> (#[trigger] t.nodes[i]).name == s.nodes[i].name && t.nodes[i].next
            == s.nodes[i].next
    &&& s.globals.len() == t.globals.len()
    &&& forall|i: int| 0 <= i < s.globals.len() ==> (#[trigger] t.globals[i]).name == s.globals[i].name
}

proof fn lemma_find_names(a: Seq<BindingV>, b: Seq<BindingV>, name: Seq<char>, i: int)
    requires
        a.len() == b.len(),
        forall|k: int| 0 <= k < a.len() ==> (#[trigger] b[k]).name == a[k].name,
    ensures
        find(a, name, i) == find(b, name, i),
    decreases a.len() - i,
{
    if 0 <= i < a.len() && a[i].name != name {
        lemma_find_names(a, b, name, i + 1);
    }
}

/// What is visible in an environment stays visible, and nothing else
/// becomes visible, as long as the state only extends.
pub proof fn lemma_visible(s: State, t: State, env: Env, name: Seq<char>)
    requires
        extends(s, t),
        env_ok(s, env),
    ensures
        (t.lookup(env, name) is Some) == (s.lookup(env, name) is Some),
    decreases env.rank(),
{
    match env {
        Env::Chain(i) => {
            if s.nodes[i as int].name != name && s.nodes[i as int].next.rank() < env.rank() {
                lemma_visible(s, t, s.nodes[i as int].next, name);
            }
        },
        Env::GlobalFence => {
            lemma_visible(s, t, Env::Global, name);
        },
        Env::Global => {
            lemma_find_names(s.globals, t.globals, name, 0);
        },
    }
}

/// After an assignment the name has the value that was assigned, for all
/// who look it up in that environment.
pub proof fn lemma_assigned(s: State, env: Env, name: Seq<char>, value: Value)
    requires
        s.assign(env, name, value) is Some,
    ensures
        s.assign(env, name, value)->0.lookup(env, name) == Some(value),
        extends(s, s.assign(env, name, value)->0),
    decreases env.rank(),
{
    let t = s.assign(env, name, value)->0;
    match env {
        Env::Chain(i) => {
            if s.nodes[i as int].name != name {
                lemma_assigned(s, s.nodes[i as int].next, name, value);
                lemma_assign_frame(s, s.nodes[i as int].next, name, value, i as int);
            }
        },
        Env::GlobalFence => {
            lemma_assigned(s, Env::Global, name, value);
        },
        Env::Global => {
            crate::value::lemma_find(s.globals, name, 0);
            let k = find(s.globals, name, 0)->0;
            lemma_find_update(s.globals, name, value, k, 0);
        },
    }
}

proof fn lemma_find_update(bs: Seq<BindingV>, name: Seq<char>, value: Value, k: int, i: int)
    requires
        0 <= i <= k < bs.len(),
        find(bs, name, i) == Some(k),
    ensures
        find(bs.update(k, BindingV { name, value }), name, i) == Some(k),
    decreases k - i,
{
    if i < k {
        lemma_find_update(bs, name, value, k, i + 1);
    }
}

/// An assignment that goes through the environment behind the binding `i`
/// leaves that binding as it was.
proof fn lemma_assign_frame(s: State, env: Env, name: Seq<char>, value: Value, i: int)
    requires
        s.assign(env, name, value) is Some,
        env.rank() < i + 2,
        0 <= i < s.nodes.len(),
    ensures
        s.assign(env, name, value)->0.nodes.len() == s.nodes.len(),
        s.assign(env, name, value)->0.nodes[i] == s.nodes[i],
    decreases env.rank(),
{
    match env {
        Env::Chain(j) => {
            if s.nodes[j as int].name != name {
                lemma_assign_frame(s, s.nodes[j as int].next, name, value, i);
            }
        },
        Env::GlobalFence => {
            lemma_assign_frame(s, Env::Global, name, value, i);
        },
        Env::Global => {},
    }
}

/// Printing leaves the scopes alone.
proof fn lemma_printed(s: State, args: Seq<Value>, i: int)
    ensures
        printed(s, args, i).nodes == s.nodes,
        printed(s, args, i).globals == s.globals,
    decreases args.len() - i,
{
    if 0 <= i < args.len() {
        lemma_printed(
            s.write(vstd::utf8::encode_utf8(crate::intrinsics::stringify(s, args[i]))),
            args,
            i + 1,
        );
    }
}

/// Native functions leave the scopes alone.
proof fn lemma_native(s: State, f: Native, args: Seq<Value>)
    ensures
        extends(s, call_native(s, f, args).0),
{
    lemma_printed(s, args, 0);
}

proof fn lemma_bind_params(s: State, params: Seq<Param>, args: Seq<Value>, i: int, env: Env)
    requires
        env != Env::Global,
    ensures
        extends(s, bind_params(s, params, args, i, env).0),
    decreases params.len() - i,
{
    if 0 <= i < params.len() && i < args.len() {
        let (s1, env1) = s.define(env, params[i].item.text@, args[i]);
        lemma_bind_params(s1, params, args, i + 1, env1);
    }
}

proof fn lemma_expr(fuel: nat, s: State, e: Expr, env: Env, depth: nat)
    ensures
        extends(s, eval_expr(fuel, s, e, env, depth).0),
    decreases fuel, 0int, 0int,
{
    reveal(eval_expr);
    reveal(eval_call);
    reveal(eval_binop);
    if fuel > 0 {
        let f = (fuel - 1) as nat;
        match e {
            Expr::Call { func, args, .. } => {
                lemma_call(f, s, *func, args@, crate::parser::span_of(e), env, depth);
            },
            Expr::Paren { inner, .. } => {
                lemma_expr(f, s, *inner, env, depth);
            },
            Expr::BinOp { lhs, operator, rhs } => {
                lemma_binop(f, s, *lhs, operator.kind, *rhs, crate::parser::span_of(e), env, depth);
            },
            Expr::Field { obj, field, .. } => {
                lemma_expr(f, s, *obj, env, depth);
            },
            Expr::AssignVar { name, value, .. } => {
                lemma_expr(f, s, *value, env, depth);
                let r = eval_expr(f, s, *value, env, depth);
                match r.1 {
                    Ok(v) => {
                        if r.0.assign(env, name.text@, v) is Some {
                            lemma_assigned(r.0, env, name.text@, v);
                        }
                    },
                    Err(_) => {},
                }
            },
            Expr::AssignField { obj, field, value, .. } => {
                lemma_expr(f, s, *obj, env, depth);
                let r = eval_expr(f, s, *obj, env, depth);
                lemma_expr(f, r.0, *value, env, depth);
            },
            _ => {},
        }
    }
}

proof fn lemma_args(
    fuel: nat,
    s: State,
    args: Seq<Arg>,
    i: int,
    env: Env,
    depth: nat,
    acc: Seq<Value>,
)
    ensures
        extends(s, eval_args(fuel, s, args, i, env, depth, acc).0),
    decreases fuel, 1int, args.len() - i,
{
    reveal(eval_args);
    reveal(eval_expr);
    if 0 <= i < args.len() {
        lemma_expr(fuel, s, args[i].item, env, depth);
        let r = eval_expr(fuel, s, args[i].item, env, depth);
        match r.1 {
            Ok(v) => {
                lemma_args(fuel, r.0, args, i + 1, env, depth, acc.push(v));
            },
            Err(_) => {},
        }
    }
}

proof fn lemma_call_user(fuel: nat, s: State, id: usize, args: Seq<Value>, span: Span, depth: nat)
    ensures
        extends(s, call_user(fuel, s, id, args, span, depth).0),
    decreases fuel, 3int, 0int,
{
    reveal(call_user);
    reveal(eval_block);
    match s.object(id) {
        Some(ObjectV::UserFunc { def, env: captured, .. }) => {
            if args.len() == def.params@.len() {
                lemma_bind_params(s, def.params@, args, 0, captured.fenced());
                let bound = bind_params(s, def.params@, args, 0, captured.fenced());
                lemma_block(fuel, bound.0, def.body.contents.stmts@, bound.1, depth + 1);
            }
        },
        _ => {},
    }
}

proof fn lemma_call(
    fuel: nat,
    s: State,
    func: Expr,
    args: Seq<Arg>,
    span: Span,
    env: Env,
    depth: nat,
)
    ensures
        extends(s, eval_call(fuel, s, func, args, span, env, depth).0),
    decreases fuel, 4int, 0int,
{
    reveal(eval_call);
    reveal(eval_expr);
    reveal(eval_args);
    reveal(call_user);
    lemma_expr(fuel, s, func, env, depth);
    let r = eval_expr(fuel, s, func, env, depth);
    lemma_args(fuel, r.0, args, 0, env, depth, Seq::empty());
    let a = eval_args(fuel, r.0, args, 0, env, depth, Seq::empty());
    match (r.1, a.1) {
        (Ok(callee), Ok(vals)) => {
            match callee {
                Value::NativeFunc(id) => match r.0.object(id) {
                    Some(ObjectV::NativeFunc { func: f, .. }) => {
                        lemma_native(a.0, f, vals);
                    },
                    _ => {},
                },
                Value::Struct(id) => match r.0.object(id) {
                    Some(ObjectV::Struct { ctor: Some(f), .. }) => {
                        lemma_native(a.0, f, vals);
                    },
                    _ => {},
                },
                Value::UserFunc(id) => {
                    lemma_call_user(fuel, a.0, id, vals, span, depth);
                },
                _ => {},
            }
        },
        _ => {},
    }
}

proof fn lemma_cond(fuel: nat, s: State, e: Expr, env: Env, depth: nat)
    ensures
        extends(s, eval_cond(fuel, s, e, env, depth).0),
    decreases fuel, 1int, 0int,
{
    reveal(eval_cond);
    reveal(eval_expr);
    lemma_expr(fuel, s, e, env, depth);
}

proof fn lemma_binop(
    fuel: nat,
    s: State,
    lhs: Expr,
    op: TokenKind,
    rhs: Expr,
    span: Span,
    env: Env,
    depth: nat,
)
    ensures
        extends(s, eval_binop(fuel, s, lhs, op, rhs, span, env, depth).0),
    decreases fuel, 2int, 0int,
{
    reveal(eval_binop);
    reveal(eval_cond);
    reveal(eval_expr);
    lemma_cond(fuel, s, lhs, env, depth);
    lemma_cond(fuel, eval_cond(fuel, s, lhs, env, depth).0, rhs, env, depth);
    lemma_expr(fuel, s, lhs, env, depth);
    lemma_expr(fuel, eval_expr(fuel, s, lhs, env, depth).0, rhs, env, depth);
}

proof fn lemma_if_cond(fuel: nat, s: State, c: crate::ast::IfCond, env: Env, depth: nat)
    ensures
        extends(s, eval_if_cond(fuel, s, c, env, depth).0),
    decreases fuel, 2int, 0int,
{
    reveal(eval_if_cond);
    reveal(eval_cond);
    reveal(eval_expr);
    match c {
        crate::ast::IfCond::Expr(e) => {
            lemma_cond(fuel, s, e, env, depth);
        },
        crate::ast::IfCond::TypeTest { name, ty, value, .. } => {
            lemma_expr(fuel, s, ty, env, depth);
            let r = eval_expr(fuel, s, ty, env, depth);
            lemma_expr(fuel, r.0, value, env, depth);
        },
    }
}

proof fn lemma_if(
    fuel: nat,
    s: State,
    c: crate::ast::IfCond,
    body: Seq<Stmt>,
    rest: crate::ast::IfTail,
    env: Env,
    depth: nat,
)
    ensures
        extends(s, eval_if(fuel, s, c, body, rest, env, depth).0),
    decreases fuel, 3int, 0int,
{
    reveal(eval_if);
    reveal(eval_if_cond);
    reveal(eval_block);
    reveal(eval_if_tail);
    lemma_if_cond(fuel, s, c, env, depth);
    let r = eval_if_cond(fuel, s, c, env, depth);
    match r.1 {
        Ok((true, inner)) => {
            lemma_block(fuel, r.0, body, inner, depth);
        },
        Ok((false, _)) => {
            lemma_if_tail(fuel, r.0, rest, env, depth);
        },
        Err(_) => {},
    }
}

proof fn lemma_if_tail(fuel: nat, s: State, rest: crate::ast::IfTail, env: Env, depth: nat)
    ensures
        extends(s, eval_if_tail(fuel, s, rest, env, depth).0),
    decreases fuel, 0int, 0int,
{
    reveal(eval_if_tail);
    reveal(eval_block);
    reveal(eval_if);
    if fuel > 0 {
        match rest {
            crate::ast::IfTail::End => {},
            crate::ast::IfTail::Else { body, .. } => {
                lemma_block((fuel - 1) as nat, s, body.contents.stmts@, env, depth);
            },
            crate::ast::IfTail::ElseIf { cond, body, tail, .. } => {
                lemma_if((fuel - 1) as nat, s, cond, body.contents.stmts@, *tail, env, depth);
            },
        }
    }
}

proof fn lemma_block(fuel: nat, s: State, stmts: Seq<Stmt>, env: Env, depth: nat)
    ensures
        extends(s, eval_block(fuel, s, stmts, env, depth).0),
    decreases fuel, 2int, 0int,
{
    reveal(eval_block);
    reveal(eval_stmts);
    lemma_stmts(fuel, s, stmts, 0, env.fenced(), depth);
}

proof fn lemma_stmts(fuel: nat, s: State, stmts: Seq<Stmt>, i: int, env: Env, depth: nat)
    requires
        env != Env::Global,
    ensures
        extends(s, eval_stmts(fuel, s, stmts, i, env, depth).0),
    decreases fuel, 1int, stmts.len() - i,
{
    reveal(eval_stmts);
    reveal(eval_statement);
    if 0 <= i < stmts.len() {
        lemma_statement(fuel, s, stmts[i], env, depth);
        let r = eval_statement(fuel, s, stmts[i], env, depth);
        match r.1 {
            Ok(env1) => {
                lemma_stmts(fuel, r.0, stmts, i + 1, env1, depth);
            },
            Err(_) => {},
        }
    }
}

proof fn lemma_statement(fuel: nat, s: State, stmt: Stmt, env: Env, depth: nat)
    requires
        env != Env::Global,
    ensures
        extends(s, eval_statement(fuel, s, stmt, env, depth).0),
        eval_statement(fuel, s, stmt, env, depth).1 matches Ok(after) ==> after != Env::Global,
    decreases fuel, 0int, 0int,
{
    reveal(eval_statement);
    reveal(eval_if);
    reveal(eval_expr);
    reveal(eval_for);
    reveal(eval_while);
    reveal(eval_block);
    if fuel > 0 {
        let f = (fuel - 1) as nat;
        match stmt {
            Stmt::If { cond, body, tail, .. } => {
                lemma_if(f, s, cond, body.contents.stmts@, tail, env, depth);
            },
            Stmt::Expr { expr, .. } => {
                lemma_expr(f, s, expr, env, depth);
            },
            Stmt::For { name, iterable, body, .. } => {
                lemma_expr(f, s, iterable, env, depth);
                let r = eval_expr(f, s, iterable, env, depth);
                match r.1 {
                    Ok(Value::List(id)) => {
                        if r.0.items(id) is Some {
                            lemma_for(
                                f,
                                r.0,
                                r.0.items(id)->0,
                                0,
                                name.text@,
                                body.contents.stmts@,
                                env,
                                depth,
                            );
                        }
                    },
                    _ => {},
                }
            },
            Stmt::While { while_tok, cond, body } => {
                lemma_while(f, s, cond, body.contents.stmts@, while_tok.span, env, depth);
            },
            Stmt::Return { value, .. } => {
                lemma_expr(f, s, value, env, depth);
            },
            Stmt::Let { name, value, .. } => {
                lemma_expr(f, s, value, env, depth);
            },
            Stmt::Block(b) => {
                lemma_block(f, s, b.contents.stmts@, env, depth);
            },
            _ => {},
        }
    }
}

proof fn lemma_for(
    fuel: nat,
    s: State,
    items: Seq<Value>,
    i: int,
    name: Seq<char>,
    body: Seq<Stmt>,
    env: Env,
    depth: nat,
)
    requires
        env != Env::Global,
    ensures
        extends(s, eval_for(fuel, s, items, i, name, body, env, depth).0),
    decreases fuel, 3int, items.len() - i,
{
    reveal(eval_for);
    reveal(eval_block);
    if 0 <= i < items.len() {
        let round = s.define(env, name, items[i]);
        lemma_block(fuel, round.0, body, round.1, depth);
        let r = eval_block(fuel, round.0, body, round.1, depth);
        match r.1 {
            Ok(_) => {
                lemma_for(fuel, r.0, items, i + 1, name, body, env, depth);
            },
            Err(_) => {},
        }
    }
}

proof fn lemma_while(
    fuel: nat,
    s: State,
    cond: Expr,
    body: Seq<Stmt>,
    at: Span,
    env: Env,
    depth: nat,
)
    ensures
        extends(s, eval_while(fuel, s, cond, body, at, env, depth).0),
    decreases fuel, 0int, 0int,
{
    reveal(eval_while);
    reveal(eval_cond);
    reveal(eval_block);
    if fuel > 0 {
        let f = (fuel - 1) as nat;
        lemma_cond(f, s, cond, env, depth);
        let c = eval_cond(f, s, cond, env, depth);
        lemma_block(f, c.0, body, env, depth);
        let b = eval_block(f, c.0, body, env, depth);
        lemma_while(f, b.0, cond, body, at, env, depth);
    }
}

/// The scope of a block. Whatever the statements of a block define, after
/// the block exactly those names are visible in the environment of the
/// block that were visible in it before: what the block defined is gone,
/// and what was there is still there, with the values that the block
/// assigned.
pub proof fn block_keeps_scope(
    fuel: nat,
    s: State,
    stmts: Seq<Stmt>,
    env: Env,
    depth: nat,
    name: Seq<char>,
)
    requires
        env_ok(s, env),
    ensures
        (eval_block(fuel, s, stmts, env, depth).0.lookup(env, name) is Some) == (s.lookup(
            env,
            name,
        ) is Some),
{
    lemma_block(fuel, s, stmts, env, depth);
    lemma_visible(s, eval_block(fuel, s, stmts, env, depth).0, env, name);
}

/// A definition anywhere but among the globals changes nothing for those
/// who hold an environment from before it: every name has the value that
/// it had.
pub proof fn definition_shadows_only(
    s: State,
    env: Env,
    name: Seq<char>,
    value: Value,
    outer: Env,
    other: Seq<char>,
)
    requires
        env != Env::Global,
        env_ok(s, outer),
    ensures
        s.define(env, name, value).0.lookup(outer, other) == s.lookup(outer, other),
    decreases outer.rank(),
{
    match outer {
        Env::Chain(i) => {
            if s.nodes[i as int].name != other && s.nodes[i as int].next.rank() < outer.rank() {
                definition_shadows_only(s, env, name, value, s.nodes[i as int].next, other);
            }
        },
        Env::GlobalFence => {
            definition_shadows_only(s, env, name, value, Env::Global, other);
        },
        Env::Global => {},
    }
}

/// `inner` is `outer` with more bindings in front of it, none of them
/// called `name`.
pub open spec fn behind(s: State, inner: Env, outer: Env, name: Seq<char>) -> bool
    decreases inner.rank(),
{
    inner == outer || match inner {
        Env::Chain(i) => i < s.nodes.len() && s.nodes[i as int].name != name
            && s.nodes[i as int].next.rank() < inner.rank() && behind(
            s,
            s.nodes[i as int].next,
            outer,
            name,
        ),
        Env::GlobalFence => outer == Env::Global,
        Env::Global => false,
    }
}

/// An assignment in an inner scope to a name of an outer scope changes the
/// binding of the outer scope: after it, the outer scope sees the value
/// that was assigned.
pub proof fn assignment_reaches_outer(
    s: State,
    inner: Env,
    outer: Env,
    name: Seq<char>,
    value: Value,
)
    requires
        behind(s, inner, outer, name),
        s.lookup(outer, name) is Some,
    ensures
        s.assign(inner, name, value) is Some,
        s.assign(inner, name, value)->0.lookup(outer, name) == Some(value),
    decreases inner.rank(),
{
    if inner == outer {
        lemma_assignable(s, outer, name, value);
        lemma_assigned(s, outer, name, value);
    } else {
        match inner {
            Env::Chain(i) => {
                assignment_reaches_outer(s, s.nodes[i as int].next, outer, name, value);
            },
            Env::GlobalFence => {
                lemma_assignable(s, outer, name, value);
                lemma_assigned(s, outer, name, value);
            },
            Env::Global => {},
        }
    }
}

/// An assignment leaves the heap alone.
pub proof fn lemma_assign_heap(s: State, env: Env, name: Seq<char>, value: Value)
    ensures
        s.assign(env, name, value) matches Some(t) ==> t.heap == s.heap,
    decreases env.rank(),
{
    match env {
        Env::Chain(i) => {
            if i < s.nodes.len() && s.nodes[i as int].name != name && s.nodes[i as int].next.rank()
                < env.rank() {
                lemma_assign_heap(s, s.nodes[i as int].next, name, value);
            }
        },
        Env::GlobalFence => {
            lemma_assign_heap(s, Env::Global, name, value);
        },
        Env::Global => {},
    }
}

/// What can be looked up can be assigned.
proof fn lemma_assignable(s: State, env: Env, name: Seq<char>, value: Value)
    requires
        s.lookup(env, name) is Some,
    ensures
        s.assign(env, name, value) is Some,
    decreases env.rank(),
{
    match env {
        Env::Chain(i) => {
            if s.nodes[i as int].name != name {
                lemma_assignable(s, s.nodes[i as int].next, name, value);
            }
        },
        Env::GlobalFence => {
            lemma_assignable(s, Env::Global, name, value);
        },
        Env::Global => {},
    }
}

proof fn lemma_params_in_front(
    s: State,
    params: Seq<Param>,
    args: Seq<Value>,
    i: int,
    env: Env,
    name: Seq<char>,
)
    requires
        0 <= i,
        env != Env::Global,
        env_ok(s, env),
        i <= params.len() ==> s.nodes.len() + params.len() - i <= usize::MAX,
        forall|k: int| 0 <= k < params.len() ==> (#[trigger] params[k]).item.text@ != name,
    ensures
        bind_params(s, params, args, i, env).0.lookup(bind_params(s, params, args, i, env).1, name)
            == s.lookup(env, name),
    decreases params.len() - i,
{
    if i < params.len() && i < args.len() {
        let (s1, env1) = s.define(env, params[i].item.text@, args[i]);
        definition_shadows_only(s, env, params[i].item.text@, args[i], env, name);
        assert(s1.nodes[s.nodes.len() as int].name == params[i].item.text@);
        assert(s1.lookup(env1, name) == s1.lookup(env, name));
        lemma_params_in_front(s1, params, args, i + 1, env1, name);
    }
}

/// The body of a function resolves the names that are not its parameters
/// in the environment in which the function was defined: in the
/// environment that the body starts in, each such name has the value that
/// it has there.
pub proof fn closure_sees_definition_site(
    s: State,
    params: Seq<Param>,
    args: Seq<Value>,
    captured: Env,
    name: Seq<char>,
)
    requires
        env_ok(s, captured),
        s.nodes.len() + params.len() <= usize::MAX,
        forall|k: int| 0 <= k < params.len() ==> (#[trigger] params[k]).item.text@ != name,
    ensures
        bind_params(s, params, args, 0, captured.fenced()).0.lookup(
            bind_params(s, params, args, 0, captured.fenced()).1,
            name,
        ) == s.lookup(captured, name),
{
    lemma_params_in_front(s, params, args, 0, captured.fenced(), name);
}

/// Whether a block stopped at a `return`.
pub open spec fn returned(r: Result<(), crate::semantics::Stop>) -> bool {
    r matches Err(crate::semantics::Stop::Return(_))
}

proof fn lemma_if_stays(
    fuel: nat,
    s: State,
    c: crate::ast::IfCond,
    body: Seq<Stmt>,
    rest: crate::ast::IfTail,
    env: Env,
)
    ensures
        !returned(eval_if(fuel, s, c, body, rest, env, 0).1),
    decreases fuel, 3int, 0int,
{
    reveal(eval_if);
    reveal(eval_if_cond);
    reveal(eval_block);
    reveal(eval_if_tail);
    let r = eval_if_cond(fuel, s, c, env, 0);
    match r.1 {
        Ok((true, inner)) => {
            lemma_block_stays(fuel, r.0, body, inner);
        },
        Ok((false, _)) => {
            lemma_if_tail_stays(fuel, r.0, rest, env);
        },
        Err(_) => {},
    }
}

proof fn lemma_if_tail_stays(fuel: nat, s: State, rest: crate::ast::IfTail, env: Env)
    ensures
        !returned(eval_if_tail(fuel, s, rest, env, 0).1),
    decreases fuel, 0int, 0int,
{
    reveal(eval_if_tail);
    reveal(eval_block);
    reveal(eval_if);
    if fuel > 0 {
        match rest {
            crate::ast::IfTail::End => {},
            crate::ast::IfTail::Else { body, .. } => {
                lemma_block_stays((fuel - 1) as nat, s, body.contents.stmts@, env);
            },
            crate::ast::IfTail::ElseIf { cond, body, tail, .. } => {
                lemma_if_stays((fuel - 1) as nat, s, cond, body.contents.stmts@, *tail, env);
            },
        }
    }
}

proof fn lemma_block_stays(fuel: nat, s: State, stmts: Seq<Stmt>, env: Env)
    ensures
        !returned(eval_block(fuel, s, stmts, env, 0).1),
    decreases fuel, 2int, 0int,
{
    reveal(eval_block);
    reveal(eval_stmts);
    lemma_stmts_stay(fuel, s, stmts, 0, env.fenced());
}

proof fn lemma_stmts_stay(fuel: nat, s: State, stmts: Seq<Stmt>, i: int, env: Env)
    ensures
        !returned(eval_stmts(fuel, s, stmts, i, env, 0).1),
    decreases fuel, 1int, stmts.len() - i,
{
    reveal(eval_stmts);
    reveal(eval_statement);
    if 0 <= i < stmts.len() {
        top_level_never_returns(fuel, s, stmts[i], env);
        let r = eval_statement(fuel, s, stmts[i], env, 0);
        match r.1 {
            Ok(env1) => {
                lemma_stmts_stay(fuel, r.0, stmts, i + 1, env1);
            },
            Err(_) => {},
        }
    }
}

proof fn lemma_for_stays(
    fuel: nat,
    s: State,
    items: Seq<Value>,
    i: int,
    name: Seq<char>,
    body: Seq<Stmt>,
    env: Env,
)
    ensures
        !returned(eval_for(fuel, s, items, i, name, body, env, 0).1),
    decreases fuel, 3int, items.len() - i,
{
    reveal(eval_for);
    reveal(eval_block);
    if 0 <= i < items.len() {
        let round = s.define(env, name, items[i]);
        lemma_block_stays(fuel, round.0, body, round.1);
        let r = eval_block(fuel, round.0, body, round.1, 0);
        match r.1 {
            Ok(_) => {
                lemma_for_stays(fuel, r.0, items, i + 1, name, body, env);
            },
            Err(_) => {},
        }
    }
}

proof fn lemma_while_stays(fuel: nat, s: State, cond: Expr, body: Seq<Stmt>, at: Span, env: Env)
    ensures
        !returned(eval_while(fuel, s, cond, body, at, env, 0).1),
    decreases fuel, 0int, 0int,
{
    reveal(eval_while);
    reveal(eval_cond);
    reveal(eval_block);
    if fuel > 0 {
        let f = (fuel - 1) as nat;
        let c = eval_cond(f, s, cond, env, 0);
        lemma_block_stays(f, c.0, body, env);
        let b = eval_block(f, c.0, body, env, 0);
        lemma_while_stays(f, b.0, cond, body, at, env);
    }
}

/// Outside of all calls no statement ends in a `return`: a `return` there
/// is an error, and a `return` inside a call ends with that call.
pub proof fn top_level_never_returns(fuel: nat, s: State, stmt: Stmt, env: Env)
    ensures
        !(eval_statement(fuel, s, stmt, env, 0).1 matches Err(crate::semantics::Stop::Return(_))),
    decreases fuel, 0int, 0int,
{
    reveal(eval_statement);
    reveal(eval_if);
    reveal(eval_expr);
    reveal(eval_for);
    reveal(eval_while);
    reveal(eval_block);
    if fuel > 0 {
        let f = (fuel - 1) as nat;
        match stmt {
            Stmt::If { cond, body, tail, .. } => {
                lemma_if_stays(f, s, cond, body.contents.stmts@, tail, env);
            },
            Stmt::For { name, iterable, body, .. } => {
                let r = eval_expr(f, s, iterable, env, 0);
                match r.1 {
                    Ok(Value::List(id)) => {
                        if r.0.items(id) is Some {
                            lemma_for_stays(
                                f,
                                r.0,
                                r.0.items(id)->0,
                                0,
                                name.text@,
                                body.contents.stmts@,
                                env,
                            );
                        }
                    },
                    _ => {},
                }
            },
            Stmt::While { while_tok, cond, body } => {
                lemma_while_stays(f, s, cond, body.contents.stmts@, while_tok.span, env);
            },
            Stmt::Block(b) => {
                lemma_block_stays(f, s, b.contents.stmts@, env);
            },
            _ => {},
        }
    }
}

} // verus!
