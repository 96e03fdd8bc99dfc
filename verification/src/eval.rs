//! The evaluator: it walks the tree and does what `semantics` says.

use crate::ast::{Arg, Expr, FnDef, IfCond, IfTail, Program, Stmt};
use crate::error::{Error, ErrorV};
use crate::intrinsics::{kind_name, object_name};
use crate::lexer::TokenKind;
use crate::machine::Evaluator;
use crate::pos::{Pos, Span};
use crate::semantics::{
    anchor, args_message, at_span, bind_params, call_user, eval_args, eval_binop, eval_block,
    eval_call, eval_cond, eval_expr, eval_for, eval_if, eval_if_cond, eval_if_tail, eval_statement,
    eval_stmts, eval_while, exhausted, initial_state, operate, run_from,
    uncallable, undefined, with_native, with_type, wrong_kind, Stop,
};
use crate::text::push_count;
use crate::value::{bindings_view, Binding, Env, Native, Object, Value};
use vstd::prelude::*;
use vstd::string::StringExecFns;

verus! {

/// Why the statements of a block stop before their end.
#[derive(Debug)]
pub enum EvalStop {
    Error(Error),
    Return(Value),
}

impl View for EvalStop {
    type V = Stop;

    open spec fn view(&self) -> Stop {
        match self {
            EvalStop::Error(e) => Stop::Error(e@),
            EvalStop::Return(v) => Stop::Return(*v),
        }
    }
}

/// A result with its error as the contracts have it.
pub open spec fn failing<T>(r: Result<T, Error>) -> Result<T, ErrorV> {
    match r {
        Ok(v) => Ok(v),
        Err(e) => Err(e@),
    }
}

/// A result with its stop as the contracts have it.
pub open spec fn halting<T>(r: Result<T, EvalStop>) -> Result<T, Stop> {
    match r {
        Ok(v) => Ok(v),
        Err(e) => Err(e@),
    }
}

fn copy_values(v: &Vec<Value>) -> (r: Vec<Value>)
    ensures
        r@ == v@,
{
    let mut out: Vec<Value> = Vec::new();
    let mut i: usize = 0;
    while i < v.len()
        invariant
            i <= v@.len(),
            out@ == v@.subrange(0, i as int),
        decreases v@.len() - i,
    {
        out.push(v[i]);
        i += 1;
        assert(out@ =~= v@.subrange(0, i as int));
    }
    assert(v@.subrange(0, v@.len() as int) =~= v@);
    out
}

impl<'a> Evaluator<'a> {
    /// The error for a value of the wrong kind.
    fn wrong_kind(&self, what: &str, v: Value, span: Span) -> (e: Error)
        ensures
            e@ == wrong_kind(what@, self@, v, span),
    {
        let mut message = what.to_owned();
        message.append(self.kind_name(v).as_str());
        Error { span, message }
    }

    fn uncallable(&self, callee: Value, span: Span) -> (e: Error)
        ensures
            e@ == uncallable(self@, callee, span),
    {
        let mut message = self.kind_name(callee);
        message.append(" cannot be called");
        Error { span, message }
    }

    fn args_error(&self, id: usize, want: usize, got: usize, span: Span) -> (e: Error)
        ensures
            e@ == (ErrorV {
                span,
                message: args_message(object_name(self@, id), want as nat, got as nat),
            }),
    {
        let mut message = self.object_name(id);
        message.append(" expects ");
        push_count(&mut message, want);
        message.append(" args, got ");
        push_count(&mut message, got);
        Error { span, message }
    }

    /// Calls a native function for the call at `span`.
    fn native(&mut self, f: Native, args: Vec<Value>, span: Span) -> (r: Result<Value, Error>)
        ensures
            (final(self)@, failing(r)) == at_span(
                crate::intrinsics::call_native(old(self)@, f, args@),
                span,
            ),
    {
        match self.call_native(f, args) {
            Ok(v) => Ok(v),
            Err(message) => Err(Error { span, message }),
        }
    }

    pub fn eval_expr(&mut self, fuel: u64, expr: &'a Expr, env: Env, depth: u64) -> (r: Result<
        Value,
        Error,
    >)
        requires
            fuel + depth <= u64::MAX,
        ensures
            (final(self)@, failing(r)) == eval_expr(
                fuel as nat,
                old(self)@,
                *expr,
                env,
                depth as nat,
            ),
        decreases fuel, 0int, 0int,
    {
        reveal(eval_expr);
        reveal(eval_call);
        reveal(eval_binop);
        if fuel == 0 {
            return Err(Error::new(expr.span(), "evaluation budget exhausted"));
        }
        let f = fuel - 1;
        match expr {
            Expr::Name { name } => match self.lookup(env, &name.text) {
                Some(value) => Ok(value),
                None => Err(Error::new(name.tok.span, "undefined variable")),
            },
            Expr::Number { value, .. } => Ok(Value::Int(*value)),
            Expr::Bool { value, .. } => Ok(Value::Bool(*value)),
            Expr::Str { value, .. } => Ok(self.store_str(value.clone())),
            Expr::Nil { .. } => Ok(Value::Nil),
            Expr::SelfExpr { tok } => {
                let name = "self".to_owned();
                match self.lookup(env, &name) {
                    Some(value) => Ok(value),
                    None => Err(Error::new(tok.span, "undefined variable")),
                }
            },
            Expr::Call { func, args, .. } => self.eval_call(f, func, args, expr.span(), env, depth),
            Expr::Paren { inner, .. } => self.eval_expr(f, inner, env, depth),
            Expr::BinOp { lhs, operator, rhs } => self.eval_binop(
                f,
                lhs,
                operator.kind,
                rhs,
                expr.span(),
                env,
                depth,
            ),
            Expr::Field { obj, field, .. } => {
                let obj = self.eval_expr(f, obj, env, depth)?;
                match self.lookup_field(obj, &field.text) {
                    Some(value) => Ok(value),
                    None => {
                        let mut message = self.kind_name(obj);
                        message.append(" does not have field `");
                        message.append(field.text.as_str());
                        message.append("`");
                        Err(Error { span: field.tok.span, message })
                    },
                }
            },
            Expr::AssignVar { name, value, .. } => {
                let value = self.eval_expr(f, value, env, depth)?;
                if self.set(env, &name.text, value) {
                    Ok(value)
                } else {
                    Err(Error::new(name.tok.span, "undefined variable"))
                }
            },
            Expr::AssignField { obj, field, value, .. } => {
                let obj = self.eval_expr(f, obj, env, depth)?;
                let value = self.eval_expr(f, value, env, depth)?;
                match self.set_field(obj, &field.text, value) {
                    Ok(()) => Ok(value),
                    Err(message) => Err(Error { span: field.tok.span, message }),
                }
            },
        }
    }

    /// The values of the arguments of a call.
    fn eval_args(&mut self, fuel: u64, args: &'a Vec<Arg>, env: Env, depth: u64) -> (r: Result<
        Vec<Value>,
        Error,
    >)
        requires
            fuel + depth <= u64::MAX,
        ensures
            final(self)@ == eval_args(
                fuel as nat,
                old(self)@,
                args@,
                0,
                env,
                depth as nat,
                Seq::empty(),
            ).0,
            match r {
                Ok(v) => eval_args(
                    fuel as nat,
                    old(self)@,
                    args@,
                    0,
                    env,
                    depth as nat,
                    Seq::empty(),
                ).1 == Ok::<Seq<Value>, ErrorV>(v@),
                Err(x) => eval_args(
                    fuel as nat,
                    old(self)@,
                    args@,
                    0,
                    env,
                    depth as nat,
                    Seq::empty(),
                ).1 == Err::<Seq<Value>, ErrorV>(x@),
            },
        decreases fuel, 1int, args@.len(),
    {
        reveal(eval_args);
        reveal(eval_expr);
        let mut values: Vec<Value> = Vec::new();
        let mut i: usize = 0;
        while i < args.len()
            invariant
                i <= args@.len(),
                fuel + depth <= u64::MAX,
                eval_args(fuel as nat, old(self)@, args@, 0, env, depth as nat, Seq::empty())
                    == eval_args(fuel as nat, self@, args@, i as int, env, depth as nat, values@),
            decreases args@.len() - i,
        {
            reveal(eval_args);
            reveal(eval_expr);
            let value = self.eval_expr(fuel, &args[i].item, env, depth)?;
            values.push(value);
            i += 1;
        }
        Ok(values)
    }

    /// Calls the function `id` of the program.
    fn call_user(&mut self, fuel: u64, id: usize, args: Vec<Value>, span: Span, depth: u64) -> (r:
        Result<Value, Error>)
        requires
            fuel + depth + 1 <= u64::MAX,
        ensures
            (final(self)@, failing(r)) == call_user(
                fuel as nat,
                old(self)@,
                id,
                args@,
                span,
                depth as nat,
            ),
        decreases fuel, 3int, 0int,
    {
        reveal(call_user);
        reveal(eval_block);
        let found = match self.object(id) {
            Some(Object::UserFunc { def, env, .. }) => Some((*def, *env)),
            _ => None,
        };
        let (def, captured): (&'a FnDef, Env) = match found {
            Some(found) => found,
            None => {
                return Err(self.uncallable(Value::UserFunc(id), span));
            },
        };
        if args.len() != def.params.len() {
            return Err(self.args_error(id, def.params.len(), args.len(), span));
        }
        let mut call_env = captured.with_fence();
        let mut i: usize = 0;
        while i < args.len()
            invariant
                i <= args@.len(),
                args@.len() == def.params@.len(),
                bind_params(old(self)@, def.params@, args@, 0, captured.fenced()) == bind_params(
                    self@,
                    def.params@,
                    args@,
                    i as int,
                    call_env,
                ),
            decreases args@.len() - i,
        {
            call_env = self.define(call_env, &def.params[i].item.text, args[i]);
            i += 1;
        }
        match self.eval_block(fuel, &def.body.contents.stmts, call_env, depth + 1) {
            Ok(()) => Ok(Value::Nil),
            Err(EvalStop::Error(e)) => Err(e),
            Err(EvalStop::Return(value)) => Ok(value),
        }
    }

    /// A call.
    fn eval_call(
        &mut self,
        fuel: u64,
        func: &'a Expr,
        args: &'a Vec<Arg>,
        span: Span,
        env: Env,
        depth: u64,
    ) -> (r: Result<Value, Error>)
        requires
            fuel + depth + 1 <= u64::MAX,
        ensures
            (final(self)@, failing(r)) == eval_call(
                fuel as nat,
                old(self)@,
                *func,
                args@,
                span,
                env,
                depth as nat,
            ),
        decreases fuel, 4int, 0int,
    {
        reveal(eval_call);
        reveal(eval_expr);
        reveal(eval_args);
        reveal(call_user);
        let callee = self.eval_expr(fuel, func, env, depth)?;
        match callee {
            Value::NativeFunc(id) => {
                let found = match self.object(id) {
                    Some(Object::NativeFunc { func, .. }) => Some(*func),
                    _ => None,
                };
                match found {
                    Some(f) => {
                        let values = self.eval_args(fuel, args, env, depth)?;
                        self.native(f, values, span)
                    },
                    None => Err(self.uncallable(callee, span)),
                }
            },
            Value::Struct(id) => {
                let found = match self.object(id) {
                    Some(Object::Struct { ctor, .. }) => Some(*ctor),
                    _ => None,
                };
                match found {
                    Some(Some(f)) => {
                        let values = self.eval_args(fuel, args, env, depth)?;
                        self.native(f, values, span)
                    },
                    Some(None) => {
                        if args.len() > 0 {
                            Err(self.args_error(id, 0, args.len(), span))
                        } else {
                            let fields: Vec<Binding> = Vec::new();
                            assert(bindings_view(fields@) =~= Seq::empty());
                            let made = self.store(Object::Instance { ty: id, fields });
                            Ok(Value::Instance(made))
                        }
                    },
                    None => Err(self.uncallable(callee, span)),
                }
            },
            Value::UserFunc(id) => {
                let values = self.eval_args(fuel, args, env, depth)?;
                self.call_user(fuel, id, values, span, depth)
            },
            other => Err(self.uncallable(other, span)),
        }
    }

    /// The truth value of a condition.
    fn eval_cond(&mut self, fuel: u64, cond: &'a Expr, env: Env, depth: u64) -> (r: Result<
        bool,
        Error,
    >)
        requires
            fuel + depth <= u64::MAX,
        ensures
            (final(self)@, failing(r)) == eval_cond(
                fuel as nat,
                old(self)@,
                *cond,
                env,
                depth as nat,
            ),
        decreases fuel, 1int, 0int,
    {
        reveal(eval_cond);
        reveal(eval_expr);
        match self.eval_expr(fuel, cond, env, depth)? {
            Value::Bool(b) => Ok(b),
            other => Err(self.wrong_kind("condition evaluated to a ", other, cond.span())),
        }
    }

    /// What an operator other than `&&` and `||` makes of two values.
    fn operate(&mut self, op: TokenKind, lhs: Value, rhs: Value) -> (r: Result<Value, String>)
        ensures
            final(self)@ == operate(old(self)@, op, lhs, rhs).0,
            match r {
                Ok(v) => operate(old(self)@, op, lhs, rhs).1 == Ok::<Value, Seq<char>>(v),
                Err(m) => operate(old(self)@, op, lhs, rhs).1 == Err::<Value, Seq<char>>(m@),
            },
    {
        match op {
            TokenKind::Plus => self.add(lhs, rhs),
            TokenKind::Minus => self.sub(lhs, rhs),
            TokenKind::Star => self.mul(lhs, rhs),
            TokenKind::Slash => self.div(lhs, rhs),
            TokenKind::Less => Ok(self.less(lhs, rhs)),
            TokenKind::LessEq => Ok(self.less_eq(lhs, rhs)),
            TokenKind::Greater => Ok(self.greater(lhs, rhs)),
            TokenKind::GreaterEq => Ok(self.greater_eq(lhs, rhs)),
            TokenKind::EqEq => Ok(self.eq(lhs, rhs)),
            TokenKind::NotEq => Ok(self.not_eq(lhs, rhs)),
            _ => Err("invalid operator".to_owned()),
        }
    }

    /// A binary operator.
    fn eval_binop(
        &mut self,
        fuel: u64,
        lhs: &'a Expr,
        op: TokenKind,
        rhs: &'a Expr,
        span: Span,
        env: Env,
        depth: u64,
    ) -> (r: Result<Value, Error>)
        requires
            fuel + depth <= u64::MAX,
        ensures
            (final(self)@, failing(r)) == eval_binop(
                fuel as nat,
                old(self)@,
                *lhs,
                op,
                *rhs,
                span,
                env,
                depth as nat,
            ),
        decreases fuel, 2int, 0int,
    {
        reveal(eval_binop);
        reveal(eval_cond);
        reveal(eval_expr);
        match op {
            TokenKind::And => {
                if self.eval_cond(fuel, lhs, env, depth)? {
                    Ok(Value::Bool(self.eval_cond(fuel, rhs, env, depth)?))
                } else {
                    Ok(Value::Bool(false))
                }
            },
            TokenKind::Or => {
                if self.eval_cond(fuel, lhs, env, depth)? {
                    Ok(Value::Bool(true))
                } else {
                    Ok(Value::Bool(self.eval_cond(fuel, rhs, env, depth)?))
                }
            },
            _ => {
                let lhs = self.eval_expr(fuel, lhs, env, depth)?;
                let rhs = self.eval_expr(fuel, rhs, env, depth)?;
                match self.operate(op, lhs, rhs) {
                    Ok(v) => Ok(v),
                    Err(message) => Err(Error { span, message }),
                }
            },
        }
    }

    /// The condition of an `if`: whether it holds, and the environment for
    /// the body.
    fn eval_if_cond(&mut self, fuel: u64, cond: &'a IfCond, env: Env, depth: u64) -> (r: Result<
        (bool, Env),
        Error,
    >)
        requires
            fuel + depth <= u64::MAX,
        ensures
            (final(self)@, failing(r)) == eval_if_cond(
                fuel as nat,
                old(self)@,
                *cond,
                env,
                depth as nat,
            ),
        decreases fuel, 2int, 0int,
    {
        reveal(eval_if_cond);
        reveal(eval_cond);
        reveal(eval_expr);
        match cond {
            IfCond::Expr(e) => {
                let b = self.eval_cond(fuel, e, env, depth)?;
                Ok((b, env))
            },
            IfCond::TypeTest { name, ty, value, .. } => {
                let expected = match self.eval_expr(fuel, ty, env, depth)? {
                    Value::Struct(id) => id,
                    other => {
                        return Err(self.wrong_kind("type evaluated to ", other, ty.span()));
                    },
                };
                let value = self.eval_expr(fuel, value, env, depth)?;
                if self.value_type(value) == expected {
                    let inner = self.define(env.with_fence(), &name.text, value);
                    Ok((true, inner))
                } else {
                    Ok((false, env))
                }
            },
        }
    }

    /// An `if` with all that follows it.
    fn eval_if(
        &mut self,
        fuel: u64,
        cond: &'a IfCond,
        body: &'a Vec<Stmt>,
        tail: &'a IfTail,
        env: Env,
        depth: u64,
    ) -> (r: Result<(), EvalStop>)
        requires
            fuel + depth <= u64::MAX,
        ensures
            (final(self)@, halting(r)) == eval_if(
                fuel as nat,
                old(self)@,
                *cond,
                body@,
                *tail,
                env,
                depth as nat,
            ),
        decreases fuel, 3int, 0int,
    {
        reveal(eval_if);
        reveal(eval_if_cond);
        reveal(eval_block);
        reveal(eval_if_tail);
        match self.eval_if_cond(fuel, cond, env, depth) {
            Ok((true, inner)) => self.eval_block(fuel, body, inner, depth),
            Ok((false, _)) => self.eval_if_tail(fuel, tail, env, depth),
            Err(e) => Err(EvalStop::Error(e)),
        }
    }

    /// What follows the body of an `if` whose condition did not hold.
    fn eval_if_tail(&mut self, fuel: u64, tail: &'a IfTail, env: Env, depth: u64) -> (r: Result<
        (),
        EvalStop,
    >)
        requires
            fuel + depth <= u64::MAX,
        ensures
            (final(self)@, halting(r)) == eval_if_tail(
                fuel as nat,
                old(self)@,
                *tail,
                env,
                depth as nat,
            ),
        decreases fuel, 0int, 0int,
    {
        reveal(eval_if_tail);
        reveal(eval_block);
        reveal(eval_if);
        match tail {
            IfTail::End => Ok(()),
            IfTail::Else { else_tok, body } => {
                if fuel == 0 {
                    return Err(
                        EvalStop::Error(Error::new(else_tok.span, "evaluation budget exhausted")),
                    );
                }
                self.eval_block(fuel - 1, &body.contents.stmts, env, depth)
            },
            IfTail::ElseIf { else_tok, cond, body, tail, .. } => {
                if fuel == 0 {
                    return Err(
                        EvalStop::Error(Error::new(else_tok.span, "evaluation budget exhausted")),
                    );
                }
                self.eval_if(fuel - 1, cond, &body.contents.stmts, tail, env, depth)
            },
        }
    }

    /// A block: its statements one after the other, in a scope of their own.
    pub fn eval_block(&mut self, fuel: u64, block: &'a Vec<Stmt>, env: Env, depth: u64) -> (r:
        Result<(), EvalStop>)
        requires
            fuel + depth <= u64::MAX,
        ensures
            (final(self)@, halting(r)) == eval_block(
                fuel as nat,
                old(self)@,
                block@,
                env,
                depth as nat,
            ),
        decreases fuel, 2int, 0int,
    {
        reveal(eval_block);
        reveal(eval_stmts);
        reveal(eval_statement);
        let mut inner = env.with_fence();
        let mut i: usize = 0;
        while i < block.len()
            invariant
                i <= block@.len(),
                fuel + depth <= u64::MAX,
                eval_block(fuel as nat, old(self)@, block@, env, depth as nat) == eval_stmts(
                    fuel as nat,
                    self@,
                    block@,
                    i as int,
                    inner,
                    depth as nat,
                ),
            decreases block@.len() - i,
        {
            reveal(eval_block);
            reveal(eval_stmts);
            reveal(eval_statement);
            match self.eval_statement(fuel, &block[i], inner, depth) {
                Ok(next) => {
                    inner = next;
                },
                Err(stop) => {
                    return Err(stop);
                },
            }
            i += 1;
        }
        Ok(())
    }

    /// The rounds of a `for`.
    fn eval_for(
        &mut self,
        fuel: u64,
        items: Vec<Value>,
        name: &'a String,
        body: &'a Vec<Stmt>,
        env: Env,
        depth: u64,
    ) -> (r: Result<(), EvalStop>)
        requires
            fuel + depth <= u64::MAX,
        ensures
            (final(self)@, halting(r)) == eval_for(
                fuel as nat,
                old(self)@,
                items@,
                0,
                name@,
                body@,
                env,
                depth as nat,
            ),
        decreases fuel, 3int, items@.len(),
    {
        reveal(eval_for);
        reveal(eval_block);
        let mut i: usize = 0;
        while i < items.len()
            invariant
                i <= items@.len(),
                fuel + depth <= u64::MAX,
                eval_for(fuel as nat, old(self)@, items@, 0, name@, body@, env, depth as nat)
                    == eval_for(
                    fuel as nat,
                    self@,
                    items@,
                    i as int,
                    name@,
                    body@,
                    env,
                    depth as nat,
                ),
            decreases items@.len() - i,
        {
            reveal(eval_for);
            reveal(eval_block);
            let round = self.define(env, name, items[i]);
            match self.eval_block(fuel, body, round, depth) {
                Ok(()) => {},
                Err(stop) => {
                    return Err(stop);
                },
            }
            i += 1;
        }
        Ok(())
    }

    /// The rounds of a `while`.
    fn eval_while(
        &mut self,
        fuel: u64,
        cond: &'a Expr,
        body: &'a Vec<Stmt>,
        at: Span,
        env: Env,
        depth: u64,
    ) -> (r: Result<(), EvalStop>)
        requires
            fuel + depth <= u64::MAX,
        ensures
            (final(self)@, halting(r)) == eval_while(
                fuel as nat,
                old(self)@,
                *cond,
                body@,
                at,
                env,
                depth as nat,
            ),
        decreases fuel, 0int, 0int,
    {
        reveal(eval_while);
        reveal(eval_cond);
        reveal(eval_block);
        let mut left = fuel;
        loop
            invariant
                left <= fuel,
                fuel + depth <= u64::MAX,
                eval_while(fuel as nat, old(self)@, *cond, body@, at, env, depth as nat)
                    == eval_while(left as nat, self@, *cond, body@, at, env, depth as nat),
            decreases left,
        {
            reveal(eval_while);
            reveal(eval_cond);
            reveal(eval_block);
            if left == 0 {
                return Err(EvalStop::Error(Error::new(at, "evaluation budget exhausted")));
            }
            left = left - 1;
            match self.eval_cond(left, cond, env, depth) {
                Ok(true) => {},
                Ok(false) => {
                    return Ok(());
                },
                Err(e) => {
                    return Err(EvalStop::Error(e));
                },
            }
            match self.eval_block(left, body, env, depth) {
                Ok(()) => {},
                Err(stop) => {
                    return Err(stop);
                },
            }
        }
    }

    /// Where a statement starts.
    fn anchor(stmt: &Stmt) -> (span: Span)
        ensures
            span == anchor(*stmt),
    {
        match stmt {
            Stmt::If { if_tok, .. } => if_tok.span,
            Stmt::Expr { expr, .. } => expr.span(),
            Stmt::For { for_tok, .. } => for_tok.span,
            Stmt::While { while_tok, .. } => while_tok.span,
            Stmt::Return { ret, .. } => ret.span,
            Stmt::Let { let_tok, .. } => let_tok.span,
            Stmt::Comment(c) => if c.markers.len() > 0 {
                c.markers[0].span
            } else {
                Span::new(Pos::new(0), Pos::new(0))
            },
            Stmt::FnDef(f) => f.fn_tok.span,
            Stmt::StructDef { struct_tok, .. } => struct_tok.span,
            Stmt::Block(b) => b.left_curly.span,
        }
    }

    /// A statement: the environment for the statements behind it, or why
    /// they are not reached.
    pub fn eval_statement(&mut self, fuel: u64, stmt: &'a Stmt, env: Env, depth: u64) -> (r: Result<
        Env,
        EvalStop,
    >)
        requires
            fuel + depth <= u64::MAX,
        ensures
            (final(self)@, halting(r)) == eval_statement(
                fuel as nat,
                old(self)@,
                *stmt,
                env,
                depth as nat,
            ),
        decreases fuel, 0int, 0int,
    {
        reveal(eval_statement);
        reveal(eval_if);
        reveal(eval_expr);
        reveal(eval_for);
        reveal(eval_while);
        reveal(eval_block);
        if fuel == 0 {
            return Err(
                EvalStop::Error(Error::new(Self::anchor(stmt), "evaluation budget exhausted")),
            );
        }
        let f = fuel - 1;
        match stmt {
            Stmt::If { cond, body, tail, .. } => {
                match self.eval_if(f, cond, &body.contents.stmts, tail, env, depth) {
                    Ok(()) => Ok(env),
                    Err(stop) => Err(stop),
                }
            },
            Stmt::Expr { expr, .. } => match self.eval_expr(f, expr, env, depth) {
                Ok(_) => Ok(env),
                Err(e) => Err(EvalStop::Error(e)),
            },
            Stmt::For { name, iterable, body, .. } => {
                let iter = match self.eval_expr(f, iterable, env, depth) {
                    Ok(v) => v,
                    Err(e) => {
                        return Err(EvalStop::Error(e));
                    },
                };
                let items = match iter {
                    Value::List(id) => match self.items_of(id) {
                        Some(items) => Some(copy_values(items)),
                        None => None,
                    },
                    _ => None,
                };
                match items {
                    Some(items) => {
                        match self.eval_for(f, items, &name.text, &body.contents.stmts, env, depth) {
                            Ok(()) => Ok(env),
                            Err(stop) => Err(stop),
                        }
                    },
                    None => Err(
                        EvalStop::Error(self.wrong_kind("cannot iterate over ", iter, iterable.span())),
                    ),
                }
            },
            Stmt::While { while_tok, cond, body } => {
                match self.eval_while(f, cond, &body.contents.stmts, while_tok.span, env, depth) {
                    Ok(()) => Ok(env),
                    Err(stop) => Err(stop),
                }
            },
            Stmt::Return { ret, value, .. } => {
                if depth == 0 {
                    return Err(
                        EvalStop::Error(
                            Error::new(ret.span, "cannot use return outside of a function"),
                        ),
                    );
                }
                match self.eval_expr(f, value, env, depth) {
                    Ok(v) => Err(EvalStop::Return(v)),
                    Err(e) => Err(EvalStop::Error(e)),
                }
            },
            Stmt::Let { name, value, .. } => match self.eval_expr(f, value, env, depth) {
                Ok(v) => Ok(self.define(env, &name.text, v)),
                Err(e) => Err(EvalStop::Error(e)),
            },
            Stmt::Comment(_) => Ok(env),
            Stmt::FnDef(def) => {
                let made = self.store(Object::UserFunc { name: def.name.text.clone(), def, env });
                Ok(self.define(env, &def.name.text, Value::UserFunc(made)))
            },
            Stmt::StructDef { name, fns, .. } => {
                if fns.len() > 0 {
                    return Err(
                        EvalStop::Error(
                            Error::new(name.tok.span, "struct member functions are not supported"),
                        ),
                    );
                }
                let made = self.store(Object::Struct { name: name.text.clone(), ctor: None });
                Ok(self.define(env, &name.text, Value::Struct(made)))
            },
            Stmt::Block(b) => match self.eval_block(f, &b.contents.stmts, env, depth) {
                Ok(()) => Ok(env),
                Err(stop) => Err(stop),
            },
        }
    }

    /// Runs the statements of a program among the globals.
    pub fn run_program(&mut self, fuel: u64, program: &'a Program) -> (r: Result<(), Error>)
        ensures
            (final(self)@, failing(r)) == run_from(
                fuel as nat,
                old(self)@,
                program.stmts@,
                0,
                Env::Global,
            ),
    {
        let mut env = Env::Global;
        let mut i: usize = 0;
        while i < program.stmts.len()
            invariant
                i <= program.stmts@.len(),
                run_from(fuel as nat, old(self)@, program.stmts@, 0, Env::Global) == run_from(
                    fuel as nat,
                    self@,
                    program.stmts@,
                    i as int,
                    env,
                ),
            decreases program.stmts@.len() - i,
        {
            match self.eval_statement(fuel, &program.stmts[i], env, 0) {
                Ok(next) => {
                    env = next;
                },
                Err(EvalStop::Error(e)) => {
                    return Err(e);
                },
                Err(EvalStop::Return(_)) => {
                    return Err(
                        Error::new(
                            Span::new(Pos::new(0), Pos::new(0)),
                            "cannot use return outside of a function",
                        ),
                    );
                },
            }
            i += 1;
        }
        Ok(())
    }

    fn add_type(&mut self, name: &str, ctor: Option<Native>)
        ensures
            final(self)@ == with_type(old(self)@, name@, ctor),
    {
        let owned = name.to_owned();
        let made = self.store(Object::Struct { name: name.to_owned(), ctor });
        self.define(Env::Global, &owned, Value::Struct(made));
    }

    fn add_native(&mut self, name: &str, func: Native)
        ensures
            final(self)@ == with_native(old(self)@, name@, func),
    {
        let owned = name.to_owned();
        let made = self.store(Object::NativeFunc { name: name.to_owned(), func });
        self.define(Env::Global, &owned, Value::NativeFunc(made));
    }

    /// The machine as every program finds it.
    pub fn new() -> (e: Evaluator<'a>)
        ensures
            e@ == initial_state(),
    {
        let mut e = Evaluator {
            heap: Vec::new(),
            nodes: Vec::new(),
            globals: Vec::new(),
            output: Vec::new(),
        };
        assert(e@.heap =~= Seq::empty());
        assert(e@.nodes =~= Seq::empty());
        assert(e@.globals =~= Seq::empty());
        e.add_type("Nil", None);
        e.add_type("Int", None);
        e.add_type("Bool", None);
        e.add_type("Str", None);
        e.add_type("List", Some(Native::ListCtor));
        e.add_type("Struct", None);
        e.add_type("Fn", None);
        e.add_native("print", Native::Print);
        e.add_native("println", Native::Println);
        e.add_native("panic", Native::Panic);
        e
    }
}

} // verus!
