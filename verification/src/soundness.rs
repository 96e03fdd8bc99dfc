//! Every value of a running program points to an object of its kind: a
//! string value to a string, a list value to a list, and so on. No run ever
//! comes to a value that points nowhere.

use crate::ast::{Arg, Expr, IfCond, IfTail, Param, Stmt};
use crate::intrinsics::{call_native, lookup_field, printed, set_field, sum};
use crate::lexer::TokenKind;
use crate::pos::Span;
use crate::semantics::{
    bind_params, call_user, eval_args, eval_binop, eval_block, eval_call, eval_cond, eval_expr,
    eval_for, eval_if, eval_if_cond, eval_if_tail, eval_statement, eval_stmts, eval_while,
    initial_state, operate, run_from, Stop,
};
use crate::value::{bind, bound, find, lemma_find, BindingV, Env, Native, ObjectV, State, Value};
use vstd::prelude::*;

verus! {

/// The object of a value is there and is of the kind of the value.
pub open spec fn points(s: State, v: Value) -> bool {
    match v {
        Value::Str(id) => s.object(id) is Some && s.object(id)->0 is Str,
        Value::NativeFunc(id) => s.object(id) is Some && s.object(id)->0 is NativeFunc,
        Value::Struct(id) => s.object(id) is Some && s.object(id)->0 is Struct,
        Value::Instance(id) => s.object(id) is Some && s.object(id)->0 is Instance,
        Value::List(id) => s.object(id) is Some && s.object(id)->0 is List,
        Value::UserFunc(id) => s.object(id) is Some && s.object(id)->0 is UserFunc,
        _ => true,
    }
}

pub open spec fn all_point(s: State, vs: Seq<Value>) -> bool {
    forall|i: int| 0 <= i < vs.len() ==> points(s, #[trigger] vs[i])
}

pub open spec fn bindings_point(s: State, bs: Seq<BindingV>) -> bool {
    forall|i: int| 0 <= i < bs.len() ==> points(s, (#[trigger] bs[i]).value)
}

/// The value that a native function holds points to its object.
pub open spec fn native_ok(s: State, f: Native) -> bool {
    match f {
        Native::StrGet(v) => points(s, v),
        Native::StrSubstring(v) => points(s, v),
        Native::ListGet(v) => points(s, v),
        _ => true,
    }
}

/// All that an object holds points to its object.
pub open spec fn object_ok(s: State, o: ObjectV) -> bool {
    match o {
        ObjectV::List(items) => all_point(s, items),
        ObjectV::Instance { ty, fields } => bindings_point(s, fields),
        ObjectV::NativeFunc { func, .. } => native_ok(s, func),
        ObjectV::Struct { ctor, .. } => ctor is Some ==> native_ok(s, ctor->0),
        _ => true,
    }
}

/// Every value that the state holds, in a scope, among the globals or in an
/// object, points to an object of its kind.
pub open spec fn sound(s: State) -> bool {
    &&& s.heap.len() <= usize::MAX
    &&& forall|i: int| 0 <= i < s.heap.len() ==> object_ok(s, #[trigger] s.heap[i])
    &&& forall|i: int| 0 <= i < s.nodes.len() ==> points(s, (#[trigger] s.nodes[i]).value)
    &&& bindings_point(s, s.globals)
}

pub open spec fn same_kind(a: ObjectV, b: ObjectV) -> bool {
    match a {
        ObjectV::Str(_) => b is Str,
        ObjectV::List(_) => b is List,
        ObjectV::Struct { .. } => b is Struct,
        ObjectV::Instance { .. } => b is Instance,
        ObjectV::NativeFunc { .. } => b is NativeFunc,
        ObjectV::UserFunc { .. } => b is UserFunc,
    }
}

/// `t` has all objects of `s`, each of the kind that it has in `s`.
pub open spec fn grows(s: State, t: State) -> bool {
    &&& s.heap.len() <= t.heap.len()
    &&& forall|i: int| 0 <= i < s.heap.len() ==> same_kind(s.heap[i], #[trigger] t.heap[i])
}

/// What points to its object still does when the heap has grown.
pub proof fn lemma_points_on(s: State, t: State, v: Value)
    requires
        grows(s, t),
        points(s, v),
    ensures
        points(t, v),
{
}

proof fn lemma_all_point_on(s: State, t: State, vs: Seq<Value>)
    requires
        grows(s, t),
        all_point(s, vs),
    ensures
        all_point(t, vs),
{
    assert forall|i: int| 0 <= i < vs.len() implies points(t, #[trigger] vs[i]) by {
        lemma_points_on(s, t, vs[i]);
    }
}

proof fn lemma_bindings_on(s: State, t: State, bs: Seq<BindingV>)
    requires
        grows(s, t),
        bindings_point(s, bs),
    ensures
        bindings_point(t, bs),
{
    assert forall|i: int| 0 <= i < bs.len() implies points(t, (#[trigger] bs[i]).value) by {
        lemma_points_on(s, t, bs[i].value);
    }
}

proof fn lemma_object_on(s: State, t: State, o: ObjectV)
    requires
        grows(s, t),
        object_ok(s, o),
    ensures
        object_ok(t, o),
{
    match o {
        ObjectV::List(items) => {
            lemma_all_point_on(s, t, items);
        },
        ObjectV::Instance { fields, .. } => {
            lemma_bindings_on(s, t, fields);
        },
        _ => {},
    }
}

proof fn lemma_grows_trans(a: State, b: State, c: State)
    requires
        grows(a, b),
        grows(b, c),
    ensures
        grows(a, c),
{
    assert forall|i: int| 0 <= i < a.heap.len() implies same_kind(a.heap[i], #[trigger] c.heap[i]) by {
        assert(same_kind(a.heap[i], b.heap[i]));
        assert(same_kind(b.heap[i], c.heap[i]));
    }
}

/// A new object that is in order leaves the state sound, and its value
/// points to it.
pub proof fn lemma_stored(s: State, o: ObjectV)
    requires
        sound(s),
        object_ok(s, o),
        s.heap.len() < usize::MAX,
    ensures
        sound(s.store(o).0),
        grows(s, s.store(o).0),
        s.store(o).0.object(s.store(o).1) == Some(o),
        s.store(o).1 == s.heap.len(),
{
    let t = s.store(o).0;
    assert(grows(s, t));
    assert forall|i: int| 0 <= i < t.heap.len() implies object_ok(t, #[trigger] t.heap[i]) by {
        if i < s.heap.len() {
            assert(t.heap[i] == s.heap[i]);
            lemma_object_on(s, t, s.heap[i]);
        } else {
            lemma_object_on(s, t, o);
        }
    }
    assert forall|i: int| 0 <= i < t.nodes.len() implies points(t, (#[trigger] t.nodes[i]).value) by {
        lemma_points_on(s, t, s.nodes[i].value);
    }
    lemma_bindings_on(s, t, s.globals);
}

/// What is looked up in a sound state points to its object.
pub proof fn lemma_looked_up(s: State, env: Env, name: Seq<char>)
    requires
        sound(s),
    ensures
        s.lookup(env, name) matches Some(v) ==> points(s, v),
    decreases env.rank(),
{
    match env {
        Env::Chain(i) => {
            if i < s.nodes.len() && s.nodes[i as int].name != name && s.nodes[i as int].next.rank()
                < env.rank() {
                lemma_looked_up(s, s.nodes[i as int].next, name);
            }
        },
        Env::GlobalFence => {
            lemma_looked_up(s, Env::Global, name);
        },
        Env::Global => {
            lemma_find(s.globals, name, 0);
        },
    }
}

proof fn lemma_bound(s: State, bs: Seq<BindingV>, name: Seq<char>, value: Value)
    requires
        bindings_point(s, bs),
        points(s, value),
    ensures
        bindings_point(s, bind(bs, name, value)),
        bound(bs, name) matches Some(v) ==> points(s, v),
{
    lemma_find(bs, name, 0);
    let after = bind(bs, name, value);
    assert forall|i: int| 0 <= i < after.len() implies points(s, (#[trigger] after[i]).value) by {
        match find(bs, name, 0) {
            Some(k) => {
                if i != k {
                    assert(after[i] == bs[i]);
                }
            },
            None => {
                if i < bs.len() {
                    assert(after[i] == bs[i]);
                }
            },
        }
    }
}

/// A definition of a value that points to its object leaves the state
/// sound.
pub proof fn lemma_defined(s: State, env: Env, name: Seq<char>, value: Value)
    requires
        sound(s),
        points(s, value),
    ensures
        sound(s.define(env, name, value).0),
        s.define(env, name, value).0.heap == s.heap,
{
    let t = s.define(env, name, value).0;
    assert(grows(s, t));
    assert forall|i: int| 0 <= i < t.heap.len() implies object_ok(t, #[trigger] t.heap[i]) by {
        lemma_object_on(s, t, s.heap[i]);
    }
    match env {
        Env::Global => {
            lemma_bound(s, s.globals, name, value);
            lemma_bindings_on(s, t, t.globals);
        },
        _ => {
            assert forall|i: int| 0 <= i < t.nodes.len() implies points(
                t,
                (#[trigger] t.nodes[i]).value,
            ) by {
                if i < s.nodes.len() {
                    assert(t.nodes[i] == s.nodes[i]);
                    lemma_points_on(s, t, s.nodes[i].value);
                } else {
                    lemma_points_on(s, t, value);
                }
            }
            lemma_bindings_on(s, t, s.globals);
        },
    }
}

/// A definition is a step that keeps all objects.
proof fn lemma_define_step(s: State, env: Env, name: Seq<char>, value: Value)
    requires
        sound(s),
        points(s, value),
    ensures
        sound(s.define(env, name, value).0),
        grows(s, s.define(env, name, value).0),
{
    lemma_defined(s, env, name, value);
}

/// An assignment of a value that points to its object leaves the state
/// sound.
pub proof fn lemma_assigned(s: State, env: Env, name: Seq<char>, value: Value)
    requires
        sound(s),
        points(s, value),
        s.assign(env, name, value) is Some,
    ensures
        sound(s.assign(env, name, value)->0),
        s.assign(env, name, value)->0.heap == s.heap,
    decreases env.rank(),
{
    let t = s.assign(env, name, value)->0;
    match env {
        Env::Chain(i) => {
            if s.nodes[i as int].name != name {
                lemma_assigned(s, s.nodes[i as int].next, name, value);
            } else {
                assert(grows(s, t));
                assert forall|k: int| 0 <= k < t.heap.len() implies object_ok(
                    t,
                    #[trigger] t.heap[k],
                ) by {
                    lemma_object_on(s, t, s.heap[k]);
                }
                assert forall|k: int| 0 <= k < t.nodes.len() implies points(
                    t,
                    (#[trigger] t.nodes[k]).value,
                ) by {
                    if k != i {
                        assert(t.nodes[k] == s.nodes[k]);
                        lemma_points_on(s, t, s.nodes[k].value);
                    } else {
                        lemma_points_on(s, t, value);
                    }
                }
                lemma_bindings_on(s, t, s.globals);
            }
        },
        Env::GlobalFence => {
            lemma_assigned(s, Env::Global, name, value);
        },
        Env::Global => {
            lemma_find(s.globals, name, 0);
            let k = find(s.globals, name, 0)->0;
            assert(grows(s, t));
            assert forall|j: int| 0 <= j < t.heap.len() implies object_ok(t, #[trigger] t.heap[j]) by {
                lemma_object_on(s, t, s.heap[j]);
            }
            assert forall|j: int| 0 <= j < t.nodes.len() implies points(
                t,
                (#[trigger] t.nodes[j]).value,
            ) by {
                lemma_points_on(s, t, s.nodes[j].value);
            }
            assert forall|j: int| 0 <= j < t.globals.len() implies points(
                t,
                (#[trigger] t.globals[j]).value,
            ) by {
                if j != k {
                    assert(t.globals[j] == s.globals[j]);
                    lemma_points_on(s, t, s.globals[j].value);
                } else {
                    lemma_points_on(s, t, value);
                }
            }
        },
    }
}

/// Output leaves the state sound.
proof fn lemma_written(s: State, bytes: Seq<u8>)
    requires
        sound(s),
    ensures
        sound(s.write(bytes)),
        s.write(bytes).heap == s.heap,
{
    let t = s.write(bytes);
    assert(grows(s, t));
    assert forall|i: int| 0 <= i < t.heap.len() implies object_ok(t, #[trigger] t.heap[i]) by {
        lemma_object_on(s, t, s.heap[i]);
    }
    assert forall|i: int| 0 <= i < t.nodes.len() implies points(t, (#[trigger] t.nodes[i]).value) by {
        lemma_points_on(s, t, s.nodes[i].value);
    }
    lemma_bindings_on(s, t, s.globals);
}

/// A field set to a value that points to its object leaves the state
/// sound.
proof fn lemma_field_set(s: State, id: usize, name: Seq<char>, value: Value)
    requires
        sound(s),
        points(s, value),
    ensures
        sound(s.with_field(id, name, value)),
        grows(s, s.with_field(id, name, value)),
        s.with_field(id, name, value).heap.len() == s.heap.len(),
{
    let t = s.with_field(id, name, value);
    match s.object(id) {
        Some(ObjectV::Instance { ty, fields }) => {
            assert(grows(s, t)) by {
                assert forall|i: int| 0 <= i < s.heap.len() implies same_kind(
                    s.heap[i],
                    #[trigger] t.heap[i],
                ) by {
                    if i != id {
                        assert(t.heap[i] == s.heap[i]);
                    }
                }
            }
            lemma_bound(s, fields, name, value);
            assert forall|i: int| 0 <= i < t.heap.len() implies object_ok(t, #[trigger] t.heap[i]) by {
                if i != id {
                    assert(t.heap[i] == s.heap[i]);
                    lemma_object_on(s, t, s.heap[i]);
                } else {
                    lemma_bindings_on(s, t, bind(fields, name, value));
                }
            }
            assert forall|i: int| 0 <= i < t.nodes.len() implies points(
                t,
                (#[trigger] t.nodes[i]).value,
            ) by {
                lemma_points_on(s, t, s.nodes[i].value);
            }
            lemma_bindings_on(s, t, s.globals);
        },
        _ => {},
    }
}

/// The heap of `t` can be addressed.
pub open spec fn fits(t: State) -> bool {
    t.heap.len() <= usize::MAX
}

/// A step from `s` to `t` that keeps the objects, and keeps the state
/// sound as long as the heap can be addressed.
pub open spec fn step(s: State, t: State) -> bool {
    grows(s, t) && (fits(t) ==> sound(t))
}

/// A step that gives the value of `r`, which points to its object.
pub open spec fn value_step<E>(s: State, t: State, r: Result<Value, E>) -> bool {
    step(s, t) && (fits(t) ==> (r matches Ok(v) ==> points(t, v)))
}

proof fn lemma_store_step(s: State, o: ObjectV)
    requires
        sound(s),
        object_ok(s, o),
    ensures
        step(s, s.store(o).0),
        fits(s.store(o).0) ==> s.store(o).0.object(s.store(o).1) == Some(o),
{
    if s.heap.len() < usize::MAX {
        lemma_stored(s, o);
    }
    assert(grows(s, s.store(o).0));
}

proof fn lemma_printed(s: State, args: Seq<Value>, i: int)
    requires
        sound(s),
    ensures
        sound(printed(s, args, i)),
        printed(s, args, i).heap == s.heap,
    decreases args.len() - i,
{
    if 0 <= i < args.len() {
        let w = s.write(vstd::utf8::encode_utf8(crate::intrinsics::stringify(s, args[i])));
        lemma_written(s, vstd::utf8::encode_utf8(crate::intrinsics::stringify(s, args[i])));
        lemma_printed(w, args, i + 1);
    }
}

proof fn lemma_sum(s: State, l: Value, r: Value)
    requires
        sound(s),
    ensures
        value_step(s, sum(s, l, r).0, sum(s, l, r).1),
{
    match (l, r) {
        (Value::Str(a), Value::Str(b)) => match (s.text(a), s.text(b)) {
            (Some(x), Some(y)) => {
                lemma_store_step(s, ObjectV::Str(x + y));
            },
            _ => {},
        },
        _ => {},
    }
}

proof fn lemma_operate(s: State, op: TokenKind, l: Value, r: Value)
    requires
        sound(s),
    ensures
        value_step(s, operate(s, op, l, r).0, operate(s, op, l, r).1),
{
    lemma_sum(s, l, r);
}

proof fn lemma_native(s: State, f: Native, args: Seq<Value>)
    requires
        sound(s),
        native_ok(s, f),
        all_point(s, args),
    ensures
        value_step(s, call_native(s, f, args).0, call_native(s, f, args).1),
{
    lemma_printed(s, args, 0);
    match f {
        Native::Print => {},
        Native::Println => {
            lemma_written(printed(s, args, 0), seq![0x0au8]);
        },
        Native::Panic => {},
        Native::ListCtor => {
            lemma_store_step(s, ObjectV::List(args));
        },
        Native::StrGet(recv) => {
            if args.len() == 1 {
                match recv {
                    Value::Str(id) => {
                        if s.text(id) is Some {
                            match args[0] {
                                Value::Int(i) => {
                                    if !(i < 0 || i >= s.text(id)->0.len()) {
                                        lemma_store_step(
                                            s,
                                            ObjectV::Str(seq![s.text(id)->0[i as int]]),
                                        );
                                    }
                                },
                                _ => {},
                            }
                        }
                    },
                    _ => {},
                }
            }
        },
        Native::StrSubstring(recv) => {
            if args.len() == 2 {
                match recv {
                    Value::Str(id) => {
                        if s.text(id) is Some {
                            match (args[0], args[1]) {
                                (Value::Int(from), Value::Int(n)) => {
                                    if !(from < 0 || n < 0 || from + n > s.text(id)->0.len()) {
                                        lemma_store_step(
                                            s,
                                            ObjectV::Str(
                                                s.text(id)->0.subrange(from as int, from + n),
                                            ),
                                        );
                                    }
                                },
                                _ => {},
                            }
                        }
                    },
                    _ => {},
                }
            }
        },
        Native::ListGet(recv) => {
            if args.len() == 1 {
                match recv {
                    Value::List(id) => {
                        if s.items(id) is Some {
                            assert(object_ok(s, s.heap[id as int]));
                        }
                    },
                    _ => {},
                }
            }
        },
    }
}

proof fn lemma_field(s: State, obj: Value, field: Seq<char>)
    requires
        sound(s),
        points(s, obj),
    ensures
        step(s, lookup_field(s, obj, field).0),
        fits(lookup_field(s, obj, field).0) ==> (lookup_field(s, obj, field).1 matches Some(v)
            ==> points(lookup_field(s, obj, field).0, v)),
{
    match obj {
        Value::Str(id) => {
            lemma_store_step(s, ObjectV::NativeFunc { name: "get"@, func: Native::StrGet(obj) });
            lemma_store_step(
                s,
                ObjectV::NativeFunc { name: "substring"@, func: Native::StrSubstring(obj) },
            );
        },
        Value::List(id) => {
            lemma_store_step(s, ObjectV::NativeFunc { name: "get"@, func: Native::ListGet(obj) });
        },
        Value::Instance(id) => {
            match s.object(id) {
                Some(ObjectV::Instance { fields, .. }) => {
                    assert(object_ok(s, s.heap[id as int]));
                    lemma_find(fields, field, 0);
                },
                _ => {},
            }
        },
        _ => {},
    }
}

proof fn lemma_set_field(s: State, obj: Value, field: Seq<char>, value: Value)
    requires
        sound(s),
        points(s, value),
    ensures
        step(s, set_field(s, obj, field, value).0),
{
    match obj {
        Value::Instance(id) => {
            lemma_field_set(s, id, field, value);
        },
        _ => {},
    }
}

proof fn lemma_printed_heap(s: State, args: Seq<Value>, i: int)
    ensures
        printed(s, args, i).heap == s.heap,
    decreases args.len() - i,
{
    if 0 <= i < args.len() {
        lemma_printed_heap(
            s.write(vstd::utf8::encode_utf8(crate::intrinsics::stringify(s, args[i]))),
            args,
            i + 1,
        );
    }
}

proof fn lemma_native_len(s: State, f: Native, args: Seq<Value>)
    ensures
        s.heap.len() <= call_native(s, f, args).0.heap.len(),
{
    lemma_printed_heap(s, args, 0);
}

proof fn lemma_params_sound(s: State, params: Seq<Param>, args: Seq<Value>, i: int, env: Env)
    ensures
        bind_params(s, params, args, i, env).0.heap == s.heap,
        sound(s) && all_point(s, args) ==> sound(bind_params(s, params, args, i, env).0),
    decreases params.len() - i,
{
    if 0 <= i < params.len() && i < args.len() {
        let (s1, env1) = s.define(env, params[i].item.text@, args[i]);
        if sound(s) && all_point(s, args) {
            lemma_defined(s, env, params[i].item.text@, args[i]);
            assert(grows(s, s1));
            lemma_all_point_on(s, s1, args);
        }
        lemma_params_sound(s1, params, args, i + 1, env1);
    }
}

/// From `s` to `t` the heap does not shrink; and where `s` is sound and the
/// heap of `t` can be addressed, `t` has the objects of `s` and is sound.
pub open spec fn reach(s: State, t: State) -> bool {
    &&& s.heap.len() <= t.heap.len()
    &&& (sound(s) && fits(t)) ==> (grows(s, t) && sound(t))
}

/// The value of `r`, where there is one, points to its object in `t`.
pub open spec fn gives(s: State, t: State, r: Result<Value, crate::error::ErrorV>) -> bool {
    (sound(s) && fits(t)) ==> (r matches Ok(v) ==> points(t, v))
}

/// The value that `r` returns, where it does, points to its object in `t`.
pub open spec fn hands_back<T>(s: State, t: State, r: Result<T, Stop>) -> bool {
    (sound(s) && fits(t)) ==> (r matches Err(Stop::Return(v)) ==> points(t, v))
}

proof fn sound_expr(fuel: nat, s: State, e: Expr, env: Env, depth: nat)
    ensures
        reach(s, eval_expr(fuel, s, e, env, depth).0),
        gives(s, eval_expr(fuel, s, e, env, depth).0, eval_expr(fuel, s, e, env, depth).1),
    decreases fuel, 0int, 0int,
{
    reveal(eval_expr);
    reveal(eval_call);
    reveal(eval_binop);
    if fuel > 0 {
        let f = (fuel - 1) as nat;
        match e {
            Expr::Name { name } => {
                if sound(s) {
                    lemma_looked_up(s, env, name.text@);
                }
            },
            Expr::Str { value, .. } => {
                if sound(s) {
                    lemma_store_step(s, ObjectV::Str(value@));
                }
            },
            Expr::SelfExpr { .. } => {
                if sound(s) {
                    lemma_looked_up(s, env, "self"@);
                }
            },
            Expr::Call { func, args, .. } => {
                sound_call(f, s, *func, args@, crate::parser::span_of(e), env, depth);
            },
            Expr::Paren { inner, .. } => {
                sound_expr(f, s, *inner, env, depth);
            },
            Expr::BinOp { lhs, operator, rhs } => {
                sound_binop(f, s, *lhs, operator.kind, *rhs, crate::parser::span_of(e), env, depth);
            },
            Expr::Field { obj, field, .. } => {
                sound_expr(f, s, *obj, env, depth);
                let r = eval_expr(f, s, *obj, env, depth);
                match r.1 {
                    Ok(o) => {
                        if sound(r.0) && points(r.0, o) {
                            lemma_field(r.0, o, field.text@);
                        }
                        let t = lookup_field(r.0, o, field.text@).0;
                        if sound(s) && fits(t) {
                            lemma_grows_trans(s, r.0, t);
                        }
                    },
                    Err(_) => {},
                }
            },
            Expr::AssignVar { name, value, .. } => {
                sound_expr(f, s, *value, env, depth);
                let r = eval_expr(f, s, *value, env, depth);
                match r.1 {
                    Ok(v) => {
                        if r.0.assign(env, name.text@, v) is Some && sound(r.0) && points(r.0, v) {
                            lemma_assigned(r.0, env, name.text@, v);
                            let t = r.0.assign(env, name.text@, v)->0;
                            assert(grows(r.0, t));
                            if sound(s) {
                                lemma_grows_trans(s, r.0, t);
                            }
                        }
                        crate::theory::lemma_assign_heap(r.0, env, name.text@, v);
                    },
                    Err(_) => {},
                }
            },
            Expr::AssignField { obj, field, value, .. } => {
                sound_expr(f, s, *obj, env, depth);
                let r1 = eval_expr(f, s, *obj, env, depth);
                sound_expr(f, r1.0, *value, env, depth);
                let r2 = eval_expr(f, r1.0, *value, env, depth);
                match (r1.1, r2.1) {
                    (Ok(o), Ok(v)) => {
                        let t = set_field(r2.0, o, field.text@, v).0;
                        if sound(s) && fits(t) {
                            lemma_grows_trans(s, r1.0, r2.0);
                            lemma_set_field(r2.0, o, field.text@, v);
                            lemma_grows_trans(s, r2.0, t);
                            lemma_points_on(r2.0, t, v);
                        }
                    },
                    _ => {
                        if sound(s) && fits(r2.0) {
                            lemma_grows_trans(s, r1.0, r2.0);
                        }
                    },
                }
            },
            _ => {},
        }
    }
}

proof fn sound_args(
    fuel: nat,
    s: State,
    args: Seq<Arg>,
    i: int,
    env: Env,
    depth: nat,
    acc: Seq<Value>,
)
    ensures
        reach(s, eval_args(fuel, s, args, i, env, depth, acc).0),
        (sound(s) && all_point(s, acc) && fits(eval_args(fuel, s, args, i, env, depth, acc).0)) ==> (
        eval_args(fuel, s, args, i, env, depth, acc).1 matches Ok(vs) ==> all_point(
            eval_args(fuel, s, args, i, env, depth, acc).0,
            vs,
        )),
    decreases fuel, 1int, args.len() - i,
{
    reveal(eval_args);
    reveal(eval_expr);
    if 0 <= i < args.len() {
        sound_expr(fuel, s, args[i].item, env, depth);
        let r = eval_expr(fuel, s, args[i].item, env, depth);
        match r.1 {
            Ok(v) => {
                sound_args(fuel, r.0, args, i + 1, env, depth, acc.push(v));
                let t = eval_args(fuel, r.0, args, i + 1, env, depth, acc.push(v)).0;
                if sound(s) && fits(t) {
                    lemma_grows_trans(s, r.0, t);
                    if all_point(s, acc) {
                        lemma_all_point_on(s, r.0, acc);
                        assert forall|k: int| 0 <= k < acc.push(v).len() implies points(
                            r.0,
                            #[trigger] acc.push(v)[k],
                        ) by {
                            if k < acc.len() {
                                assert(acc.push(v)[k] == acc[k]);
                            }
                        }
                    }
                }
            },
            Err(_) => {},
        }
    }
}

proof fn sound_call_user(fuel: nat, s: State, id: usize, args: Seq<Value>, span: Span, depth: nat)
    ensures
        s.heap.len() <= call_user(fuel, s, id, args, span, depth).0.heap.len(),
        (sound(s) && all_point(s, args) && fits(call_user(fuel, s, id, args, span, depth).0)) ==> {
            let t = call_user(fuel, s, id, args, span, depth).0;
            &&& grows(s, t)
            &&& sound(t)
            &&& call_user(fuel, s, id, args, span, depth).1 matches Ok(v) ==> points(t, v)
        },
    decreases fuel, 3int, 0int,
{
    reveal(call_user);
    reveal(eval_block);
    match s.object(id) {
        Some(ObjectV::UserFunc { def, env: captured, .. }) => {
            if args.len() == def.params@.len() {
                lemma_params_sound(s, def.params@, args, 0, captured.fenced());
                let bound = bind_params(s, def.params@, args, 0, captured.fenced());
                sound_block(fuel, bound.0, def.body.contents.stmts@, bound.1, depth + 1);
                let t = eval_block(fuel, bound.0, def.body.contents.stmts@, bound.1, depth + 1).0;
                if sound(s) && all_point(s, args) && fits(t) {
                    assert(grows(s, bound.0));
                    lemma_grows_trans(s, bound.0, t);
                }
            }
        },
        _ => {},
    }
}

proof fn lemma_native_on(s: State, t: State, f: Native)
    requires
        grows(s, t),
        native_ok(s, f),
    ensures
        native_ok(t, f),
{
}

proof fn sound_call(
    fuel: nat,
    s: State,
    func: Expr,
    args: Seq<Arg>,
    span: Span,
    env: Env,
    depth: nat,
)
    ensures
        reach(s, eval_call(fuel, s, func, args, span, env, depth).0),
        gives(
            s,
            eval_call(fuel, s, func, args, span, env, depth).0,
            eval_call(fuel, s, func, args, span, env, depth).1,
        ),
    decreases fuel, 4int, 0int,
{
    reveal(eval_call);
    reveal(eval_expr);
    reveal(eval_args);
    reveal(call_user);
    sound_expr(fuel, s, func, env, depth);
    let r = eval_expr(fuel, s, func, env, depth);
    sound_args(fuel, r.0, args, 0, env, depth, Seq::empty());
    let a = eval_args(fuel, r.0, args, 0, env, depth, Seq::empty());
    let t = eval_call(fuel, s, func, args, span, env, depth).0;
    match r.1 {
        Ok(callee) => {
            match callee {
                Value::NativeFunc(id) => match r.0.object(id) {
                    Some(ObjectV::NativeFunc { func: f, .. }) => {
                        match a.1 {
                            Ok(vals) => {
                                lemma_native_len(a.0, f, vals);
                                if sound(s) && fits(t) {
                                    assert(object_ok(r.0, r.0.heap[id as int]));
                                    lemma_native_on(r.0, a.0, f);
                                    lemma_native(a.0, f, vals);
                                    lemma_grows_trans(s, r.0, a.0);
                                    lemma_grows_trans(s, a.0, t);
                                }
                            },
                            Err(_) => {
                                if sound(s) && fits(t) {
                                    lemma_grows_trans(s, r.0, a.0);
                                }
                            },
                        }
                    },
                    _ => {},
                },
                Value::Struct(id) => match r.0.object(id) {
                    Some(ObjectV::Struct { ctor: Some(f), .. }) => {
                        match a.1 {
                            Ok(vals) => {
                                lemma_native_len(a.0, f, vals);
                                if sound(s) && fits(t) {
                                    assert(object_ok(r.0, r.0.heap[id as int]));
                                    lemma_native_on(r.0, a.0, f);
                                    lemma_native(a.0, f, vals);
                                    lemma_grows_trans(s, r.0, a.0);
                                    lemma_grows_trans(s, a.0, t);
                                }
                            },
                            Err(_) => {
                                if sound(s) && fits(t) {
                                    lemma_grows_trans(s, r.0, a.0);
                                }
                            },
                        }
                    },
                    Some(ObjectV::Struct { ctor: None, .. }) => {
                        if args.len() == 0 && sound(r.0) {
                            lemma_store_step(
                                r.0,
                                ObjectV::Instance { ty: id, fields: Seq::empty() },
                            );
                            if sound(s) && fits(t) {
                                lemma_grows_trans(s, r.0, t);
                            }
                        }
                    },
                    _ => {},
                },
                Value::UserFunc(id) => {
                    match a.1 {
                        Ok(vals) => {
                            sound_call_user(fuel, a.0, id, vals, span, depth);
                            if sound(s) && fits(t) {
                                lemma_grows_trans(s, r.0, a.0);
                                lemma_grows_trans(s, a.0, t);
                            }
                        },
                        Err(_) => {
                            if sound(s) && fits(t) {
                                lemma_grows_trans(s, r.0, a.0);
                            }
                        },
                    }
                },
                _ => {},
            }
        },
        Err(_) => {},
    }
}

proof fn sound_cond(fuel: nat, s: State, e: Expr, env: Env, depth: nat)
    ensures
        reach(s, eval_cond(fuel, s, e, env, depth).0),
    decreases fuel, 1int, 0int,
{
    reveal(eval_cond);
    reveal(eval_expr);
    sound_expr(fuel, s, e, env, depth);
}

proof fn sound_binop(
    fuel: nat,
    s: State,
    lhs: Expr,
    op: TokenKind,
    rhs: Expr,
    span: Span,
    env: Env,
    depth: nat,
)
    ensures
        reach(s, eval_binop(fuel, s, lhs, op, rhs, span, env, depth).0),
        gives(
            s,
            eval_binop(fuel, s, lhs, op, rhs, span, env, depth).0,
            eval_binop(fuel, s, lhs, op, rhs, span, env, depth).1,
        ),
    decreases fuel, 2int, 0int,
{
    reveal(eval_binop);
    reveal(eval_cond);
    reveal(eval_expr);
    let t = eval_binop(fuel, s, lhs, op, rhs, span, env, depth).0;
    if op == TokenKind::And || op == TokenKind::Or {
        sound_cond(fuel, s, lhs, env, depth);
        let c = eval_cond(fuel, s, lhs, env, depth);
        sound_cond(fuel, c.0, rhs, env, depth);
        let d = eval_cond(fuel, c.0, rhs, env, depth);
        if sound(s) && fits(t) && t == d.0 {
            lemma_grows_trans(s, c.0, d.0);
        }
    } else {
        sound_expr(fuel, s, lhs, env, depth);
        let l = eval_expr(fuel, s, lhs, env, depth);
        sound_expr(fuel, l.0, rhs, env, depth);
        let r = eval_expr(fuel, l.0, rhs, env, depth);
        match (l.1, r.1) {
            (Ok(a), Ok(b)) => {
                if sound(r.0) {
                    lemma_operate(r.0, op, a, b);
                }
                if sound(s) && fits(t) {
                    lemma_grows_trans(s, l.0, r.0);
                    lemma_grows_trans(s, r.0, t);
                }
            },
            _ => {
                if sound(s) && fits(r.0) {
                    lemma_grows_trans(s, l.0, r.0);
                }
            },
        }
    }
}

proof fn sound_if_cond(fuel: nat, s: State, c: IfCond, env: Env, depth: nat)
    ensures
        reach(s, eval_if_cond(fuel, s, c, env, depth).0),
    decreases fuel, 2int, 0int,
{
    reveal(eval_if_cond);
    reveal(eval_cond);
    reveal(eval_expr);
    match c {
        IfCond::Expr(e) => {
            sound_cond(fuel, s, e, env, depth);
        },
        IfCond::TypeTest { name, ty, value, .. } => {
            sound_expr(fuel, s, ty, env, depth);
            let r1 = eval_expr(fuel, s, ty, env, depth);
            match r1.1 {
                Ok(Value::Struct(expected)) => {
                    sound_expr(fuel, r1.0, value, env, depth);
                    let r2 = eval_expr(fuel, r1.0, value, env, depth);
                    match r2.1 {
                        Ok(v) => {
                            let t = r2.0.define(env.fenced(), name.text@, v).0;
                            assert(t.heap == r2.0.heap);
                            if sound(s) && fits(r2.0) {
                                lemma_grows_trans(s, r1.0, r2.0);
                                lemma_define_step(r2.0, env.fenced(), name.text@, v);
                                lemma_grows_trans(s, r2.0, t);
                            }
                        },
                        Err(_) => {
                            if sound(s) && fits(r2.0) {
                                lemma_grows_trans(s, r1.0, r2.0);
                            }
                        },
                    }
                },
                _ => {},
            }
        },
    }
}

proof fn sound_if(
    fuel: nat,
    s: State,
    c: IfCond,
    body: Seq<Stmt>,
    rest: IfTail,
    env: Env,
    depth: nat,
)
    ensures
        reach(s, eval_if(fuel, s, c, body, rest, env, depth).0),
        hands_back(
            s,
            eval_if(fuel, s, c, body, rest, env, depth).0,
            eval_if(fuel, s, c, body, rest, env, depth).1,
        ),
    decreases fuel, 3int, 0int,
{
    reveal(eval_if);
    reveal(eval_if_cond);
    reveal(eval_block);
    reveal(eval_if_tail);
    sound_if_cond(fuel, s, c, env, depth);
    let r = eval_if_cond(fuel, s, c, env, depth);
    let t = eval_if(fuel, s, c, body, rest, env, depth).0;
    match r.1 {
        Ok((true, inner)) => {
            sound_block(fuel, r.0, body, inner, depth);
        },
        Ok((false, _)) => {
            sound_if_tail(fuel, r.0, rest, env, depth);
        },
        Err(_) => {},
    }
    if sound(s) && fits(t) {
        lemma_grows_trans(s, r.0, t);
    }
}

proof fn sound_if_tail(fuel: nat, s: State, rest: IfTail, env: Env, depth: nat)
    ensures
        reach(s, eval_if_tail(fuel, s, rest, env, depth).0),
        hands_back(
            s,
            eval_if_tail(fuel, s, rest, env, depth).0,
            eval_if_tail(fuel, s, rest, env, depth).1,
        ),
    decreases fuel, 0int, 0int,
{
    reveal(eval_if_tail);
    reveal(eval_block);
    reveal(eval_if);
    if fuel > 0 {
        match rest {
            IfTail::End => {},
            IfTail::Else { body, .. } => {
                sound_block((fuel - 1) as nat, s, body.contents.stmts@, env, depth);
            },
            IfTail::ElseIf { cond, body, tail, .. } => {
                sound_if((fuel - 1) as nat, s, cond, body.contents.stmts@, *tail, env, depth);
            },
        }
    }
}

proof fn sound_block(fuel: nat, s: State, stmts: Seq<Stmt>, env: Env, depth: nat)
    ensures
        reach(s, eval_block(fuel, s, stmts, env, depth).0),
        hands_back(
            s,
            eval_block(fuel, s, stmts, env, depth).0,
            eval_block(fuel, s, stmts, env, depth).1,
        ),
    decreases fuel, 2int, 0int,
{
    reveal(eval_block);
    reveal(eval_stmts);
    sound_stmts(fuel, s, stmts, 0, env.fenced(), depth);
}

proof fn sound_stmts(fuel: nat, s: State, stmts: Seq<Stmt>, i: int, env: Env, depth: nat)
    ensures
        reach(s, eval_stmts(fuel, s, stmts, i, env, depth).0),
        hands_back(
            s,
            eval_stmts(fuel, s, stmts, i, env, depth).0,
            eval_stmts(fuel, s, stmts, i, env, depth).1,
        ),
    decreases fuel, 1int, stmts.len() - i,
{
    reveal(eval_stmts);
    reveal(eval_statement);
    if 0 <= i < stmts.len() {
        sound_statement(fuel, s, stmts[i], env, depth);
        let r = eval_statement(fuel, s, stmts[i], env, depth);
        match r.1 {
            Ok(env1) => {
                sound_stmts(fuel, r.0, stmts, i + 1, env1, depth);
                let t = eval_stmts(fuel, r.0, stmts, i + 1, env1, depth).0;
                if sound(s) && fits(t) {
                    lemma_grows_trans(s, r.0, t);
                }
            },
            Err(_) => {},
        }
    }
}

proof fn sound_statement(fuel: nat, s: State, stmt: Stmt, env: Env, depth: nat)
    ensures
        reach(s, eval_statement(fuel, s, stmt, env, depth).0),
        hands_back(
            s,
            eval_statement(fuel, s, stmt, env, depth).0,
            eval_statement(fuel, s, stmt, env, depth).1,
        ),
    decreases fuel, 0int, 0int,
{
    reveal(eval_statement);
    reveal(eval_if);
    reveal(eval_expr);
    reveal(eval_for);
    reveal(eval_while);
    reveal(eval_block);
    let t = eval_statement(fuel, s, stmt, env, depth).0;
    if fuel > 0 {
        let f = (fuel - 1) as nat;
        match stmt {
            Stmt::If { cond, body, tail, .. } => {
                sound_if(f, s, cond, body.contents.stmts@, tail, env, depth);
            },
            Stmt::Expr { expr, .. } => {
                sound_expr(f, s, expr, env, depth);
            },
            Stmt::For { name, iterable, body, .. } => {
                sound_expr(f, s, iterable, env, depth);
                let r = eval_expr(f, s, iterable, env, depth);
                match r.1 {
                    Ok(Value::List(id)) => {
                        if r.0.items(id) is Some {
                            let items = r.0.items(id)->0;
                            sound_for(f, r.0, items, 0, name.text@, body.contents.stmts@, env, depth);
                            if sound(s) && fits(t) {
                                assert(object_ok(r.0, r.0.heap[id as int]));
                                lemma_grows_trans(s, r.0, t);
                            }
                        }
                    },
                    _ => {},
                }
            },
            Stmt::While { while_tok, cond, body } => {
                sound_while(f, s, cond, body.contents.stmts@, while_tok.span, env, depth);
            },
            Stmt::Return { value, .. } => {
                sound_expr(f, s, value, env, depth);
            },
            Stmt::Let { name, value, .. } => {
                sound_expr(f, s, value, env, depth);
                let r = eval_expr(f, s, value, env, depth);
                match r.1 {
                    Ok(v) => {
                        if sound(r.0) && points(r.0, v) {
                            lemma_defined(r.0, env, name.text@, v);
                        }
                        if sound(s) && fits(t) {
                            assert(grows(r.0, t));
                            lemma_grows_trans(s, r.0, t);
                        }
                    },
                    Err(_) => {},
                }
            },
            Stmt::FnDef(def) => {
                if sound(s) {
                    let o = ObjectV::UserFunc { name: def.name.text@, def, env };
                    lemma_store_step(s, o);
                    let made = s.store(o);
                    if fits(made.0) {
                        lemma_defined(made.0, env, def.name.text@, Value::UserFunc(made.1));
                        assert(grows(made.0, t));
                        lemma_grows_trans(s, made.0, t);
                    }
                }
            },
            Stmt::StructDef { name, fns, .. } => {
                if sound(s) && fns@.len() == 0 {
                    let o = ObjectV::Struct { name: name.text@, ctor: None };
                    lemma_store_step(s, o);
                    let made = s.store(o);
                    if fits(made.0) {
                        lemma_defined(made.0, env, name.text@, Value::Struct(made.1));
                        assert(grows(made.0, t));
                        lemma_grows_trans(s, made.0, t);
                    }
                }
            },
            Stmt::Block(b) => {
                sound_block(f, s, b.contents.stmts@, env, depth);
            },
            _ => {},
        }
    }
}

proof fn sound_for(
    fuel: nat,
    s: State,
    items: Seq<Value>,
    i: int,
    name: Seq<char>,
    body: Seq<Stmt>,
    env: Env,
    depth: nat,
)
    ensures
        s.heap.len() <= eval_for(fuel, s, items, i, name, body, env, depth).0.heap.len(),
        (sound(s) && all_point(s, items) && fits(
            eval_for(fuel, s, items, i, name, body, env, depth).0,
        )) ==> {
            let t = eval_for(fuel, s, items, i, name, body, env, depth).0;
            &&& grows(s, t)
            &&& sound(t)
            &&& eval_for(fuel, s, items, i, name, body, env, depth).1 matches Err(Stop::Return(v))
                ==> points(t, v)
        },
    decreases fuel, 3int, items.len() - i,
{
    reveal(eval_for);
    reveal(eval_block);
    if 0 <= i < items.len() {
        let round = s.define(env, name, items[i]);
        if sound(s) && all_point(s, items) {
            lemma_defined(s, env, name, items[i]);
            assert(grows(s, round.0));
            lemma_all_point_on(s, round.0, items);
        }
        sound_block(fuel, round.0, body, round.1, depth);
        let r = eval_block(fuel, round.0, body, round.1, depth);
        match r.1 {
            Ok(_) => {
                sound_for(fuel, r.0, items, i + 1, name, body, env, depth);
                let t = eval_for(fuel, r.0, items, i + 1, name, body, env, depth).0;
                if sound(s) && all_point(s, items) && fits(t) {
                    lemma_all_point_on(round.0, r.0, items);
                    lemma_grows_trans(s, round.0, r.0);
                    lemma_grows_trans(s, r.0, t);
                }
            },
            Err(_) => {
                if sound(s) && all_point(s, items) && fits(r.0) {
                    lemma_grows_trans(s, round.0, r.0);
                }
            },
        }
    }
}

proof fn sound_while(
    fuel: nat,
    s: State,
    cond: Expr,
    body: Seq<Stmt>,
    at: Span,
    env: Env,
    depth: nat,
)
    ensures
        reach(s, eval_while(fuel, s, cond, body, at, env, depth).0),
        hands_back(
            s,
            eval_while(fuel, s, cond, body, at, env, depth).0,
            eval_while(fuel, s, cond, body, at, env, depth).1,
        ),
    decreases fuel, 0int, 0int,
{
    reveal(eval_while);
    reveal(eval_cond);
    reveal(eval_block);
    if fuel > 0 {
        let f = (fuel - 1) as nat;
        sound_cond(f, s, cond, env, depth);
        let c = eval_cond(f, s, cond, env, depth);
        sound_block(f, c.0, body, env, depth);
        let b = eval_block(f, c.0, body, env, depth);
        sound_while(f, b.0, cond, body, at, env, depth);
        let t = eval_while(fuel, s, cond, body, at, env, depth).0;
        if sound(s) && fits(t) {
            match c.1 {
                Ok(true) => {
                    lemma_grows_trans(s, c.0, b.0);
                    match b.1 {
                        Ok(_) => {
                            lemma_grows_trans(s, b.0, t);
                        },
                        Err(_) => {},
                    }
                },
                _ => {},
            }
        }
    }
}

proof fn sound_run(fuel: nat, s: State, stmts: Seq<Stmt>, i: int, env: Env)
    ensures
        reach(s, run_from(fuel, s, stmts, i, env).0),
    decreases stmts.len() - i,
{
    if 0 <= i < stmts.len() {
        sound_statement(fuel, s, stmts[i], env, 0);
        let r = eval_statement(fuel, s, stmts[i], env, 0);
        match r.1 {
            Ok(env1) => {
                sound_run(fuel, r.0, stmts, i + 1, env1);
                let t = run_from(fuel, r.0, stmts, i + 1, env1).0;
                if sound(s) && fits(t) {
                    lemma_grows_trans(s, r.0, t);
                }
            },
            Err(_) => {},
        }
    }
}

/// The state in which every program starts is sound.
pub proof fn initial_state_is_sound()
    ensures
        sound(initial_state()),
{
    let s0 = State {
        heap: Seq::empty(),
        nodes: Seq::empty(),
        globals: Seq::empty(),
        output: Seq::empty(),
    };
    assert(sound(s0));
    let s1 = lemma_type(s0, "Nil"@, None);
    let s2 = lemma_type(s1, "Int"@, None);
    let s3 = lemma_type(s2, "Bool"@, None);
    let s4 = lemma_type(s3, "Str"@, None);
    let s5 = lemma_type(s4, "List"@, Some(Native::ListCtor));
    let s6 = lemma_type(s5, "Struct"@, None);
    let s7 = lemma_type(s6, "Fn"@, None);
    let s8 = lemma_builtin(s7, "print"@, Native::Print);
    let s9 = lemma_builtin(s8, "println"@, Native::Println);
    let s10 = lemma_builtin(s9, "panic"@, Native::Panic);
}

proof fn lemma_type(s: State, name: Seq<char>, ctor: Option<Native>) -> (t: State)
    requires
        sound(s),
        s.heap.len() < 100,
        ctor is Some ==> native_ok(s, ctor->0),
    ensures
        t == crate::semantics::with_type(s, name, ctor),
        sound(t),
        t.heap.len() == s.heap.len() + 1,
{
    let o = ObjectV::Struct { name, ctor };
    lemma_stored(s, o);
    let made = s.store(o);
    lemma_defined(made.0, Env::Global, name, Value::Struct(made.1));
    crate::semantics::with_type(s, name, ctor)
}

proof fn lemma_builtin(s: State, name: Seq<char>, func: Native) -> (t: State)
    requires
        sound(s),
        s.heap.len() < 100,
        native_ok(s, func),
    ensures
        t == crate::semantics::with_native(s, name, func),
        sound(t),
        t.heap.len() == s.heap.len() + 1,
{
    let o = ObjectV::NativeFunc { name, func };
    lemma_stored(s, o);
    let made = s.store(o);
    lemma_defined(made.0, Env::Global, name, Value::NativeFunc(made.1));
    crate::semantics::with_native(s, name, func)
}

/// Every run keeps the state sound: as long as the heap can be addressed,
/// all that a program has made during a run points to objects of its kind,
/// and no object has changed its kind.
pub proof fn runs_stay_sound(fuel: nat, stmts: Seq<Stmt>)
    ensures
        fits(run_from(fuel, initial_state(), stmts, 0, Env::Global).0) ==> sound(
            run_from(fuel, initial_state(), stmts, 0, Env::Global).0,
        ) && grows(initial_state(), run_from(fuel, initial_state(), stmts, 0, Env::Global).0),
{
    initial_state_is_sound();
    sound_run(fuel, initial_state(), stmts, 0, Env::Global);
}

/// In a sound state every expression has a value that points to its
/// object, and leaves the state sound.
pub proof fn values_point(fuel: nat, s: State, e: Expr, env: Env, depth: nat)
    requires
        sound(s),
        fits(eval_expr(fuel, s, e, env, depth).0),
    ensures
        sound(eval_expr(fuel, s, e, env, depth).0),
        grows(s, eval_expr(fuel, s, e, env, depth).0),
        eval_expr(fuel, s, e, env, depth).1 matches Ok(v) ==> points(
            eval_expr(fuel, s, e, env, depth).0,
            v,
        ),
{
    sound_expr(fuel, s, e, env, depth);
}

} // verus!
