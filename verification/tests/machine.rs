use tontuna::ast::{Expr, Token};
use tontuna::intrinsics::Order;
use tontuna::lexer::TokenKind;
use tontuna::machine::Evaluator;
use tontuna::value::{Env, Object, Value};
use tontuna::{Pos, Span};

fn name(text: &str) -> String {
    text.to_owned()
}

#[test]
fn a_new_machine_has_the_built_in_names() {
    let machine = Evaluator::new();
    assert_eq!(machine.lookup(Env::Global, &name("Nil")), Some(Value::Struct(0)));
    assert_eq!(machine.lookup(Env::Global, &name("Int")), Some(Value::Struct(1)));
    assert_eq!(machine.lookup(Env::Global, &name("Bool")), Some(Value::Struct(2)));
    assert_eq!(machine.lookup(Env::Global, &name("Str")), Some(Value::Struct(3)));
    assert_eq!(machine.lookup(Env::Global, &name("List")), Some(Value::Struct(4)));
    assert_eq!(machine.lookup(Env::Global, &name("Struct")), Some(Value::Struct(5)));
    assert_eq!(machine.lookup(Env::Global, &name("Fn")), Some(Value::Struct(6)));
    assert_eq!(machine.lookup(Env::Global, &name("print")), Some(Value::NativeFunc(7)));
    assert_eq!(machine.lookup(Env::Global, &name("println")), Some(Value::NativeFunc(8)));
    assert_eq!(machine.lookup(Env::Global, &name("panic")), Some(Value::NativeFunc(9)));
    assert_eq!(machine.lookup(Env::Global, &name("other")), None);
    assert_eq!(machine.heap.len(), 10);
    assert!(machine.output.is_empty());
    assert_eq!(machine.value_type(Value::Nil), 0);
    assert_eq!(machine.value_type(Value::Int(3)), 1);
    assert_eq!(machine.value_type(Value::Bool(true)), 2);
    assert_eq!(machine.value_type(Value::Struct(1)), 5);
    assert_eq!(machine.value_type(Value::NativeFunc(7)), 6);
}

#[test]
fn a_fence_keeps_definitions_off_the_globals() {
    let mut machine = Evaluator::new();
    assert_eq!(Env::Global.with_fence(), Env::GlobalFence);
    assert_eq!(Env::GlobalFence.with_fence(), Env::GlobalFence);
    assert_eq!(Env::Chain(3).with_fence(), Env::Chain(3));

    let globals = machine.globals.len();
    let inner = machine.define(Env::GlobalFence, &name("x"), Value::Int(1));
    assert_eq!(inner, Env::Chain(0));
    assert_eq!(machine.globals.len(), globals);
    assert_eq!(machine.lookup(inner, &name("x")), Some(Value::Int(1)));
    assert_eq!(machine.lookup(Env::GlobalFence, &name("x")), None);
    assert_eq!(machine.lookup(Env::Global, &name("x")), None);
    assert_eq!(machine.lookup(inner, &name("print")), Some(Value::NativeFunc(7)));

    let same = machine.define(Env::Global, &name("g"), Value::Int(2));
    assert_eq!(same, Env::Global);
    assert_eq!(machine.globals.len(), globals + 1);
    assert_eq!(machine.lookup(inner, &name("g")), Some(Value::Int(2)));
    machine.define(Env::Global, &name("g"), Value::Int(3));
    assert_eq!(machine.globals.len(), globals + 1);
    assert_eq!(machine.lookup(Env::Global, &name("g")), Some(Value::Int(3)));
}

#[test]
fn a_definition_shadows_and_an_assignment_is_shared() {
    let mut machine = Evaluator::new();
    let outer = machine.define(Env::GlobalFence, &name("x"), Value::Int(1));
    let left = machine.define(outer, &name("y"), Value::Int(2));
    let right = machine.define(outer, &name("x"), Value::Int(3));
    assert_eq!(machine.lookup(left, &name("x")), Some(Value::Int(1)));
    assert_eq!(machine.lookup(right, &name("x")), Some(Value::Int(3)));
    assert_eq!(machine.lookup(right, &name("y")), None);

    assert!(machine.set(left, &name("x"), Value::Int(10)));
    assert_eq!(machine.lookup(outer, &name("x")), Some(Value::Int(10)));
    assert_eq!(machine.lookup(left, &name("x")), Some(Value::Int(10)));
    assert_eq!(machine.lookup(right, &name("x")), Some(Value::Int(3)));

    assert!(machine.set(right, &name("x"), Value::Int(30)));
    assert_eq!(machine.lookup(outer, &name("x")), Some(Value::Int(10)));
    assert_eq!(machine.lookup(right, &name("x")), Some(Value::Int(30)));

    assert!(!machine.set(left, &name("z"), Value::Nil));
    assert!(machine.set(left, &name("print"), Value::Nil));
    assert_eq!(machine.lookup(Env::Global, &name("print")), Some(Value::Nil));
}

#[test]
fn a_dangling_environment_has_no_names() {
    let mut machine = Evaluator::new();
    assert_eq!(machine.lookup(Env::Chain(5), &name("print")), None);
    assert!(!machine.set(Env::Chain(5), &name("print"), Value::Nil));
}

#[test]
fn values_compare_as_the_language_says() {
    let mut machine = Evaluator::new();
    let a = machine.store_str(name("abc"));
    let b = machine.store_str(name("abd"));
    let c = machine.store_str(name("abc"));
    let short = machine.store_str(name("ab"));
    assert_eq!(machine.compare(a, b), Some(Order::Less));
    assert_eq!(machine.compare(b, a), Some(Order::Greater));
    assert_eq!(machine.compare(a, c), Some(Order::Equal));
    assert_eq!(machine.compare(short, a), Some(Order::Less));
    assert_eq!(machine.compare(a, short), Some(Order::Greater));
    assert_eq!(machine.compare(Value::Int(1), Value::Int(2)), Some(Order::Less));
    assert_eq!(machine.compare(Value::Int(2), Value::Int(2)), Some(Order::Equal));
    assert_eq!(machine.compare(Value::Bool(false), Value::Bool(true)), Some(Order::Less));
    assert_eq!(machine.compare(Value::Nil, Value::Nil), Some(Order::Equal));
    assert_eq!(machine.compare(Value::Nil, Value::Int(0)), None);
    assert_eq!(machine.compare(Value::Int(0), a), None);
    assert_eq!(machine.compare(Value::List(1), Value::List(1)), Some(Order::Equal));
    assert_eq!(machine.compare(Value::List(1), Value::List(2)), None);
    assert_eq!(machine.compare(Value::Struct(1), Value::Instance(1)), None);
    assert_eq!(machine.less(a, b), Value::Bool(true));
    assert_eq!(machine.less_eq(a, c), Value::Bool(true));
    assert_eq!(machine.greater(a, b), Value::Bool(false));
    assert_eq!(machine.greater_eq(b, a), Value::Bool(true));
    assert_eq!(machine.eq(a, c), Value::Bool(true));
    assert_eq!(machine.not_eq(a, c), Value::Bool(false));
    assert_eq!(machine.not_eq(Value::Nil, Value::Int(1)), Value::Bool(true));
}

#[test]
fn strings_live_on_the_heap() {
    let mut machine = Evaluator::new();
    let a = machine.store_str(name("ab"));
    let b = machine.store_str(name("cd"));
    let both = machine.add(a, b).unwrap();
    assert_eq!(machine.stringify(both), "abcd");
    assert_ne!(both, a);
    assert_eq!(machine.stringify(a), "ab");
    assert_eq!(machine.kind_name(both), "Str");
    match both {
        Value::Str(id) => match &machine.heap[id] {
            Object::Str(text) => assert_eq!(text, "abcd"),
            other => panic!("{:?}", other),
        },
        other => panic!("{:?}", other),
    }
    assert_eq!(machine.sub(Value::Int(5), Value::Int(7)).unwrap(), Value::Int(-2));
    assert_eq!(machine.mul(Value::Int(5), Value::Int(7)).unwrap(), Value::Int(35));
    assert_eq!(machine.div(Value::Int(-7), Value::Int(2)).unwrap(), Value::Int(-3));
    assert_eq!(machine.div(Value::Int(1), Value::Int(0)).unwrap_err(), "division by zero");
    assert_eq!(machine.add(Value::Int(i64::MAX), Value::Int(1)).unwrap_err(), "integer overflow");
    assert_eq!(machine.mul(Value::Int(i64::MIN), Value::Int(-1)).unwrap_err(), "integer overflow");
    assert_eq!(machine.div(Value::Int(i64::MIN), Value::Int(-1)).unwrap_err(), "integer overflow");
    assert_eq!(machine.div(Value::Int(i64::MIN), Value::Int(1)).unwrap(), Value::Int(i64::MIN));
    assert_eq!(machine.stringify(Value::Int(i64::MIN)), "-9223372036854775808");
}

#[test]
fn printing_writes_bytes() {
    let mut machine = Evaluator::new();
    let s = machine.store_str(name("h\u{e9}"));
    machine.print(&vec![s, Value::Int(-5), Value::Nil]);
    machine.println(&vec![Value::Bool(true)]);
    assert_eq!(machine.output, "h\u{e9}-5niltrue\n".as_bytes());
    assert_eq!(machine.panic(&vec![]), "panic");
    assert_eq!(machine.panic(&vec![s, Value::Int(1)]), "panic: h\u{e9}1");
}

#[test]
fn an_operator_that_is_none_is_an_error() {
    let at = |start: u32, end: u32, kind: TokenKind| Token {
        span: Span::new(Pos::new(start), Pos::new(end)),
        kind,
    };
    let expr = Expr::BinOp {
        lhs: Box::new(Expr::Number { tok: at(0, 1, TokenKind::Number), value: 1 }),
        operator: at(2, 3, TokenKind::Dot),
        rhs: Box::new(Expr::Number { tok: at(4, 5, TokenKind::Number), value: 2 }),
    };
    let mut machine = Evaluator::new();
    let e = machine.eval_expr(100, &expr, Env::Global, 0).unwrap_err();
    assert_eq!(e.message, "invalid operator");
    assert_eq!(e.span, Span::new(Pos::new(0), Pos::new(5)));
}

#[test]
fn a_value_that_points_nowhere_is_harmless() {
    let mut machine = Evaluator::new();
    assert_eq!(machine.stringify(Value::Str(99)), "");
    assert_eq!(machine.kind_name(Value::Instance(99)), "Instance");
    assert_eq!(machine.lookup_field(Value::Str(99), &name("len")), None);
    assert_eq!(machine.lookup_field(Value::Instance(99), &name("x")), None);
    assert_eq!(machine.compare(Value::Str(99), Value::Str(99)), None);
    assert_eq!(
        machine.string_get(Value::Str(99), Value::Int(0)).unwrap_err(),
        "first argument must be Str but was Str"
    );
    assert_eq!(
        machine.list_get(Value::Int(1), Value::Int(0)).unwrap_err(),
        "first argument must be List but was Int"
    );
}
