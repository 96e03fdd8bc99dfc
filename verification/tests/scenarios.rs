use tontuna::ast::Stmt;
use tontuna::machine::Evaluator;
use tontuna::value::{Env, Value};
use tontuna::{eval, parse, Error, Pos, Span};

fn run(source: &str) -> (Result<(), Error>, String) {
    let ast = match parse(source) {
        Ok(ast) => ast,
        Err(e) => panic!("parse error: {} at {:?}", e.message, e.span),
    };
    let mut out = Vec::new();
    let result = eval(&ast, &mut out);
    (result, String::from_utf8(out).unwrap())
}

fn span(start: u32, end: u32) -> Span {
    Span::new(Pos::new(start), Pos::new(end))
}

#[test]
fn println_follows_precedence() {
    let (result, out) = run("println(1 + 2 * 3);");
    assert!(result.is_ok());
    assert_eq!(out, "7\n");
}

#[test]
fn division_by_zero_is_an_error() {
    let (result, out) = run("1 / 0;");
    let e = result.unwrap_err();
    assert_eq!(e.message, "division by zero");
    assert_eq!(e.span, span(0, 5));
    assert_eq!(out, "");
}

#[test]
fn mixed_markers_are_refused() {
    let e = parse("# prose\n> code\n").unwrap_err();
    assert_eq!(e.message, "inconsistent file mode");
    assert_eq!(e.span, span(8, 9));
}

#[test]
fn type_test_against_own_struct() {
    let (result, out) = run("struct Foo {} if let t: Foo = Foo() { println(\"yes\"); }");
    assert!(result.is_ok());
    assert_eq!(out, "yes\n");
}

#[test]
fn type_test_against_other_type() {
    let (result, out) = run("struct Foo {} if let t: Int = Foo() { println(\"yes\"); }");
    assert!(result.is_ok());
    assert_eq!(out, "");
}

#[test]
fn function_call_returns() {
    let (result, out) = run("fn add(a, b) { return a + b; } println(add(2, 3));");
    assert!(result.is_ok());
    assert_eq!(out, "5\n");
}

#[test]
fn let_then_expression() {
    let (result, out) = run("let x = 1; x");
    assert!(result.is_ok());
    assert_eq!(out, "");

    let ast = parse("let x = 1; x").unwrap();
    let program = ast.program();
    assert_eq!(program.stmts.len(), 2);
    let mut machine = Evaluator::new();
    assert!(machine.run_program(1000, program).is_ok());
    assert_eq!(machine.lookup(Env::Global, &"x".to_owned()), Some(Value::Int(1)));
    assert!(machine.output.is_empty());
    match &program.stmts[1] {
        Stmt::Expr { expr, .. } => {
            assert_eq!(machine.eval_expr(1000, expr, Env::Global, 0).unwrap(), Value::Int(1));
        }
        other => panic!("{:?}", other),
    }
}
