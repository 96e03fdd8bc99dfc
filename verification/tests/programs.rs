use tontuna::{eval, eval_with_fuel, parse, Error, Pos, Span};

fn run(source: &str) -> (Result<(), Error>, String) {
    let ast = match parse(source) {
        Ok(ast) => ast,
        Err(e) => panic!("parse error: {} at {:?}", e.message, e.span),
    };
    let mut out = Vec::new();
    let result = eval(&ast, &mut out);
    (result, String::from_utf8(out).unwrap())
}

fn prints(source: &str, expected: &str) {
    let (result, out) = run(source);
    if let Err(e) = &result {
        panic!("runtime error: {} at {:?}", e.message, e.span);
    }
    assert_eq!(out, expected, "{}", source);
}

fn fails(source: &str, message: &str, start: u32, end: u32) {
    let (result, _) = run(source);
    let e = result.unwrap_err();
    assert_eq!(e.message, message, "{}", source);
    assert_eq!(e.span, Span::new(Pos::new(start), Pos::new(end)), "{}", source);
}

#[test]
fn arithmetic_binds_as_usual() {
    prints("println(2 * 3 + 1);", "7\n");
    prints("println(1 + 2 * 3 - 4 / 2);", "5\n");
    prints("println((1 + 2) * 3);", "9\n");
    prints("println(10 - 3 - 2);", "5\n");
    prints("println(100 / 10 / 5);", "2\n");
}

#[test]
fn division_rounds_towards_zero() {
    prints("println(7 / 2);", "3\n");
    prints("println((0 - 7) / 2);", "-3\n");
    prints("println(7 / (0 - 2));", "-3\n");
    prints("println((0 - 7) / (0 - 2));", "3\n");
}

#[test]
fn numbers_print_in_decimal() {
    prints("println(0);", "0\n");
    prints("println(9223372036854775807);", "9223372036854775807\n");
    prints("println(0 - 9223372036854775807 - 1);", "-9223372036854775808\n");
    prints("println(1000000);", "1000000\n");
}

#[test]
fn overflow_is_an_error() {
    fails("9223372036854775807 + 1;", "integer overflow", 0, 23);
    fails("(0 - 9223372036854775807 - 1) / (0 - 1);", "integer overflow", 0, 39);
    fails("4611686018427387904 * 2;", "integer overflow", 0, 23);
    fails("0 - 9223372036854775807 - 2;", "integer overflow", 0, 27);
}

#[test]
fn comparisons() {
    prints("println(1 < 2, 2 < 1, 1 <= 1, 1 >= 2, 2 > 1, 1 == 1, 1 != 1);", "truefalsetruefalsetruetruefalse\n");
    prints("println(\"a\" < \"b\", \"b\" < \"a\", \"a\" < \"ab\", \"\" == \"\", \"a\" != \"a\");", "truefalsetruetruefalse\n");
    prints("println(false < true, true < false, true == true);", "truefalsetrue\n");
    prints("println(nil == nil, nil != nil, nil < nil, nil <= nil);", "truefalsefalsetrue\n");
}

#[test]
fn values_of_two_kinds_never_compare() {
    prints("println(1 == \"1\", 1 != \"1\", 1 < \"1\", 1 >= \"1\");", "falsetruefalsefalse\n");
    prints("println(nil == false, nil == 0);", "falsefalse\n");
}

#[test]
fn objects_are_equal_to_themselves_only() {
    prints("struct A {} let a = A(); let b = A(); println(a == a, a == b, a != b);", "truefalsetrue\n");
    prints("let l = List(1); let m = List(1); println(l == l, l == m);", "truefalse\n");
    prints("fn f() {} fn g() {} println(f == f, f == g);", "truefalse\n");
    prints("struct A {} struct B {} println(A == A, A == B);", "truefalse\n");
    prints("let s = \"x\"; println(s.get == s.get);", "false\n");
    prints("let s = \"x\"; let g = s.get; println(g == g);", "true\n");
    prints("println(print == print, print == println);", "truefalse\n");
}

#[test]
fn two_structs_of_one_name_are_two_types() {
    prints(
        "struct A {} let one = A; let a = one(); { struct A {} if let x: A = a { println(\"same\"); } else { println(\"other\"); } }",
        "other\n",
    );
}

#[test]
fn strings() {
    prints("println(\"a\" + \"b\" + \"c\");", "abc\n");
    prints("println(\"h\u{e9}llo\".len);", "5\n");
    prints("println(\"h\u{e9}llo\".get(1));", "\u{e9}\n");
    prints("println(\"h\u{e9}llo\".substring(1, 3));", "\u{e9}ll\n");
    prints("println(\"abc\".substring(3, 0) == \"\");", "true\n");
    prints("println(\"line\\nbreak\\ttab \\\"q\\\" \\\\\");", "line\nbreak\ttab \"q\" \\\n");
    prints("print(\"\");", "");
}

#[test]
fn string_functions_check_their_arguments() {
    fails("\"abc\".get(3);", "index out of bounds", 0, 12);
    fails("\"abc\".get(0 - 1);", "index out of bounds", 0, 16);
    fails("\"abc\".get(\"0\");", "second argument must be Int but was Str", 0, 14);
    fails("\"abc\".get();", "get expects 1 argument, got 0", 0, 11);
    fails("\"abc\".get(1, 2);", "get expects 1 argument, got 2", 0, 15);
    fails("\"abc\".substring(2, 2);", "index out of bounds", 0, 21);
    fails("\"abc\".substring(0 - 1, 2);", "index out of bounds", 0, 25);
    fails("\"abc\".substring(1, nil);", "third argument must be Int but was nil", 0, 23);
    fails("\"abc\".substring(true, 1);", "second argument must be Int but was Bool", 0, 24);
    fails("\"abc\".substring(1);", "substring expects 2 arguments, got 1", 0, 18);
}

#[test]
fn lists() {
    prints("let l = List(1, \"two\", nil); println(l.len, l.get(0), l.get(1), l.get(2));", "31twonil\n");
    prints("println(List().len);", "0\n");
    prints("for x in List(1, 2, 3) { print(x * x, \" \"); }", "1 4 9 ");
    fails("List(1).get(1);", "index out of bounds", 0, 14);
    fails("List(1).get(nil);", "second argument must be Int but was nil", 0, 16);
    fails("List(1).get();", "get expects 1 argument, got 0", 0, 13);
    fails("for x in 3 { }", "cannot iterate over Int", 9, 10);
}

#[test]
fn values_print_as_themselves() {
    prints("println(nil, true, false);", "niltruefalse\n");
    prints("struct Foo {} println(Foo, Foo());", "<struct Foo><Foo>\n");
    prints("fn f() {} println(f, print, List(1));", "<fn f><native print><list>\n");
    prints("println(Int, List, \"x\".get);", "<struct Int><struct List><native get>\n");
}

#[test]
fn conditions() {
    prints("if 1 < 2 { print(\"a\"); } else { print(\"b\"); }", "a");
    prints("if 2 < 1 { print(\"a\"); } else { print(\"b\"); }", "b");
    prints("if false { print(1); } else if false { print(2); } else if true { print(3); } else { print(4); }", "3");
    prints("if false { print(1); } else if false { print(2); }", "");
    fails("if 1 { }", "condition evaluated to a Int", 3, 4);
    fails("if false { } else if nil { }", "condition evaluated to a nil", 21, 24);
}

#[test]
fn type_tests() {
    prints("if let n: Int = 5 { println(n + 1); }", "6\n");
    prints("if let n: Str = 5 { println(1); } else { println(2); }", "2\n");
    prints("if let n: Nil = nil { println(1); }", "1\n");
    prints("if let n: Bool = true { println(1); }", "1\n");
    prints("if let n: List = List() { println(1); }", "1\n");
    prints("if let n: Struct = Int { println(1); }", "1\n");
    prints("fn f() {} if let n: Fn = f { println(1); }", "1\n");
    prints("if let n: Fn = print { println(1); }", "1\n");
    prints("struct A {} struct B {} if let x: A = B() { print(1); } else if let x: B = B() { print(2); }", "2");
    fails("if let n: 5 = 5 { }", "type evaluated to Int", 10, 11);
}

#[test]
fn the_name_of_a_type_test_lives_in_the_body_only() {
    fails("if let n: Int = 5 { } println(n);", "undefined variable", 30, 31);
    fails("if let n: Int = nil { } else { println(n); }", "undefined variable", 39, 40);
}

#[test]
fn while_loops() {
    prints("let i = 0; while i < 3 { print(i); i = i + 1; }", "012");
    prints("while false { print(1); }", "");
    fails("while 1 { }", "condition evaluated to a Int", 6, 7);
}

#[test]
fn operators_check_their_operands() {
    fails("1 + \"a\";", "can't add Int and Str", 0, 7);
    fails("\"a\" + 1;", "can't add Str and Int", 0, 7);
    fails("nil - 1;", "can't subtract nil and Int", 0, 7);
    fails("true * false;", "can't multiply Bool and Bool", 0, 12);
    fails("List() / 1;", "can't divide List and Int", 0, 10);
    fails("struct P {} P() + 1;", "can't add P and Int", 12, 19);
    fails("1 && true;", "condition evaluated to a Int", 0, 1);
    fails("true && 1;", "condition evaluated to a Int", 8, 9);
    fails("false || nil;", "condition evaluated to a nil", 9, 12);
}

#[test]
fn the_right_side_is_left_alone_where_the_left_side_decides() {
    prints("println(false && panic(\"no\"));", "false\n");
    prints("println(true || panic(\"no\"));", "true\n");
    prints("println(false && print(\"side\"), true || print(\"effect\"));", "falsetrue\n");
    prints("println(true && false, true && true, false || false, false || true);", "falsetruefalsetrue\n");
    fails("true && panic(\"yes\");", "panic: yes", 8, 20);
    fails("false || panic();", "panic", 9, 16);
}

#[test]
fn panic_joins_its_arguments() {
    fails("panic(\"a\", 1, nil);", "panic: a1nil", 0, 18);
}

#[test]
fn names() {
    fails("x;", "undefined variable", 0, 1);
    fails("x = 1;", "undefined variable", 0, 1);
    fails("self;", "undefined variable", 0, 4);
    prints("let x = 1; let x = x + 1; println(x);", "2\n");
    prints("let x = 1; println(x = 5, x);", "55\n");
}

#[test]
fn what_a_block_defines_is_gone_at_its_end() {
    fails("{ let y = 2; } println(y);", "undefined variable", 23, 24);
    fails("if true { let y = 2; } println(y);", "undefined variable", 31, 32);
    fails("fn f() { let y = 2; } f(); println(y);", "undefined variable", 35, 36);
    prints("let x = 1; { let x = 2; print(x); } println(x);", "21\n");
}

#[test]
fn what_a_block_assigns_stays() {
    prints("let x = 1; { let y = 2; x = 5; } println(x);", "5\n");
    prints("let x = 1; { { x = x + 1; } x = x * 10; } println(x);", "20\n");
    prints("let x = 1; { let x = 2; x = 3; } println(x);", "1\n");
    prints("let n = 0; for i in List(1, 2, 3) { n = n + i; } println(n);", "6\n");
}

#[test]
fn a_function_sees_where_it_was_defined() {
    prints(
        "let f = nil; { let secret = 42; fn get() { return secret; } f = get; } let secret = 1; println(f());",
        "42\n",
    );
    prints(
        "fn make() { let n = 0; fn next() { n = n + 1; return n; } return next; } let a = make(); let b = make(); println(a(), a(), b(), a());",
        "1213\n",
    );
    fails(
        "fn f() { return hidden; } { let hidden = 1; f(); }",
        "undefined variable",
        16,
        22,
    );
}

#[test]
fn functions() {
    prints("fn f() { } println(f());", "nil\n");
    prints("fn f(a) { if a { return 1; } return 2; } println(f(true), f(false));", "12\n");
    prints("fn fact(n) { if n < 2 { return 1; } return n * fact(n - 1); } println(fact(10));", "3628800\n");
    prints("fn f(a, b,) { return a - b; } println(f(5, 3,));", "2\n");
    prints("fn f() { for x in List(1, 2, 3) { if x == 2 { return x; } } } println(f());", "2\n");
    prints("fn f() { while true { return 7; } } println(f());", "7\n");
    fails("fn add(a, b) { return a + b; } add(1);", "add expects 2 args, got 1", 31, 37);
    fails("fn f() { } f(1, 2);", "f expects 0 args, got 2", 11, 18);
    fails("return 1;", "cannot use return outside of a function", 0, 6);
    fails("{ return 1; }", "cannot use return outside of a function", 2, 8);
    fails("fn f() { return 1 / 0; } f();", "division by zero", 16, 21);
}

#[test]
fn what_is_no_function_cannot_be_called() {
    fails("1();", "Int cannot be called", 0, 3);
    fails("nil(1);", "nil cannot be called", 0, 6);
    fails("\"s\"();", "Str cannot be called", 0, 5);
    fails("struct A {} A()();", "A cannot be called", 12, 17);
    fails("List()(panic());", "List cannot be called", 0, 15);
}

#[test]
fn structs_and_instances() {
    prints("struct P {} let p = P(); p.x = 1; p.y = p.x + 1; println(p.x, p.y);", "12\n");
    prints("struct P {} let p = P(); let q = p; q.x = 1; println(p.x);", "1\n");
    prints("struct P {} let p = P(); p.x = 1; p.x = 2; println(p.x);", "2\n");
    prints("struct P {} let p = P(); println(p.x = 3);", "3\n");
    fails("struct P {} P(1);", "P expects 0 args, got 1", 12, 16);
    fails("struct P {} P().x;", "P does not have field `x`", 16, 17);
    fails("1.x;", "Int does not have field `x`", 2, 3);
    fails("\"s\".size;", "Str does not have field `size`", 4, 8);
    fails("List().first;", "List does not have field `first`", 7, 12);
    fails("1.x = 2;", "Int cannot have fields", 2, 3);
    fails("nil.x = 2;", "nil cannot have fields", 4, 5);
    fails("\"s\".len = 2;", "Str fields cannot be modified", 4, 7);
    fails("List().len = 2;", "List fields cannot be modified", 7, 10);
    fails("struct P { fn f() { } }", "struct member functions are not supported", 7, 8);
}

#[test]
fn an_instance_of_a_built_in_type() {
    prints("let i = Int(); println(i); if let x: Int = i { println(\"is\"); }", "<Int>\nis\n");
}

#[test]
fn top_level_definitions_are_globals() {
    prints("fn f() { return g(); } fn g() { return 1; } println(f());", "1\n");
    prints("fn f() { return later; } let later = 3; println(f());", "3\n");
    prints("for i in List(1, 2) { } println(i);", "2\n");
}

#[test]
fn output_stays_where_a_run_fails() {
    let (result, out) = run("print(1); print(2); x; print(3);");
    assert_eq!(result.unwrap_err().message, "undefined variable");
    assert_eq!(out, "12");
}

#[test]
fn output_goes_behind_what_is_there() {
    let ast = parse("print(\"b\");").unwrap();
    let mut out = b"a".to_vec();
    eval(&ast, &mut out).unwrap();
    assert_eq!(out, b"ab");
}

#[test]
fn the_budget_ends_every_run() {
    let ast = parse("while true { }").unwrap();
    let mut out = Vec::new();
    let e = eval_with_fuel(&ast, &mut out, 1000).unwrap_err();
    assert_eq!(e.message, "evaluation budget exhausted");
    assert_eq!(e.span, Span::new(Pos::new(6), Pos::new(10)));

    let ast = parse("println(1 + 2);").unwrap();
    let mut out = Vec::new();
    let e = eval_with_fuel(&ast, &mut out, 0).unwrap_err();
    assert_eq!(e.message, "evaluation budget exhausted");
    assert_eq!(e.span, Span::new(Pos::new(0), Pos::new(14)));
    let e = eval_with_fuel(&ast, &mut out, 3).unwrap_err();
    assert_eq!(e.message, "evaluation budget exhausted");
    assert!(eval_with_fuel(&ast, &mut out, 5).is_ok());
    assert_eq!(out, b"3\n");
}

#[test]
fn deep_recursion_runs_out_of_budget() {
    let ast = parse("fn f(n) { return f(n + 1); } f(0);").unwrap();
    let mut out = Vec::new();
    let e = eval_with_fuel(&ast, &mut out, 200).unwrap_err();
    assert_eq!(e.message, "evaluation budget exhausted");
}

#[test]
fn comments_among_code_do_nothing() {
    prints("# a note\nprintln(3);\n# > println(4);\n# more\n", "3\n");
    prints("let x = 1;\n  # about x\nprintln(x);", "1\n");
}

#[test]
fn code_among_prose_runs() {
    prints("An introduction.\n\n> println(1);\n\nMore prose, with > and # in it.\n> println(2);\n", "1\n2\n");
    prints("> let x = 1;\nprose\n> println(x);\n> # a comment in the code\n> println(x + 1);", "1\n2\n");
    prints(">fn f() {\n>  return 5;\n>}\n>println(f());", "5\n");
}

#[test]
fn a_longer_program() {
    prints(
        "A document that counts words.\n\
         \n\
         > struct Counter {}\n\
         > fn counter() {\n\
         >     let c = Counter();\n\
         >     c.total = 0;\n\
         >     c.longest = \"\";\n\
         >     return c;\n\
         > }\n\
         \n\
         Each word goes through `see`.\n\
         \n\
         > fn see(c, word) {\n\
         >     c.total = c.total + 1;\n\
         >     # the longest word so far wins\n\
         >     if word.len > c.longest.len {\n\
         >         c.longest = word;\n\
         >     }\n\
         > }\n\
         > let c = counter();\n\
         > for w in List(\"a\", \"literate\", \"file\") {\n\
         >     see(c, w);\n\
         > }\n\
         > println(c.total, \" words, longest: \", c.longest);\n\
         > let i = 0;\n\
         > let initials = \"\";\n\
         > while i < 3 {\n\
         >     initials = initials + List(\"a\", \"literate\", \"file\").get(i).get(0);\n\
         >     i = i + 1;\n\
         > }\n\
         > println(initials);\n",
        "3 words, longest: literate\nalf\n",
    );
}

#[test]
fn a_larger_budget_gives_the_same_run() {
    let ast = parse(
        "fn fib(n) { if n < 2 { return n; } return fib(n - 1) + fib(n - 2); } \
         let i = 0; while i < 10 { print(fib(i), \" \"); i = i + 1; }",
    )
    .unwrap();
    let mut small = Vec::new();
    assert!(eval_with_fuel(&ast, &mut small, 60).is_ok());
    let mut large = Vec::new();
    assert!(eval_with_fuel(&ast, &mut large, 60_000).is_ok());
    let mut default = Vec::new();
    assert!(eval(&ast, &mut default).is_ok());
    assert_eq!(small, b"0 1 1 2 3 5 8 13 21 34 ");
    assert_eq!(small, large);
    assert_eq!(small, default);
}
