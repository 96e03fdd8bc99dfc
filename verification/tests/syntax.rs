use tontuna::ast::{Expr, Stmt, CommentElem};
use tontuna::lexer::TokenKind;
use tontuna::tree::{is_code, stmt_children};
use tontuna::{parse, Pos, Span};

fn span(start: u32, end: u32) -> Span {
    Span::new(Pos::new(start), Pos::new(end))
}

fn refused(source: &str, message: &str, start: u32, end: u32) {
    match parse(source) {
        Ok(_) => panic!("{:?} parses", source),
        Err(e) => {
            assert_eq!(e.message, message, "{:?}", source);
            assert_eq!(e.span, span(start, end), "{:?}", source);
        }
    }
}

fn accepted(source: &str) {
    if let Err(e) = parse(source) {
        panic!("{:?}: {} at {:?}", source, e.message, e.span);
    }
}

#[test]
fn the_empty_document_parses() {
    let ast = parse("").unwrap();
    assert!(ast.program().stmts.is_empty());
    assert!(ast.program().code_markers.is_empty());
    assert_eq!(ast.source(), "");
    accepted("\n\n   \n");
}

#[test]
fn every_statement_form_parses() {
    accepted("let x = 1;");
    accepted("x = y = 2;");
    accepted("a.b.c = 1;");
    accepted("f(1, 2,)(3).g.h();");
    accepted("if a { } else if b { } else { }");
    accepted("if let t: a.T = v { }");
    accepted("for x in xs { x; }");
    accepted("while a < b { }");
    accepted("fn f() { return nil; }");
    accepted("fn f(a, b) { } fn g(a,) { }");
    accepted("struct S { } struct T { fn a() { } fn b(x) { } }");
    accepted("{ { } { x; } }");
    accepted("(((1)));");
    accepted("self.x;");
    accepted("a || b && c == d < e + f * g.h;");
}

#[test]
fn the_last_statement_may_lack_its_semicolon() {
    accepted("x");
    accepted("let x = 1; x");
    accepted("1 + 2");
    refused("{ x }", "unexpected token", 4, 5);
    refused("x y", "unexpected token", 2, 3);
    refused("let x = 1", "unexpected end of input", 8, 9);
    refused("fn f() { return 1 }", "unexpected token", 18, 19);
}

#[test]
fn unexpected_tokens() {
    refused(")", "unexpected token", 0, 1);
    refused("let = 1;", "unexpected token", 4, 5);
    refused("let x : int = 1;\n 12345", "unexpected token", 6, 7);
    refused("let x 1;", "unexpected token", 6, 7);
    refused("1 + ;", "unexpected token", 4, 5);
    refused("f(1 2);", "unexpected token", 4, 5);
    refused("f(,);", "unexpected token", 2, 3);
    refused("a.1;", "unexpected token", 2, 3);
    refused("if x y", "unexpected token", 5, 6);
    refused("for x of y { }", "unexpected token", 6, 8);
    refused("fn (a) { }", "unexpected token", 3, 4);
    refused("fn f(a b) { }", "unexpected token", 7, 8);
    refused("fn f(1) { }", "unexpected token", 5, 6);
    refused("struct S { let x = 1; }", "unexpected token", 11, 14);
    refused("}", "unexpected token", 0, 1);
    refused("if x { } else 1;", "unexpected token", 14, 15);
    refused("x # y;", "unexpected token", 2, 3);
}

#[test]
fn the_end_of_the_text_is_an_error_at_the_last_token() {
    refused("(", "unexpected end of input", 0, 1);
    refused("f(1", "unexpected end of input", 2, 3);
    refused("{ x;", "unexpected end of input", 3, 4);
    refused("if x", "unexpected end of input", 3, 4);
    refused("let", "unexpected end of input", 0, 3);
    refused("fn f(", "unexpected end of input", 4, 5);
    refused("1 +", "unexpected end of input", 2, 3);
}

#[test]
fn what_is_no_token_is_refused() {
    refused("let x = @;", "invalid token", 8, 9);
    refused("x ! y;", "invalid token", 2, 3);
    refused("x = \"open;", "invalid token", 4, 5);
    refused("\u{e9};", "invalid token", 0, 2);
}

#[test]
fn numbers_must_be_digits_that_fit() {
    accepted("9223372036854775807;");
    accepted("007;");
    refused("9223372036854775808;", "invalid number", 0, 19);
    refused("x = 12ab;", "invalid number", 4, 8);
    refused("1_000;", "invalid number", 0, 5);
}

#[test]
fn escapes_must_be_known() {
    accepted("\"\\n\\t\\r\\0\\\\\\\"\\'\";");
    refused("\"\\q\";", "invalid string literal", 0, 4);
    refused("x = \"a\\u\";", "invalid string literal", 4, 9);
}

#[test]
fn only_names_and_fields_are_assigned_to() {
    refused("1 = 2;", "invalid assignment target", 0, 1);
    refused("a + b = c;", "invalid assignment target", 0, 5);
    refused("f() = 1;", "invalid assignment target", 0, 3);
    refused("(a) = 1;", "invalid assignment target", 0, 3);
    refused("a = b + c = d;", "invalid assignment target", 4, 9);
}

#[test]
fn a_comment_stands_where_a_statement_may() {
    accepted("x;\n# note\ny;");
    accepted("{\n# note\n}");
    accepted("fn f() {\n  # first\n  # second\n  return 1;\n}");
    refused("let x =\n# note\n1;", "unexpected comment", 8, 9);
    refused("f(\n  # note\n);", "unexpected comment", 5, 6);
}

#[test]
fn errors_inside_nested_code_are_found() {
    refused("# prose\n# > let = 1;\n", "unexpected token", 16, 17);
    refused("prose\n> 1 +\nprose", "unexpected end of input", 10, 11);
    refused("> x;\n> # note\n> # > (\n", "unexpected end of input", 20, 21);
}

#[test]
fn mixed_markers_fail_at_the_first_that_disagrees() {
    refused("# a\n> b\n", "inconsistent file mode", 4, 5);
    refused("> a\n\n  # b\n# c", "inconsistent file mode", 7, 8);
    refused("x;\n# a\ny;\n> b\n> c\n", "inconsistent file mode", 10, 11);
    accepted("# a\n# > b;\n# > # c\n");
    accepted("> a;\n> # b\n> # > c;\n");
    accepted("x < y;\n# a");
}

#[test]
fn operators_group_to_the_left_but_assignment() {
    let ast = parse("a - b - c;").unwrap();
    match &ast.program().stmts[0] {
        Stmt::Expr { expr: Expr::BinOp { lhs, operator, rhs }, .. } => {
            assert_eq!(operator.span, span(6, 7));
            assert!(matches!(**lhs, Expr::BinOp { .. }));
            assert!(matches!(**rhs, Expr::Name { .. }));
        }
        other => panic!("{:?}", other),
    }
    let ast = parse("a = b = c;").unwrap();
    match &ast.program().stmts[0] {
        Stmt::Expr { expr: Expr::AssignVar { name, value, .. }, .. } => {
            assert_eq!(name.text, "a");
            assert!(matches!(**value, Expr::AssignVar { .. }));
        }
        other => panic!("{:?}", other),
    }
}

#[test]
fn calls_and_fields_bind_tightest() {
    let ast = parse("a * b.c;").unwrap();
    match &ast.program().stmts[0] {
        Stmt::Expr { expr: Expr::BinOp { lhs, rhs, .. }, .. } => {
            assert!(matches!(**lhs, Expr::Name { .. }));
            assert!(matches!(**rhs, Expr::Field { .. }));
        }
        other => panic!("{:?}", other),
    }
    let ast = parse("a + b.c(d).e;").unwrap();
    match &ast.program().stmts[0] {
        Stmt::Expr { expr, .. } => {
            assert_eq!(expr.span(), span(0, 12));
            match expr {
                Expr::BinOp { rhs, .. } => match &**rhs {
                    Expr::Field { obj, field, .. } => {
                        assert_eq!(field.text, "e");
                        assert!(matches!(**obj, Expr::Call { .. }));
                    }
                    other => panic!("{:?}", other),
                },
                other => panic!("{:?}", other),
            }
        }
        other => panic!("{:?}", other),
    }
}

#[test]
fn spans_cover_expressions() {
    let ast = parse("  f(1,\n 2) ;").unwrap();
    match &ast.program().stmts[0] {
        Stmt::Expr { expr, semi } => {
            assert_eq!(expr.span(), span(2, 10));
            assert_eq!(semi.span, span(11, 12));
            assert_eq!(semi.kind, TokenKind::Semicolon);
        }
        other => panic!("{:?}", other),
    }
    let ast = parse("(x)").unwrap();
    match &ast.program().stmts[0] {
        Stmt::Expr { expr, semi } => {
            assert_eq!(expr.span(), span(0, 3));
            assert_eq!(semi.span, span(3, 3));
        }
        other => panic!("{:?}", other),
    }
}

#[test]
fn conditions_have_spans() {
    let ast = parse("if a == b { } else if let t: T = f(x) { }").unwrap();
    match &ast.program().stmts[0] {
        Stmt::If { cond, tail, .. } => {
            assert_eq!(cond.span(), span(3, 9));
            match tail {
                tontuna::ast::IfTail::ElseIf { cond, .. } => assert_eq!(cond.span(), span(22, 37)),
                other => panic!("{:?}", other),
            }
        }
        other => panic!("{:?}", other),
    }
}

#[test]
fn a_comment_keeps_the_layout_of_its_lines() {
    let source = "x;\n# one\n# two\n# > code();\n#   > more();\n# three\ny;\n";
    let ast = parse(source).unwrap();
    let stmts = &ast.program().stmts;
    assert_eq!(stmts.len(), 3);
    let comment = match &stmts[1] {
        Stmt::Comment(c) => c,
        other => panic!("{:?}", other),
    };
    let markers: Vec<Span> = comment.markers.iter().map(|t| t.span).collect();
    assert_eq!(markers, vec![span(3, 4), span(9, 10), span(15, 16), span(27, 28), span(41, 42)]);
    assert!(comment.markers.iter().all(|t| t.kind == TokenKind::CommentMarker));
    assert_eq!(comment.elements.len(), 3);
    match &comment.elements[0] {
        CommentElem::Text(t) => {
            assert_eq!(t.span, span(4, 14));
            assert_eq!(t.kind, TokenKind::CommentText);
            assert_eq!(&source[t.span.source_range()], " one\n# two");
        }
        other => panic!("{:?}", other),
    }
    match &comment.elements[1] {
        CommentElem::Code { markers, code } => {
            let markers: Vec<Span> = markers.iter().map(|t| t.span).collect();
            assert_eq!(markers, vec![span(17, 18), span(31, 32)]);
            assert_eq!(code.stmts.len(), 2);
        }
        other => panic!("{:?}", other),
    }
    match &comment.elements[2] {
        CommentElem::Text(t) => assert_eq!(&source[t.span.source_range()], " three"),
        other => panic!("{:?}", other),
    }
}

#[test]
fn a_document_of_prose_keeps_its_code_markers() {
    let source = "Title\n> a;\n> b;\ntext\n>c;\n";
    let ast = parse(source).unwrap();
    let program = ast.program();
    let markers: Vec<Span> = program.code_markers.iter().map(|t| t.span).collect();
    assert_eq!(markers, vec![span(6, 7), span(11, 12), span(21, 22)]);
    assert!(program.code_markers.iter().all(|t| t.kind == TokenKind::CodeMarker));
    assert_eq!(program.stmts.len(), 5);
    assert!(!is_code(&program.stmts[0]));
    assert!(is_code(&program.stmts[1]));
    assert!(is_code(&program.stmts[2]));
    assert!(!is_code(&program.stmts[3]));
    assert!(is_code(&program.stmts[4]));
    match &program.stmts[3] {
        Stmt::Comment(c) => match &c.elements[0] {
            CommentElem::Text(t) => assert_eq!(&source[t.span.source_range()], "text"),
            other => panic!("{:?}", other),
        },
        other => panic!("{:?}", other),
    }
}

#[test]
fn children_are_the_statements_of_the_bodies() {
    let ast = parse(
        "if a { 1; 2; } else if b { 3; } else { 4; }\nwhile a { 5; }\nfor x in y { 6; 7; }\nfn f() { 8; }\n{ 9; }\nlet z = 1;\n# prose\n# > 10; 11;\n# more\n# > 12;\nstruct S { fn g() { 13; } }\n",
    )
    .unwrap();
    let counts: Vec<usize> =
        ast.program().stmts.iter().map(|s| stmt_children(s).len()).collect();
    assert_eq!(counts, vec![4, 1, 2, 1, 1, 0, 3, 0]);
    let inside = stmt_children(&ast.program().stmts[0]);
    let starts: Vec<u32> = inside
        .iter()
        .map(|s| match s {
            Stmt::Expr { expr, .. } => expr.span().start().source_pos() as u32,
            other => panic!("{:?}", other),
        })
        .collect();
    assert_eq!(starts, vec![7, 10, 27, 39]);
}
