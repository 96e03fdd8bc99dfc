use tontuna::editor::{
    get_diagnostics, get_semantic_tokens, position_of, token_type, Position, Range, SemanticToken,
    Source,
};
use tontuna::{tokens, Pos, Span, Token, TokenKind};

fn token(start: u32, end: u32, kind: TokenKind) -> Token {
    Token { span: Span::new(Pos::new(start), Pos::new(end)), kind }
}

#[test]
fn code_tokens_have_their_classes() {
    assert_eq!(
        tokens("let x = f(1, \"s\") + y.z;"),
        vec![
            token(0, 3, TokenKind::Keyword),
            token(4, 5, TokenKind::Value),
            token(6, 7, TokenKind::Operator),
            token(8, 9, TokenKind::Value),
            token(9, 10, TokenKind::Punctuation),
            token(10, 11, TokenKind::Number),
            token(11, 12, TokenKind::Punctuation),
            token(13, 16, TokenKind::String),
            token(16, 17, TokenKind::Punctuation),
            token(18, 19, TokenKind::Operator),
            token(20, 21, TokenKind::Value),
            token(21, 22, TokenKind::Punctuation),
            token(22, 23, TokenKind::Value),
            token(23, 24, TokenKind::Punctuation),
        ]
    );
}

#[test]
fn blanks_and_errors_are_left_out() {
    assert_eq!(tokens("  @ x \t\n\n"), vec![token(4, 5, TokenKind::Value)]);
    assert_eq!(tokens(""), vec![]);
}

#[test]
fn markers_and_prose_are_comments() {
    assert_eq!(
        tokens("x;\n  # note\n# > y;\n#\n"),
        vec![
            token(0, 1, TokenKind::Value),
            token(1, 2, TokenKind::Punctuation),
            token(5, 6, TokenKind::Comment),
            token(6, 11, TokenKind::Comment),
            token(12, 13, TokenKind::Comment),
            token(14, 15, TokenKind::Comment),
            token(16, 17, TokenKind::Value),
            token(17, 18, TokenKind::Punctuation),
            token(19, 20, TokenKind::Comment),
        ]
    );
    assert_eq!(
        tokens("prose\n> x\n"),
        vec![
            token(0, 5, TokenKind::Comment),
            token(6, 7, TokenKind::Comment),
            token(8, 9, TokenKind::Value),
        ]
    );
}

#[test]
fn tokens_come_even_where_the_markers_disagree() {
    assert_eq!(
        tokens("# a\n> b"),
        vec![
            token(0, 1, TokenKind::Comment),
            token(1, 3, TokenKind::Comment),
            token(4, 5, TokenKind::Operator),
            token(6, 7, TokenKind::Value),
        ]
    );
}

#[test]
fn spans_slice_the_text_and_follow_one_another() {
    let source = "let s = \"h\u{e9}\u{1f600}\";\n# caf\u{e9}\n# > let \u{fc} = 1;\n";
    let all = tokens(source);
    let texts: Vec<&str> = all.iter().map(|t| &source[t.span.source_range()]).collect();
    assert_eq!(texts, vec!["let", "s", "=", "\"h\u{e9}\u{1f600}\"", ";", "#", " caf\u{e9}", "#", ">", "let", "=", "1", ";"]);
    for pair in all.windows(2) {
        assert!(pair[0].span.end() <= pair[1].span.start());
    }
    for t in &all {
        assert!(t.span.start() < t.span.end());
        assert!(t.span.end().source_pos() <= source.len());
    }
}

#[test]
fn classes_have_their_numbers() {
    assert_eq!(token_type(TokenKind::Keyword), 0);
    assert_eq!(token_type(TokenKind::Value), 1);
    assert_eq!(token_type(TokenKind::Operator), 2);
    assert_eq!(token_type(TokenKind::Punctuation), 3);
    assert_eq!(token_type(TokenKind::Number), 4);
    assert_eq!(token_type(TokenKind::Comment), 5);
    assert_eq!(token_type(TokenKind::String), 6);
}

fn step(delta_line: u32, delta_start: u32, length: u32, token_type: u32) -> SemanticToken {
    SemanticToken { delta_line, delta_start, length, token_type, token_modifiers_bitset: 0 }
}

#[test]
fn semantic_tokens_step_from_token_to_token() {
    assert_eq!(
        get_semantic_tokens("let x = 1;\n\n  print(x);"),
        vec![
            step(0, 0, 3, 0),
            step(0, 4, 1, 1),
            step(0, 2, 1, 2),
            step(0, 2, 1, 4),
            step(0, 1, 1, 3),
            step(2, 2, 5, 1),
            step(0, 5, 1, 3),
            step(0, 1, 1, 1),
            step(0, 1, 1, 3),
            step(0, 1, 1, 3),
        ]
    );
}

#[test]
fn columns_count_utf16_units() {
    assert_eq!(
        get_semantic_tokens("\"\u{e9}\u{1f600}\" + x"),
        vec![step(0, 0, 5, 6), step(0, 6, 1, 2), step(0, 2, 1, 1)]
    );
    let bytes = "a\u{e9}\u{1f600}\nb".as_bytes();
    assert_eq!(position_of(bytes, 0), Position { line: 0, character: 0 });
    assert_eq!(position_of(bytes, 1), Position { line: 0, character: 1 });
    assert_eq!(position_of(bytes, 3), Position { line: 0, character: 2 });
    assert_eq!(position_of(bytes, 7), Position { line: 0, character: 4 });
    assert_eq!(position_of(bytes, 8), Position { line: 1, character: 0 });
    assert_eq!(position_of(bytes, 9), Position { line: 1, character: 1 });
}

#[test]
fn a_document_that_parses_has_no_diagnostics() {
    assert!(get_diagnostics("let x = 1;\nprintln(x);").is_empty());
    assert!(get_diagnostics("foo").is_empty());
}

#[test]
fn the_syntax_error_is_the_one_diagnostic() {
    let found = get_diagnostics("let x = 1;\n  let = 2;\n");
    assert_eq!(found.len(), 1);
    assert_eq!(found[0].message, "unexpected token");
    assert_eq!(
        found[0].range,
        Range {
            start: Position { line: 1, character: 6 },
            end: Position { line: 1, character: 7 },
        }
    );
    let found = get_diagnostics("x = \"\u{1f600}\" y");
    assert_eq!(
        found[0].range,
        Range {
            start: Position { line: 0, character: 9 },
            end: Position { line: 0, character: 10 },
        }
    );
}

#[test]
fn a_source_knows_its_lines() {
    let source = Source::new("ab\ncd\n\nef".to_owned());
    assert_eq!(source.text, "ab\ncd\n\nef");
    assert_eq!(source.line_starts, vec![0, 3, 6, 7]);
    let at = |offset: u32| source.span_start_line(Span::new(Pos::new(offset), Pos::new(offset)));
    assert_eq!(at(0), 1);
    assert_eq!(at(2), 1);
    assert_eq!(at(3), 2);
    assert_eq!(at(5), 2);
    assert_eq!(at(6), 3);
    assert_eq!(at(7), 4);
    assert_eq!(at(9), 4);
    assert_eq!(Source::new(String::new()).line_starts, vec![0]);
}
