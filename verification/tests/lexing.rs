use tontuna::lexer::{next_token, TokenKind};

fn lexes(source: &str, kind: TokenKind, len: usize) {
    assert_eq!(next_token(source.as_bytes()), Some((kind, len)), "{:?}", source);
}

#[test]
fn end_of_text_gives_no_token() {
    assert_eq!(next_token(b""), None);
}

#[test]
fn keywords_have_their_own_kinds() {
    lexes("fn", TokenKind::Fn, 2);
    lexes("let x", TokenKind::Let, 3);
    lexes("if(", TokenKind::If, 2);
    lexes("else{", TokenKind::Else, 4);
    lexes("for ", TokenKind::For, 3);
    lexes("in ", TokenKind::In, 2);
    lexes("return;", TokenKind::Return, 6);
    lexes("struct ", TokenKind::Struct, 6);
    lexes("while ", TokenKind::While, 5);
    lexes("true", TokenKind::True, 4);
    lexes("false", TokenKind::False, 5);
    lexes("nil", TokenKind::Nil, 3);
    lexes("self", TokenKind::SelfKw, 4);
}

#[test]
fn a_word_that_goes_on_is_a_name() {
    lexes("fnord", TokenKind::Name, 5);
    lexes("iff", TokenKind::Name, 3);
    lexes("lets go", TokenKind::Name, 4);
    lexes("_x1 ", TokenKind::Name, 3);
    lexes("Return", TokenKind::Name, 6);
    lexes("structure", TokenKind::Name, 9);
}

#[test]
fn numbers_run_over_words() {
    lexes("123", TokenKind::Number, 3);
    lexes("12ab+", TokenKind::Number, 4);
    lexes("0_0 ", TokenKind::Number, 3);
}

#[test]
fn longest_operator_wins() {
    lexes("<=", TokenKind::LessEq, 2);
    lexes("<", TokenKind::Less, 1);
    lexes("< =", TokenKind::Less, 1);
    lexes(">=", TokenKind::GreaterEq, 2);
    lexes(">", TokenKind::Greater, 1);
    lexes("==", TokenKind::EqEq, 2);
    lexes("=", TokenKind::Equals, 1);
    lexes("!=", TokenKind::NotEq, 2);
    lexes("&&", TokenKind::And, 2);
    lexes("||", TokenKind::Or, 2);
    lexes("===", TokenKind::EqEq, 2);
}

#[test]
fn single_marks() {
    lexes(".", TokenKind::Dot, 1);
    lexes(":", TokenKind::Colon, 1);
    lexes("+1", TokenKind::Plus, 1);
    lexes("-", TokenKind::Minus, 1);
    lexes("*", TokenKind::Star, 1);
    lexes("/", TokenKind::Slash, 1);
    lexes("(", TokenKind::LeftParen, 1);
    lexes(")", TokenKind::RightParen, 1);
    lexes("{", TokenKind::LeftCurly, 1);
    lexes("}", TokenKind::RightCurly, 1);
    lexes(",", TokenKind::Comma, 1);
    lexes(";", TokenKind::Semicolon, 1);
    lexes("#", TokenKind::CommentMarker, 1);
}

#[test]
fn blanks_and_line_ends_are_tokens() {
    lexes("   x", TokenKind::Space, 3);
    lexes(" \t x", TokenKind::Space, 3);
    lexes("\nx", TokenKind::Newline, 1);
    lexes("\r\nx", TokenKind::Newline, 2);
}

#[test]
fn string_literals() {
    lexes("\"\"", TokenKind::Str, 2);
    lexes("\"abc\" + 1", TokenKind::Str, 5);
    lexes("\"a\\\"b\"", TokenKind::Str, 6);
    lexes("\"a\\\\\" x", TokenKind::Str, 5);
    lexes("\"\u{e9}\u{1f600}\"", TokenKind::Str, 8);
}

#[test]
fn what_starts_no_token_is_an_error_token() {
    lexes("\"open", TokenKind::Error, 1);
    lexes("\"open\nclose\"", TokenKind::Error, 1);
    lexes("!", TokenKind::Error, 1);
    lexes("&x", TokenKind::Error, 1);
    lexes("|", TokenKind::Error, 1);
    lexes("\r", TokenKind::Error, 1);
    lexes("@", TokenKind::Error, 1);
    lexes("\u{e9}x", TokenKind::Error, 2);
    lexes("\u{1f600}", TokenKind::Error, 4);
}
