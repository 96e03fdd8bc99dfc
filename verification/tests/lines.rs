use tontuna::lexer::TokenKind;
use tontuna::literate::{
    detect_first_marker_type, leading_marker, split_lines, Extent, Line, Marker,
};
use tontuna::{Pos, Span};

fn span(start: u32, end: u32) -> Span {
    Span::new(Pos::new(start), Pos::new(end))
}

#[test]
fn markers_flip() {
    assert_eq!(Marker::Code.other(), Marker::Comment);
    assert_eq!(Marker::Comment.other(), Marker::Code);
    assert_eq!(Marker::Code.text(), ">");
    assert_eq!(Marker::Comment.text(), "#");
    assert_eq!(Marker::Code.into_token_kind(), TokenKind::CodeMarker);
    assert_eq!(Marker::Comment.into_token_kind(), TokenKind::CommentMarker);
}

#[test]
fn leading_marker_skips_all_ascii_white_space() {
    assert_eq!(leading_marker(b"\t \x0c\r#"), Some((Marker::Comment, 4)));
    assert_eq!(leading_marker(b"   "), None);
    assert_eq!(leading_marker(b"\xc2\xa0#"), None);
}

#[test]
fn lines_are_split_at_line_feeds() {
    let lines = split_lines(b"ab\ncd\r\n\nef");
    assert_eq!(
        lines,
        vec![
            Extent { start: 0, end: 2 },
            Extent { start: 3, end: 5 },
            Extent { start: 7, end: 7 },
            Extent { start: 8, end: 10 },
        ]
    );
}

#[test]
fn a_last_line_end_starts_no_line() {
    assert_eq!(split_lines(b"ab\n"), vec![Extent { start: 0, end: 2 }]);
    assert_eq!(split_lines(b""), Vec::<Extent>::new());
    assert_eq!(split_lines(b"\n"), vec![Extent { start: 0, end: 0 }]);
    assert_eq!(split_lines(b"a\r"), vec![Extent { start: 0, end: 2 }]);
}

#[test]
fn levels_count_alternating_markers() {
    let text = b"# > # x";
    assert_eq!(Line::new(text, 0, 7, Marker::Comment).levels, 3);
    assert_eq!(Line::new(text, 0, 7, Marker::Code).levels, 0);
    let text = b"## x";
    assert_eq!(Line::new(text, 0, 4, Marker::Comment).levels, 1);
    let text = b"plain";
    assert_eq!(Line::new(text, 0, 5, Marker::Comment).levels, 0);
    let text = b"x\n  >#>>";
    assert_eq!(Line::new(text, 2, 8, Marker::Code).levels, 3);
}

#[test]
fn stripping_takes_one_marker_off() {
    let text = b"ab\n  # > code";
    let line = Line::new(text, 3, 13, Marker::Comment);
    assert_eq!(line.levels, 2);
    let (token, rest) = line.strip_one_marker(text);
    assert_eq!(token.kind, TokenKind::CommentMarker);
    assert_eq!(token.span, span(5, 6));
    assert_eq!(rest, Line { start: 6, end: 13, levels: 1, marker: Marker::Code });
    let (token, rest) = rest.strip_one_marker(text);
    assert_eq!(token.kind, TokenKind::CodeMarker);
    assert_eq!(token.span, span(7, 8));
    assert_eq!(rest, Line { start: 8, end: 13, levels: 0, marker: Marker::Comment });
}

fn first_marker(source: &str) -> Result<Marker, (Span, String)> {
    let lines = split_lines(source.as_bytes());
    match detect_first_marker_type(source.as_bytes(), &lines) {
        Ok(m) => Ok(m),
        Err(e) => Err((e.span, e.message)),
    }
}

#[test]
fn a_document_without_markers_is_led_by_comments() {
    assert_eq!(first_marker("let x = 1;\nx;\n"), Ok(Marker::Comment));
    assert_eq!(first_marker(""), Ok(Marker::Comment));
}

#[test]
fn the_first_marker_leads() {
    assert_eq!(first_marker("a\n# b\nc\n  # d"), Ok(Marker::Comment));
    assert_eq!(first_marker("a\n> b\nc\n> # d"), Ok(Marker::Code));
    assert_eq!(first_marker("x > y\n> b"), Ok(Marker::Code));
}

#[test]
fn the_first_disagreeing_marker_is_the_error() {
    assert_eq!(
        first_marker("# a\nb\n   > c\n> d\n"),
        Err((span(9, 10), "inconsistent file mode".to_owned()))
    );
    assert_eq!(
        first_marker("> a\n# b"),
        Err((span(4, 5), "inconsistent file mode".to_owned()))
    );
}
