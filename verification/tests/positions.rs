use tontuna::{Pos, Span};

#[test]
fn positions_are_offsets() {
    assert_eq!(Pos::new(7).source_pos(), 7);
    assert_eq!(Pos::new(0).plus_text("héllo").source_pos(), 6);
    assert_eq!(Pos::new(3).plus_len(4), Pos::new(7));
    assert_eq!(Pos::new(1).plus_char('a'), Pos::new(2));
    assert_eq!(Pos::new(1).plus_char('é'), Pos::new(3));
    assert_eq!(Pos::new(1).plus_char('€'), Pos::new(4));
    assert_eq!(Pos::new(1).plus_char('😀'), Pos::new(5));
    assert!(Pos::new(1) < Pos::new(2));
}

#[test]
fn spans_merge_to_the_cover() {
    let a = Span::new(Pos::new(2), Pos::new(5));
    let b = Span::new(Pos::new(4), Pos::new(9));
    let c = Span::new(Pos::new(0), Pos::new(1));
    assert_eq!(a.merge(b), Span::new(Pos::new(2), Pos::new(9)));
    assert_eq!(b.merge(a), Span::new(Pos::new(2), Pos::new(9)));
    assert_eq!(a.merge(c), Span::new(Pos::new(0), Pos::new(5)));
    assert_eq!(a.merge(a), a);
    assert_eq!(a.start(), Pos::new(2));
    assert_eq!(a.end(), Pos::new(5));
    assert_eq!(a.source_range(), 2..5);
    assert_eq!(&"0123456789"[b.source_range()], "45678");
}
