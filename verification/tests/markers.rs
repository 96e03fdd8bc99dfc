use tontuna::literate::{find_leading_marker, Marker};

fn check(text: &str, expected: Option<(Marker, usize)>) {
    assert_eq!(expected, find_leading_marker(text));
}

#[test]
fn find_leading_marker_test() {
    check("#  ", Some((Marker::Comment, 0)));
    check("##  ", Some((Marker::Comment, 0)));
    check("  #  ", Some((Marker::Comment, 2)));
    check(" > ", Some((Marker::Code, 1)));
    check("", None);
    check("< # >", None);
    check("foo # ", None);
}
