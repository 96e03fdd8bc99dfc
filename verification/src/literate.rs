//! The lines of a document and the markers in front of them.
//!
//! A line may start, behind blanks, with `#` or with `>`. A document whose
//! first marker is `#` is code with comments in it; one whose first marker is
//! `>` is prose with code in it. Inside a comment `>` marks code again, inside
//! that code `#` marks a comment, and so on: the markers of a line alternate.

use crate::ast::Token;
use crate::error::Error;
use crate::lexer::{run_end, scan_run, ByteClass, TokenKind};
use crate::pos::{Pos, Span};
use vstd::prelude::*;
use vstd::slice::slice_subrange;
use vstd::string::StringSliceAdditionalSpecFns;

verus! {

/// The two markers.
#[derive(PartialEq, Eq, Structural, Debug, Clone, Copy)]
pub enum Marker {
    /// `>`
    Code,
    /// `#`
    Comment,
}

impl Marker {
    pub open spec fn flipped(self) -> Marker {
        match self {
            Marker::Code => Marker::Comment,
            Marker::Comment => Marker::Code,
        }
    }

    pub open spec fn kind(self) -> TokenKind {
        match self {
            Marker::Code => TokenKind::CodeMarker,
            Marker::Comment => TokenKind::CommentMarker,
        }
    }

    /// The marker that alternates with this one.
    pub fn other(self) -> (m: Marker)
        ensures
            m == self.flipped(),
    {
        match self {
            Marker::Code => Marker::Comment,
            Marker::Comment => Marker::Code,
        }
    }

    /// The marker as it is written.
    pub fn text(self) -> (s: &'static str)
        ensures
            s@ == (match self {
                Marker::Code => ">"@,
                Marker::Comment => "#"@,
            }),
    {
        match self {
            Marker::Code => ">",
            Marker::Comment => "#",
        }
    }

    pub fn into_token_kind(self) -> (kind: TokenKind)
        ensures
            kind == self.kind(),
    {
        match self {
            Marker::Code => TokenKind::CodeMarker,
            Marker::Comment => TokenKind::CommentMarker,
        }
    }
}

/// The marker that `s` starts with behind its leading white space, and the
/// index at which it stands.
pub open spec fn leading_marker_of(s: Seq<u8>) -> Option<(Marker, int)> {
    let k = run_end(s, 0, ByteClass::White);
    if k < s.len() && s[k] == '#' as u8 {
        Some((Marker::Comment, k))
    } else if k < s.len() && s[k] == '>' as u8 {
        Some((Marker::Code, k))
    } else {
        None
    }
}

/// Finds the marker that a line of bytes starts with.
pub fn leading_marker(text: &[u8]) -> (found: Option<(Marker, usize)>)
    ensures
        match found {
            Some((m, off)) => leading_marker_of(text@) == Some((m, off as int)) && off
                < text@.len(),
            None => leading_marker_of(text@) is None,
        },
{
    let k = scan_run(text, 0, ByteClass::White);
    if k < text.len() {
        let b: u8 = text[k];
        if b == '#' as u8 {
            Some((Marker::Comment, k))
        } else if b == '>' as u8 {
            Some((Marker::Code, k))
        } else {
            None
        }
    } else {
        None
    }
}

/// Finds the marker that a line starts with: which one it is, and how many
/// bytes of white space stand before it.
pub fn find_leading_marker(line: &str) -> (found: Option<(Marker, usize)>)
    ensures
        match found {
            Some((m, off)) => leading_marker_of(line.spec_bytes()) == Some((m, off as int)) && off
                < line.spec_bytes().len(),
            None => leading_marker_of(line.spec_bytes()) is None,
        },
{
    leading_marker(line.as_bytes())
}

/// How many markers stand in front of `s`, the first of them `expected`, each
/// next one the other of the two.
pub open spec fn levels_of(s: Seq<u8>, expected: Marker) -> nat
    decreases s.len(),
{
    match leading_marker_of(s) {
        Some((m, off)) => if m == expected && 0 <= off < s.len() {
            1 + levels_of(s.skip(off + 1), expected.flipped())
        } else {
            0
        },
        None => 0,
    }
}

/// A line has no more markers than bytes.
pub proof fn lemma_levels_bound(s: Seq<u8>, expected: Marker)
    ensures
        levels_of(s, expected) <= s.len(),
    decreases s.len(),
{
    match leading_marker_of(s) {
        Some((m, off)) => {
            if m == expected && 0 <= off < s.len() {
                lemma_levels_bound(s.skip(off + 1), expected.flipped());
            }
        },
        None => {},
    }
}

/// Where a line is in the text: from `start` up to `end`, the line end left
/// out.
#[derive(PartialEq, Eq, Structural, Debug, Clone, Copy)]
pub struct Extent {
    pub start: usize,
    pub end: usize,
}

/// The index of the first line feed at or after `i`, or the length of `s`.
pub open spec fn line_feed(s: Seq<u8>, i: int) -> int
    decreases s.len() - i,
{
    if 0 <= i < s.len() && s[i] != '\n' as u8 {
        line_feed(s, i + 1)
    } else {
        i
    }
}

pub proof fn lemma_line_feed(s: Seq<u8>, i: int)
    requires
        0 <= i <= s.len(),
    ensures
        i <= line_feed(s, i) <= s.len(),
        line_feed(s, i) < s.len() ==> s[line_feed(s, i)] == '\n' as u8,
        forall|j: int| i <= j < line_feed(s, i) ==> #[trigger] s[j] != '\n' as u8,
    decreases s.len() - i,
{
    if i < s.len() && s[i] != '\n' as u8 {
        lemma_line_feed(s, i + 1);
    }
}

/// Where the line that starts at `start` stops: at its line feed, or at the
/// carriage return before that line feed, or at the end of the text.
pub open spec fn line_stop(s: Seq<u8>, start: int) -> int {
    let feed = line_feed(s, start);
    if feed < s.len() && start < feed && s[feed - 1] == '\r' as u8 {
        feed - 1
    } else {
        feed
    }
}

/// The lines of `s` from `start` on. A line ends with a line feed, or with a
/// carriage return and a line feed, or with the text; a line end at the very
/// end of the text starts no further line.
pub open spec fn lines_from(s: Seq<u8>, start: int) -> Seq<Extent>
    decreases s.len() - start,
{
    let feed = line_feed(s, start);
    let line = Extent { start: start as usize, end: line_stop(s, start) as usize };
    if start < 0 || start >= s.len() || feed < start {
        Seq::empty()
    } else if feed >= s.len() {
        seq![line]
    } else {
        seq![line] + lines_from(s, feed + 1)
    }
}

/// The lines of a whole text.
pub open spec fn lines_of(s: Seq<u8>) -> Seq<Extent> {
    lines_from(s, 0)
}

/// Every line lies inside the text, and the lines follow one another.
pub proof fn lemma_lines_from(s: Seq<u8>, start: int)
    requires
        0 <= start,
        s.len() <= usize::MAX,
    ensures
        forall|i: int|
            0 <= i < lines_from(s, start).len() ==> start <= (#[trigger] lines_from(
                s,
                start,
            )[i]).start <= lines_from(s, start)[i].end <= s.len(),
        forall|i: int, j: int|
            0 <= i < j < lines_from(s, start).len() ==> (#[trigger] lines_from(s, start)[i]).end < (
            #[trigger] lines_from(s, start)[j]).start,
    decreases s.len() - start,
{
    if start < s.len() {
        lemma_line_feed(s, start);
        let feed = line_feed(s, start);
        if feed < s.len() {
            lemma_lines_from(s, feed + 1);
        }
        let rest = if feed < s.len() {
            lines_from(s, feed + 1)
        } else {
            Seq::empty()
        };
        let all = lines_from(s, start);
        assert forall|i: int| 0 <= i < all.len() implies start <= (#[trigger] all[i]).start
            <= all[i].end <= s.len() by {
            if i > 0 {
                assert(all[i] == rest[i - 1]);
            }
        }
        assert forall|i: int, j: int| 0 <= i < j < all.len() implies (#[trigger] all[i]).end < (
        #[trigger] all[j]).start by {
            assert(all[j] == rest[j - 1]);
            if i > 0 {
                assert(all[i] == rest[i - 1]);
            }
        }
    }
}

/// Splits a text into its lines.
pub fn split_lines(bytes: &[u8]) -> (lines: Vec<Extent>)
    ensures
        lines@ == lines_of(bytes@),
{
    let mut lines: Vec<Extent> = Vec::new();
    let mut start: usize = 0;
    while start < bytes.len()
        invariant
            start <= bytes@.len(),
            lines_of(bytes@) == lines@ + lines_from(bytes@, start as int),
        decreases bytes@.len() - start,
    {
        let mut feed: usize = start;
        while feed < bytes.len() && bytes[feed] != '\n' as u8
            invariant
                start <= feed <= bytes@.len(),
                line_feed(bytes@, start as int) == line_feed(bytes@, feed as int),
            decreases bytes@.len() - feed,
        {
            feed += 1;
        }
        let end: usize = if feed < bytes.len() && start < feed && bytes[feed - 1] == '\r' as u8 {
            feed - 1
        } else {
            feed
        };
        let ghost before = lines@;
        lines.push(Extent { start, end });
        if feed < bytes.len() {
            assert(lines@ + lines_from(bytes@, feed + 1) =~= before + lines_from(
                bytes@,
                start as int,
            ));
            start = feed + 1;
        } else {
            assert(lines@ + lines_from(bytes@, feed as int) =~= before + lines_from(
                bytes@,
                start as int,
            ));
            start = feed;
        }
    }
    assert(lines@ + lines_from(bytes@, start as int) =~= lines@);
    lines
}

/// The marker that the line at `e` starts with.
pub open spec fn line_marker(src: Seq<u8>, e: Extent) -> Option<(Marker, int)> {
    leading_marker_of(src.subrange(e.start as int, e.end as int))
}

/// The index of the first line at or after `i` that starts with a marker.
pub open spec fn first_marked(src: Seq<u8>, lines: Seq<Extent>, i: int) -> Option<int>
    decreases lines.len() - i,
{
    if i < 0 || i >= lines.len() {
        None
    } else if line_marker(src, lines[i]) is Some {
        Some(i)
    } else {
        first_marked(src, lines, i + 1)
    }
}

/// The index of the first line at or after `i` that starts with a marker
/// other than `m`.
pub open spec fn first_disagreeing(src: Seq<u8>, lines: Seq<Extent>, m: Marker, i: int) -> Option<
    int,
>
    decreases lines.len() - i,
{
    if i < 0 || i >= lines.len() {
        None
    } else if line_marker(src, lines[i]) is Some && (line_marker(src, lines[i])->0).0 != m {
        Some(i)
    } else {
        first_disagreeing(src, lines, m, i + 1)
    }
}

/// The first marker of the document: that of its first line that starts with
/// one. A document without any marker counts as one that starts with `#`.
pub open spec fn first_marker(src: Seq<u8>, lines: Seq<Extent>) -> Marker {
    match first_marked(src, lines, 0) {
        Some(j) => (line_marker(src, lines[j])->0).0,
        None => Marker::Comment,
    }
}

/// The span of one byte at `offset`.
pub open spec fn byte_span(offset: int) -> Span {
    Span { start: Pos { src_offset: offset as u32 }, end: Pos { src_offset: (offset + 1) as u32 } }
}

/// The marker that breaks the document's mode: the first leading marker that
/// is not the document's first marker. `None` where all of them agree.
pub open spec fn marker_conflict(src: Seq<u8>, lines: Seq<Extent>) -> Option<Span> {
    match first_disagreeing(src, lines, first_marker(src, lines), 0) {
        Some(j) => Some(byte_span(lines[j].start + (line_marker(src, lines[j])->0).1)),
        None => None,
    }
}

/// All lines lie inside the text.
pub open spec fn lines_inside(src: Seq<u8>, lines: Seq<Extent>) -> bool {
    forall|i: int| 0 <= i < lines.len() ==> (#[trigger] lines[i]).start <= lines[i].end <= src.len()
}

/// Finds the document's first marker, and fails where a later line starts
/// with the other one: a document is led by comments or by code, never both.
/// The error stands at the first marker that disagrees.
pub fn detect_first_marker_type(bytes: &[u8], lines: &Vec<Extent>) -> (r: Result<Marker, Error>)
    requires
        bytes@.len() <= u32::MAX,
        lines_inside(bytes@, lines@),
    ensures
        match r {
            Ok(m) => marker_conflict(bytes@, lines@) is None && m == first_marker(bytes@, lines@),
            Err(e) => marker_conflict(bytes@, lines@) == Some(e.span) && e.message@
                == "inconsistent file mode"@,
        },
{
    let mut first = Marker::Comment;
    let mut i: usize = 0;
    let mut found = false;
    while i < lines.len() && !found
        invariant
            i <= lines@.len(),
            lines_inside(bytes@, lines@),
            !found ==> first_marked(bytes@, lines@, 0) == first_marked(bytes@, lines@, i as int),
            !found ==> first == Marker::Comment,
            found ==> first_marked(bytes@, lines@, 0) is Some && first == first_marker(
                bytes@,
                lines@,
            ),
        decreases lines@.len() - i + (if found { 0int } else { 1int }),
    {
        let line = lines[i];
        match leading_marker(slice_subrange(bytes, line.start, line.end)) {
            Some((m, _)) => {
                first = m;
                found = true;
            },
            None => {
                i += 1;
            },
        }
    }
    let mut j: usize = 0;
    while j < lines.len()
        invariant
            j <= lines@.len(),
            lines_inside(bytes@, lines@),
            bytes@.len() <= u32::MAX,
            first == first_marker(bytes@, lines@),
            first_disagreeing(bytes@, lines@, first, 0) == first_disagreeing(
                bytes@,
                lines@,
                first,
                j as int,
            ),
        decreases lines@.len() - j,
    {
        let line = lines[j];
        match leading_marker(slice_subrange(bytes, line.start, line.end)) {
            Some((m, off)) => {
                if m != first {
                    let at = Pos::new((line.start + off) as u32);
                    return Err(Error::new(Span::new(at, at.plus_len(1)), "inconsistent file mode"));
                }
            },
            None => {},
        }
        j += 1;
    }
    Ok(first)
}

/// A line at some depth of a document: what is left of it behind the markers
/// that were taken off, how many markers still stand in front of that, and
/// which of the two the next one is.
#[derive(PartialEq, Eq, Structural, Debug, Clone, Copy)]
pub struct Line {
    pub start: usize,
    pub end: usize,
    pub levels: u32,
    pub marker: Marker,
}

impl Line {
    /// The bytes of the line.
    pub open spec fn text(self, src: Seq<u8>) -> Seq<u8> {
        src.subrange(self.start as int, self.end as int)
    }

    /// The line lies inside `src`, and `levels` counts its markers.
    pub open spec fn wf(self, src: Seq<u8>) -> bool {
        &&& self.start <= self.end <= src.len()
        &&& self.levels == levels_of(self.text(src), self.marker)
    }

    /// The line with one marker less: what stands behind its first marker.
    pub open spec fn stripped(self, src: Seq<u8>) -> Line {
        Line {
            start: (self.start + (leading_marker_of(self.text(src))->0).1 + 1) as usize,
            end: self.end,
            levels: (self.levels - 1) as u32,
            marker: self.marker.flipped(),
        }
    }

    /// The first marker of the line, as a token.
    pub open spec fn marker_token(self, src: Seq<u8>) -> Token {
        Token {
            span: byte_span(self.start + (leading_marker_of(self.text(src))->0).1),
            kind: self.marker.kind(),
        }
    }

    /// The line from `start` up to `end`, with its markers counted, the
    /// first of them being `first_level`.
    pub fn new(bytes: &[u8], start: usize, end: usize, first_level: Marker) -> (line: Line)
        requires
            start <= end <= bytes@.len(),
            bytes@.len() <= u32::MAX,
        ensures
            line.start == start,
            line.end == end,
            line.marker == first_level,
            line.wf(bytes@),
    {
        let ghost text = bytes@.subrange(start as int, end as int);
        let mut pos: usize = start;
        let mut level = first_level;
        let mut levels: u32 = 0;
        loop
            invariant
                start <= pos <= end <= bytes@.len(),
                bytes@.len() <= u32::MAX,
                levels <= pos - start,
                levels_of(text, first_level) == levels + levels_of(
                    bytes@.subrange(pos as int, end as int),
                    level,
                ),
            ensures
                levels_of(text, first_level) == levels,
            decreases end - pos,
        {
            let ghost rest = bytes@.subrange(pos as int, end as int);
            match leading_marker(slice_subrange(bytes, pos, end)) {
                Some((m, off)) => {
                    if m == level {
                        assert(rest.skip(off + 1) =~= bytes@.subrange(pos + off + 1, end as int));
                        pos = pos + off + 1;
                        level = level.other();
                        levels += 1;
                    } else {
                        break ;
                    }
                },
                None => {
                    break ;
                },
            }
        }
        Line { start, end, levels, marker: first_level }
    }

    /// Takes the first marker off the line: the marker as a token, and the
    /// line that is left behind it.
    pub fn strip_one_marker(&self, bytes: &[u8]) -> (r: (Token, Line))
        requires
            self.wf(bytes@),
            self.levels != 0,
            bytes@.len() <= u32::MAX,
        ensures
            r.0 == self.marker_token(bytes@),
            r.1 == self.stripped(bytes@),
            r.1.wf(bytes@),
            self.start < r.1.start <= self.end,
            r.0.span.start.offset() == r.1.start - 1,
    {
        let ghost text = self.text(bytes@);
        match leading_marker(slice_subrange(bytes, self.start, self.end)) {
            Some((kind, offset)) => {
                assert(text.skip(offset + 1) =~= bytes@.subrange(
                    self.start + offset + 1,
                    self.end as int,
                ));
                let token_start = Pos::new((self.start + offset) as u32);
                let token = Token {
                    kind: kind.into_token_kind(),
                    span: Span::new(token_start, token_start.plus_len(1)),
                };
                let line = Line {
                    start: self.start + offset + 1,
                    end: self.end,
                    levels: self.levels - 1,
                    marker: self.marker.other(),
                };
                (token, line)
            },
            None => vstd::pervasive::unreached(),
        }
    }
}

} // verus!
