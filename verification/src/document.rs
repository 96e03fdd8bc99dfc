//! A whole document: from its text to its program.

use crate::ast::{
    comment_view, elem_view, elems_view, naked_view, program_view, stmt_view, stmts_view, Comment,
    CommentElem, CommentElemV, CommentV, Program, ProgramV, Stmt, StmtV, Token,
};
use crate::error::{Error, ErrorV};
use crate::grammar::{code, run_markers, run_stop, stripped_run, text_token};
use crate::lexer::TokenKind;
use crate::literate::{
    detect_first_marker_type, first_disagreeing, first_marker, lemma_levels_bound,
    lemma_lines_from, levels_of, line_marker,
    lines_of, marker_conflict, split_lines, Extent, Line, Marker,
};
use crate::parser::parse_code;
use crate::pos::{Pos, Span};
use crate::scan::{region_wf, strip_run};
use vstd::prelude::*;
use vstd::string::StringSliceAdditionalSpecFns;

verus! {

/// The line at `e`, with its markers counted from `first` on.
pub open spec fn line_of(src: Seq<u8>, e: Extent, first: Marker) -> Line {
    Line {
        start: e.start,
        end: e.end,
        levels: levels_of(src.subrange(e.start as int, e.end as int), first) as u32,
        marker: first,
    }
}

/// The lines of a document whose first marker is `first`.
pub open spec fn document_lines(src: Seq<u8>, first: Marker) -> Seq<Line> {
    Seq::new(lines_of(src).len(), |i: int| line_of(src, lines_of(src)[i], first))
}

/// The statement that a stretch of prose at the top of a document is: a
/// comment without markers that holds nothing else.
pub open spec fn prose_stmt(text: Token) -> StmtV {
    StmtV::Comment(CommentV { markers: Seq::empty(), elements: seq![CommentElemV::Text(text)] })
}

/// The program of a document that is prose with code in it, from its line
/// `i` on, behind what `acc` holds: each run of unmarked lines is a comment,
/// each run of marked lines gives the statements of its code, and its markers
/// go to the program's code markers.
pub open spec fn prose(src: Seq<u8>, lines: Seq<Line>, i: int, depth: nat, acc: ProgramV) -> Result<
    ProgramV,
    ErrorV,
>
    decreases lines.len() - i,
{
    if i < 0 || i >= lines.len() {
        Ok(acc)
    } else if lines[i].levels == 0 {
        let stop = run_stop(lines, i + 1, false);
        if stop <= i || stop > lines.len() {
            Err(arbitrary())
        } else {
            prose(
                src,
                lines,
                stop,
                depth,
                ProgramV {
                    stmts: acc.stmts.push(prose_stmt(text_token(lines, i, stop))),
                    code_markers: acc.code_markers,
                },
            )
        }
    } else {
        let stop = run_stop(lines, i + 1, true);
        if stop <= i || stop > lines.len() || depth == 0 {
            Err(arbitrary())
        } else {
            match code(src, stripped_run(src, lines, i, stop), (depth - 1) as nat) {
                Ok(found) => prose(
                    src,
                    lines,
                    stop,
                    depth,
                    ProgramV {
                        stmts: acc.stmts + found.stmts,
                        code_markers: acc.code_markers + run_markers(src, lines, i, stop),
                    },
                ),
                Err(e) => Err(e),
            }
        }
    }
}

/// The error for a text that byte offsets of 32 bits cannot address.
pub open spec fn too_long() -> ErrorV {
    ErrorV {
        span: Span { start: Pos { src_offset: 0 }, end: Pos { src_offset: 0 } },
        message: "source text is too long"@,
    }
}

/// The program that a text is, or the one error that stops its parse.
///
/// A text whose leading markers disagree is refused at the first marker that
/// is not the document's first. A document led by `#`, or without any
/// marker, is code; one led by `>` is prose with code in it.
pub open spec fn program(src: Seq<u8>) -> Result<ProgramV, ErrorV> {
    let first = first_marker(src, lines_of(src));
    let lines = document_lines(src, first);
    if src.len() > u32::MAX {
        Err(too_long())
    } else if marker_conflict(src, lines_of(src)) is Some {
        Err(ErrorV { span: marker_conflict(src, lines_of(src))->0, message: "inconsistent file mode"@ })
    } else if first == Marker::Comment {
        match code(src, lines, src.len()) {
            Ok(found) => Ok(ProgramV { stmts: found.stmts, code_markers: Seq::empty() }),
            Err(e) => Err(e),
        }
    } else {
        prose(src, lines, 0, src.len(), ProgramV { stmts: Seq::empty(), code_markers: Seq::empty() })
    }
}

/// Where the first line that disagrees with `m` is, and that no line before
/// it does.
pub proof fn lemma_first_disagreeing(src: Seq<u8>, lines: Seq<Extent>, m: Marker, i: int)
    requires
        0 <= i,
    ensures
        match first_disagreeing(src, lines, m, i) {
            Some(j) => i <= j < lines.len() && line_marker(src, lines[j]) is Some && (line_marker(
                src,
                lines[j],
            )->0).0 != m,
            None => true,
        },
        forall|k: int|
            i <= k < lines.len() && (first_disagreeing(src, lines, m, i) matches Some(j) ==> k < j)
                ==> (#[trigger] line_marker(src, lines[k])) is None || (line_marker(
                src,
                lines[k],
            )->0).0 == m,
    decreases lines.len() - i,
{
    if i < lines.len() && !(line_marker(src, lines[i]) is Some && (line_marker(src, lines[i])->0).0
        != m) {
        lemma_first_disagreeing(src, lines, m, i + 1);
    }
}

/// A document in which two lines start with different markers does not
/// parse. The error says so and stands at the first marker of the document
/// that is not its first marker; every marker before that one is the
/// document's first marker.
pub proof fn mixed_markers_fail(src: Seq<u8>, a: int, b: int)
    requires
        src.len() <= u32::MAX,
        0 <= a < lines_of(src).len(),
        0 <= b < lines_of(src).len(),
        line_marker(src, lines_of(src)[a]) is Some,
        line_marker(src, lines_of(src)[b]) is Some,
        (line_marker(src, lines_of(src)[a])->0).0 != (line_marker(src, lines_of(src)[b])->0).0,
    ensures
        marker_conflict(src, lines_of(src)) is Some,
        program(src) == Err::<ProgramV, ErrorV>(
            ErrorV {
                span: marker_conflict(src, lines_of(src))->0,
                message: "inconsistent file mode"@,
            },
        ),
        ({
            let lines = lines_of(src);
            let first = first_marker(src, lines);
            let j = first_disagreeing(src, lines, first, 0)->0;
            &&& 0 <= j < lines.len()
            &&& line_marker(src, lines[j]) is Some
            &&& (line_marker(src, lines[j])->0).0 != first
            &&& marker_conflict(src, lines)->0 == crate::literate::byte_span(
                lines[j].start + (line_marker(src, lines[j])->0).1,
            )
            &&& forall|k: int|
                0 <= k < j ==> (#[trigger] line_marker(src, lines[k])) is None || (line_marker(
                    src,
                    lines[k],
                )->0).0 == first
        }),
{
    let lines = lines_of(src);
    let first = first_marker(src, lines);
    lemma_first_disagreeing(src, lines, first, 0);
    if first_disagreeing(src, lines, first, 0) is None {
        assert(line_marker(src, lines[a]) is None || (line_marker(src, lines[a])->0).0 == first);
        assert(line_marker(src, lines[b]) is None || (line_marker(src, lines[b])->0).0 == first);
    }
}

/// Counts the markers of each line of a document.
fn count_levels(bytes: &[u8], extents: &Vec<Extent>, first: Marker) -> (lines: Vec<Line>)
    requires
        bytes@.len() <= u32::MAX,
        extents@ == lines_of(bytes@),
    ensures
        lines@ == document_lines(bytes@, first),
        region_wf(bytes@, lines@, bytes@.len()),
{
    reveal(region_wf);
    let mut lines: Vec<Line> = Vec::new();
    let mut i: usize = 0;
    proof {
        lemma_lines_from(bytes@, 0);
    }
    while i < extents.len()
        invariant
            i <= extents@.len(),
            bytes@.len() <= u32::MAX,
            extents@ == lines_of(bytes@),
            forall|k: int|
                0 <= k < extents@.len() ==> (#[trigger] extents@[k]).start <= extents@[k].end
                    <= bytes@.len(),
            lines@.len() == i,
            forall|k: int| 0 <= k < i ==> #[trigger] lines@[k] == line_of(bytes@, extents@[k], first),
            forall|k: int|
                0 <= k < i ==> (#[trigger] lines@[k]).wf(bytes@) && lines@[k].levels <= bytes@.len(),
        decreases extents@.len() - i,
    {
        let e = extents[i];
        let line = Line::new(bytes, e.start, e.end, first);
        proof {
            lemma_levels_bound(line.text(bytes@), first);
        }
        lines.push(line);
        i += 1;
    }
    assert(lines@ =~= document_lines(bytes@, first));
    lines
}

/// Parses a document that is prose with code in it.
fn parse_prose(source: &str, bytes: &[u8], lines: &Vec<Line>, depth: Ghost<nat>) -> (r: Result<
    Program,
    Error,
>)
    requires
        bytes@ == source.spec_bytes(),
        bytes@.len() <= u32::MAX,
        region_wf(bytes@, lines@, depth@),
    ensures
        match r {
            Ok(p) => prose(
                bytes@,
                lines@,
                0,
                depth@,
                ProgramV { stmts: Seq::empty(), code_markers: Seq::empty() },
            ) == Ok::<ProgramV, ErrorV>(program_view(p)),
            Err(x) => prose(
                bytes@,
                lines@,
                0,
                depth@,
                ProgramV { stmts: Seq::empty(), code_markers: Seq::empty() },
            ) == Err::<ProgramV, ErrorV>(x@),
        },
{
    reveal(stmts_view);
    reveal(stmt_view);
    reveal(comment_view);
    reveal(elems_view);
    reveal(elem_view);
    reveal(naked_view);
    let mut stmts: Vec<Stmt> = Vec::new();
    let mut code_markers: Vec<Token> = Vec::new();
    let mut i: usize = 0;
    assert(stmts_view(stmts) =~= Seq::empty());
    assert(code_markers@ =~= Seq::empty());
    while i < lines.len()
        invariant
            i <= lines@.len(),
            bytes@ == source.spec_bytes(),
            bytes@.len() <= u32::MAX,
            region_wf(bytes@, lines@, depth@),
            prose(
                bytes@,
                lines@,
                0,
                depth@,
                ProgramV { stmts: Seq::empty(), code_markers: Seq::empty() },
            ) == prose(
                bytes@,
                lines@,
                i as int,
                depth@,
                ProgramV { stmts: stmts_view(stmts), code_markers: code_markers@ },
            ),
        decreases lines@.len() - i,
    {
        reveal(stmts_view);
        reveal(stmt_view);
        reveal(comment_view);
        reveal(elems_view);
        reveal(elem_view);
        reveal(naked_view);
        let ghost before = stmts_view(stmts);
        let ghost marks = code_markers@;
        if lines[i].levels == 0 {
            let mut stop: usize = i + 1;
            while stop < lines.len() && lines[stop].levels == 0
                invariant
                    i < stop <= lines@.len(),
                    run_stop(lines@, i + 1, false) == run_stop(lines@, stop as int, false),
                decreases lines@.len() - stop,
            {
                stop += 1;
            }
            proof {
                reveal(region_wf);
            }
            let span = Span::new(
                Pos::new(lines[i].start as u32),
                Pos::new(lines[stop - 1].end as u32),
            );
            let text = Token { span, kind: TokenKind::CommentText };
            let mut elements: Vec<CommentElem> = Vec::new();
            elements.push(CommentElem::Text(text));
            let found = Comment { markers: Vec::new(), elements };
            assert(comment_view(found).elements =~= seq![CommentElemV::Text(text)]);
            assert(comment_view(found).markers =~= Seq::empty());
            let s = Stmt::Comment(found);
            assert(stmt_view(s) == prose_stmt(text_token(lines@, i as int, stop as int)));
            stmts.push(s);
            assert(stmts_view(stmts) =~= before.push(prose_stmt(text)));
            i = stop;
        } else {
            let (mut markers, code_lines, stop) = strip_run(bytes, lines, i, depth);
            let mut found = parse_code(source, bytes, &code_lines, Ghost((depth@ - 1) as nat))?;
            let ghost more = stmts_view(found.stmts);
            stmts.append(&mut found.stmts);
            code_markers.append(&mut markers);
            assert(stmts_view(stmts) =~= before + more);
            i = stop;
        }
    }
    Ok(Program { stmts, code_markers })
}

/// Parses a whole document.
pub fn parse_program(source: &str) -> (r: Result<Program, Error>)
    ensures
        match r {
            Ok(p) => program(source.spec_bytes()) == Ok::<ProgramV, ErrorV>(program_view(p)),
            Err(x) => program(source.spec_bytes()) == Err::<ProgramV, ErrorV>(x@),
        },
{
    reveal(naked_view);
    reveal(stmts_view);
    let bytes = source.as_bytes();
    if bytes.len() > u32::MAX as usize {
        return Err(Error::new(Span::new(Pos::new(0), Pos::new(0)), "source text is too long"));
    }
    let extents = split_lines(bytes);
    proof {
        lemma_lines_from(bytes@, 0);
    }
    let first = detect_first_marker_type(bytes, &extents)?;
    let lines = count_levels(bytes, &extents, first);
    match first {
        Marker::Comment => {
            let found = parse_code(source, bytes, &lines, Ghost(bytes@.len()))?;
            let p = Program { stmts: found.stmts, code_markers: Vec::new() };
            assert(p.code_markers@ =~= Seq::empty());
            Ok(p)
        },
        Marker::Code => parse_prose(source, bytes, &lines, Ghost(bytes@.len())),
    }
}

} // verus!
