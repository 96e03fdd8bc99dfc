//! The layout of a comment: which of its lines are prose and which are
//! code, as the lines say it and as the parsed comment says it.

use crate::ast::{CommentElemV, CommentV, Token};
use crate::grammar::{code, comment, elements, run_markers, run_stop, stripped_run, text_token};
use crate::literate::Line;
use crate::pos::Span;
use vstd::prelude::*;

verus! {

/// A run of lines of a comment region: unmarked lines, which are prose,
/// from the start of the first to the end of the last, or marked lines,
/// which are code, with the marker of each.
pub enum Run {
    Prose(Span),
    Code(Seq<Token>),
}

pub open spec fn run_of(e: CommentElemV) -> Run {
    match e {
        CommentElemV::Text(t) => Run::Prose(t.span),
        CommentElemV::Code { markers, .. } => Run::Code(markers),
    }
}

/// The runs that the elements of a comment stand for.
pub open spec fn runs_of(es: Seq<CommentElemV>) -> Seq<Run> {
    Seq::new(es.len(), |i: int| run_of(es[i]))
}

/// The layout of a parsed comment.
pub open spec fn layout(c: CommentV) -> Seq<Run> {
    runs_of(c.elements)
}

/// The runs of the lines from line `i` on: the longest stretches of lines
/// that are all unmarked or all marked.
pub open spec fn partition(src: Seq<u8>, lines: Seq<Line>, i: int) -> Seq<Run>
    decreases lines.len() - i,
{
    if i < 0 || i >= lines.len() {
        Seq::empty()
    } else {
        let stop = run_stop(lines, i + 1, lines[i].levels > 0);
        if stop <= i || stop > lines.len() {
            Seq::empty()
        } else if lines[i].levels == 0 {
            seq![Run::Prose(text_token(lines, i, stop).span)] + partition(src, lines, stop)
        } else {
            seq![Run::Code(run_markers(src, lines, i, stop))] + partition(src, lines, stop)
        }
    }
}

proof fn lemma_elements_layout(
    src: Seq<u8>,
    lines: Seq<Line>,
    i: int,
    depth: nat,
    acc: Seq<CommentElemV>,
)
    requires
        0 <= i,
    ensures
        elements(src, lines, i, depth, acc) matches Ok(es) ==> runs_of(es) == runs_of(acc)
            + partition(src, lines, i),
    decreases lines.len() - i,
{
    reveal(elements);
    reveal(code);
    if i >= lines.len() {
        assert(runs_of(acc) + partition(src, lines, i) =~= runs_of(acc));
    } else if lines[i].levels == 0 {
        let stop = run_stop(lines, i + 1, false);
        if !(stop <= i || stop > lines.len()) {
            let next = acc.push(CommentElemV::Text(text_token(lines, i, stop)));
            lemma_elements_layout(src, lines, stop, depth, next);
            assert(runs_of(next) + partition(src, lines, stop) =~= runs_of(acc) + partition(
                src,
                lines,
                i,
            ));
        }
    } else {
        let stop = run_stop(lines, i + 1, true);
        if !(stop <= i || stop > lines.len() || depth == 0) {
            match code(src, stripped_run(src, lines, i, stop), (depth - 1) as nat) {
                Ok(found) => {
                    let next = acc.push(
                        CommentElemV::Code { markers: run_markers(src, lines, i, stop), code: found },
                    );
                    lemma_elements_layout(src, lines, stop, depth, next);
                    assert(runs_of(next) + partition(src, lines, stop) =~= runs_of(acc)
                        + partition(src, lines, i));
                },
                Err(_) => {},
            }
        }
    }
}

/// The comment that the lines of a comment region parse to has the layout
/// of these lines: its elements are their runs, one for one and in their
/// order, each stretch of prose with the span of its lines and each stretch
/// of code with the markers that were taken off its lines.
pub proof fn comment_keeps_layout(src: Seq<u8>, lines: Seq<Line>, markers: Seq<Token>, depth: nat)
    ensures
        comment(src, lines, markers, depth) matches Ok(c) ==> layout(c) == partition(src, lines, 0)
            && c.markers == markers,
{
    reveal(comment);
    reveal(elements);
    lemma_elements_layout(src, lines, 0, depth, Seq::empty());
    assert(runs_of(Seq::<CommentElemV>::empty()) =~= Seq::<Run>::empty());
    match elements(src, lines, 0, depth, Seq::empty()) {
        Ok(es) => {
            assert(runs_of(Seq::<CommentElemV>::empty()) + partition(src, lines, 0) =~= partition(
                src,
                lines,
                0,
            ));
        },
        Err(_) => {},
    }
}

} // verus!
