//! The markers of a tree alternate: every comment among code was marked
//! with `#`, and every stretch of code inside a comment with `>`.

use crate::ast::{CommentElemV, CommentV, FnDefV, IfTailV, ProgramV, StmtV, Token};
use crate::document::{document_lines, program, prose, prose_stmt};
use crate::grammar::{
    after, block, code, comment, elements, expr_stmt, fn_def, fn_defs, for_stmt, if_stmt, items_of,
    let_stmt, nested_stmt, return_stmt, run_markers, run_stop, stmt, stmts, stripped_run,
    struct_stmt, tail, while_stmt, Ctx, Item,
};
use crate::lexer::TokenKind;
use crate::literate::{first_marker, lines_of, Line, Marker};
use vstd::prelude::*;

verus! {

/// All tokens are of kind `kind`.
pub open spec fn all_of_kind(toks: Seq<Token>, kind: TokenKind) -> bool {
    forall|i: int| 0 <= i < toks.len() ==> (#[trigger] toks[i]).kind == kind
}

/// In the statement and in all that is inside it, the markers of every
/// comment are `#` and the markers of every stretch of code in a comment
/// are `>`.
pub open spec fn marked_stmt(s: StmtV) -> bool
    decreases s,
{
    match s {
        StmtV::If { body, tail, .. } => marked_stmts(body.contents.stmts) && marked_tail(tail),
        StmtV::For { body, .. } => marked_stmts(body.contents.stmts),
        StmtV::While { body, .. } => marked_stmts(body.contents.stmts),
        StmtV::Comment(c) => marked_comment(c),
        StmtV::FnDef(f) => marked_stmts(f.body.contents.stmts),
        StmtV::StructDef { fns, .. } => marked_fns(fns),
        StmtV::Block(b) => marked_stmts(b.contents.stmts),
        _ => true,
    }
}

pub open spec fn marked_stmts(list: Seq<StmtV>) -> bool
    decreases list,
{
    forall|i: int| 0 <= i < list.len() ==> marked_stmt(#[trigger] list[i])
}

pub open spec fn marked_fns(list: Seq<FnDefV>) -> bool
    decreases list,
{
    forall|i: int| 0 <= i < list.len() ==> marked_stmts((#[trigger] list[i]).body.contents.stmts)
}

pub open spec fn marked_tail(t: IfTailV) -> bool
    decreases t,
{
    match t {
        IfTailV::End => true,
        IfTailV::Else { body, .. } => marked_stmts(body.contents.stmts),
        IfTailV::ElseIf { body, tail, .. } => marked_stmts(body.contents.stmts) && marked_tail(
            *tail,
        ),
    }
}

pub open spec fn marked_elem(e: CommentElemV) -> bool
    decreases e,
{
    match e {
        CommentElemV::Text(_) => true,
        CommentElemV::Code { markers, code } => all_of_kind(markers, TokenKind::CodeMarker)
            && marked_stmts(code.stmts),
    }
}

pub open spec fn marked_elems(list: Seq<CommentElemV>) -> bool
    decreases list,
{
    forall|i: int| 0 <= i < list.len() ==> marked_elem(#[trigger] list[i])
}

pub open spec fn marked_comment(c: CommentV) -> bool
    decreases c,
{
    all_of_kind(c.markers, TokenKind::CommentMarker) && marked_elems(c.elements)
}

/// The next marker of every line is `m`.
pub open spec fn uniform(lines: Seq<Line>, m: Marker) -> bool {
    forall|k: int| 0 <= k < lines.len() ==> (#[trigger] lines[k]).marker == m
}

proof fn lemma_run(src: Seq<u8>, lines: Seq<Line>, i: int, j: int, m: Marker)
    requires
        uniform(lines, m),
        0 <= i <= j <= lines.len(),
    ensures
        all_of_kind(run_markers(src, lines, i, j), m.kind()),
        uniform(stripped_run(src, lines, i, j), m.flipped()),
{
    assert forall|k: int| 0 <= k < j - i implies (#[trigger] run_markers(src, lines, i, j)[k]).kind
        == m.kind() by {
        assert(lines[i + k].marker == m);
    }
    assert forall|k: int| 0 <= k < j - i implies (#[trigger] stripped_run(
        src,
        lines,
        i,
        j,
    )[k]).marker == m.flipped() by {
        assert(lines[i + k].marker == m);
    }
}

proof fn lemma_pushed(acc: Seq<StmtV>, s: StmtV)
    requires
        marked_stmts(acc),
        marked_stmt(s),
    ensures
        marked_stmts(acc.push(s)),
{
    let all = acc.push(s);
    assert forall|i: int| 0 <= i < all.len() implies marked_stmt(#[trigger] all[i]) by {
        if i < acc.len() {
            assert(all[i] == acc[i]);
        }
    }
}

proof fn lemma_stmts(c: Ctx, pos: int, closing: bool, acc: Seq<StmtV>)
    requires
        uniform(c.lines, Marker::Comment),
        marked_stmts(acc),
    ensures
        stmts(c, pos, closing, acc) matches Ok((list, _)) ==> marked_stmts(list),
    decreases c.depth, c.left(pos), 14int,
{
    reveal(stmts);
    reveal(stmt);
    if !(c.peek(pos) is None || (closing && c.peek_kind(pos) == Some(TokenKind::RightCurly))) {
        lemma_stmt(c, pos);
        match after(pos, stmt(c, pos)) {
            Ok((s, q)) => {
                if c.left(q) < c.left(pos) {
                    lemma_pushed(acc, s);
                    lemma_stmts(c, q, closing, acc.push(s));
                }
            },
            Err(_) => {},
        }
    }
}

proof fn lemma_block(c: Ctx, pos: int)
    requires
        uniform(c.lines, Marker::Comment),
    ensures
        block(c, pos) matches Ok((b, _)) ==> marked_stmts(b.contents.stmts),
    decreases c.depth, c.left(pos), 10int,
{
    reveal(block);
    reveal(stmts);
    match c.expect(pos, TokenKind::LeftCurly) {
        Ok((_, q1)) => {
            lemma_stmts(c, q1, true, Seq::empty());
        },
        Err(_) => {},
    }
}

proof fn lemma_fn_def(c: Ctx, pos: int)
    requires
        uniform(c.lines, Marker::Comment),
    ensures
        fn_def(c, pos) matches Ok((f, _)) ==> marked_stmts(f.body.contents.stmts),
    decreases c.depth, c.left(pos), 10int,
{
    reveal(fn_def);
    reveal(block);
    match c.expect(pos, TokenKind::Fn) {
        Ok((_, q1)) => match c.name(q1) {
            Ok((_, q2)) => match c.expect(q2, TokenKind::LeftParen) {
                Ok((_, q3)) => match after(
                    pos,
                    crate::grammar::param_list(c, q3, Seq::empty()),
                ) {
                    Ok((_, q4)) => match c.expect(q4, TokenKind::RightParen) {
                        Ok((_, q5)) => {
                            lemma_block(c, q5);
                        },
                        Err(_) => {},
                    },
                    Err(_) => {},
                },
                Err(_) => {},
            },
            Err(_) => {},
        },
        Err(_) => {},
    }
}

proof fn lemma_fn_defs(c: Ctx, pos: int, acc: Seq<FnDefV>)
    requires
        uniform(c.lines, Marker::Comment),
        marked_fns(acc),
    ensures
        fn_defs(c, pos, acc) matches Ok((list, _)) ==> marked_fns(list),
    decreases c.depth, c.left(pos), 11int,
{
    reveal(fn_defs);
    reveal(fn_def);
    if c.peek_kind(pos) == Some(TokenKind::Fn) {
        lemma_fn_def(c, pos);
        match after(pos, fn_def(c, pos)) {
            Ok((f, q)) => {
                if c.left(q) < c.left(pos) {
                    let all = acc.push(f);
                    assert forall|i: int| 0 <= i < all.len() implies marked_stmts(
                        (#[trigger] all[i]).body.contents.stmts,
                    ) by {
                        if i < acc.len() {
                            assert(all[i] == acc[i]);
                        }
                    }
                    lemma_fn_defs(c, q, all);
                }
            },
            Err(_) => {},
        }
    }
}

proof fn lemma_tail(c: Ctx, pos: int)
    requires
        uniform(c.lines, Marker::Comment),
    ensures
        tail(c, pos) matches Ok((t, _)) ==> marked_tail(t),
    decreases c.depth, c.left(pos), 9int,
{
    reveal(tail);
    reveal(block);
    reveal(crate::grammar::cond);
    if c.peek_kind(pos) == Some(TokenKind::Else) {
        if c.peek_kind(pos + 1) == Some(TokenKind::If) {
            match after(pos, crate::grammar::cond(c, pos + 2)) {
                Ok((_, q1)) => {
                    lemma_block(c, q1);
                    match after(pos, block(c, q1)) {
                        Ok((_, q2)) => {
                            lemma_tail(c, q2);
                        },
                        Err(_) => {},
                    }
                },
                Err(_) => {},
            }
        } else {
            lemma_block(c, pos + 1);
        }
    }
}

proof fn lemma_if_stmt(c: Ctx, pos: int, tok: Token)
    requires
        uniform(c.lines, Marker::Comment),
    ensures
        if_stmt(c, pos, tok) matches Ok((s, _)) ==> marked_stmt(s),
    decreases c.depth, c.left(pos), 11int,
{
    reveal(if_stmt);
    reveal(block);
    reveal(tail);
    reveal(crate::grammar::cond);
    match after(pos, crate::grammar::cond(c, pos)) {
        Ok((_, q1)) => {
            lemma_block(c, q1);
            match after(pos, block(c, q1)) {
                Ok((_, q2)) => {
                    lemma_tail(c, q2);
                },
                Err(_) => {},
            }
        },
        Err(_) => {},
    }
}

proof fn lemma_for_stmt(c: Ctx, pos: int, tok: Token)
    requires
        uniform(c.lines, Marker::Comment),
    ensures
        for_stmt(c, pos, tok) matches Ok((s, _)) ==> marked_stmt(s),
    decreases c.depth, c.left(pos), 11int,
{
    reveal(for_stmt);
    reveal(block);
    reveal(crate::grammar::expr);
    match c.name(pos) {
        Ok((_, q1)) => match c.expect(q1, TokenKind::In) {
            Ok((_, q2)) => match after(pos, crate::grammar::expr(c, q2, crate::grammar::Prec::Min)) {
                Ok((_, q3)) => {
                    lemma_block(c, q3);
                },
                Err(_) => {},
            },
            Err(_) => {},
        },
        Err(_) => {},
    }
}

proof fn lemma_while_stmt(c: Ctx, pos: int, tok: Token)
    requires
        uniform(c.lines, Marker::Comment),
    ensures
        while_stmt(c, pos, tok) matches Ok((s, _)) ==> marked_stmt(s),
    decreases c.depth, c.left(pos), 11int,
{
    reveal(while_stmt);
    reveal(block);
    reveal(crate::grammar::expr);
    match after(pos, crate::grammar::expr(c, pos, crate::grammar::Prec::Min)) {
        Ok((_, q1)) => {
            lemma_block(c, q1);
        },
        Err(_) => {},
    }
}

proof fn lemma_struct_stmt(c: Ctx, pos: int, tok: Token)
    requires
        uniform(c.lines, Marker::Comment),
    ensures
        struct_stmt(c, pos, tok) matches Ok((s, _)) ==> marked_stmt(s),
    decreases c.depth, c.left(pos), 12int,
{
    reveal(struct_stmt);
    reveal(fn_defs);
    match c.name(pos) {
        Ok((_, q1)) => match c.expect(q1, TokenKind::LeftCurly) {
            Ok((_, q2)) => {
                lemma_fn_defs(c, q2, Seq::empty());
            },
            Err(_) => {},
        },
        Err(_) => {},
    }
}

proof fn lemma_nested(c: Ctx, pos: int, first: usize)
    requires
        uniform(c.lines, Marker::Comment),
    ensures
        nested_stmt(c, pos, first) matches Ok((s, _)) ==> marked_stmt(s),
    decreases c.depth, c.left(pos), 11int,
{
    reveal(nested_stmt);
    reveal(comment);
    let stop = run_stop(c.lines, first as int, true);
    if first < c.lines.len() && c.lines[first as int].levels > 0 && c.depth > 0 {
        lemma_stop(c.lines, first as int, true);
        lemma_run(c.src, c.lines, first as int, stop, Marker::Comment);
        lemma_comment(
            c.src,
            stripped_run(c.src, c.lines, first as int, stop),
            run_markers(c.src, c.lines, first as int, stop),
            (c.depth - 1) as nat,
        );
    }
}

/// A run stops at or behind its start and inside the lines.
proof fn lemma_stop(lines: Seq<Line>, i: int, marked: bool)
    requires
        0 <= i <= lines.len(),
    ensures
        i <= run_stop(lines, i, marked) <= lines.len(),
    decreases lines.len() - i,
{
    if i < lines.len() && (lines[i].levels > 0) == marked {
        lemma_stop(lines, i + 1, marked);
    }
}

proof fn lemma_stmt(c: Ctx, pos: int)
    requires
        uniform(c.lines, Marker::Comment),
    ensures
        stmt(c, pos) matches Ok((s, _)) ==> marked_stmt(s),
    decreases c.depth, c.left(pos), 13int,
{
    reveal(stmt);
    reveal(nested_stmt);
    reveal(if_stmt);
    reveal(for_stmt);
    reveal(while_stmt);
    reveal(return_stmt);
    reveal(let_stmt);
    reveal(fn_def);
    reveal(struct_stmt);
    reveal(block);
    reveal(expr_stmt);
    match c.peek(pos) {
        None => {},
        Some(Item::Nested { first, .. }) => {
            lemma_nested(c, pos, first);
        },
        Some(Item::Tok(tok)) => {
            match tok.kind {
                TokenKind::If => {
                    lemma_if_stmt(c, pos + 1, tok);
                },
                TokenKind::For => {
                    lemma_for_stmt(c, pos + 1, tok);
                },
                TokenKind::While => {
                    lemma_while_stmt(c, pos + 1, tok);
                },
                TokenKind::Fn => {
                    lemma_fn_def(c, pos);
                },
                TokenKind::Struct => {
                    lemma_struct_stmt(c, pos + 1, tok);
                },
                TokenKind::LeftCurly => {
                    lemma_block(c, pos);
                },
                _ => {},
            }
        },
    }
}

proof fn lemma_code(src: Seq<u8>, lines: Seq<Line>, depth: nat)
    requires
        uniform(lines, Marker::Comment),
    ensures
        code(src, lines, depth) matches Ok(b) ==> marked_stmts(b.stmts),
    decreases depth, items_of(src, lines).len() + 1, 0int,
{
    reveal(code);
    reveal(stmts);
    let c = Ctx { src, lines, items: items_of(src, lines), depth };
    lemma_stmts(c, 0, false, Seq::empty());
}

proof fn lemma_elements(
    src: Seq<u8>,
    lines: Seq<Line>,
    i: int,
    depth: nat,
    acc: Seq<CommentElemV>,
)
    requires
        0 <= i,
        uniform(lines, Marker::Code),
        marked_elems(acc),
    ensures
        elements(src, lines, i, depth, acc) matches Ok(list) ==> marked_elems(list),
    decreases depth, lines.len() - i, 0int,
{
    reveal(elements);
    reveal(code);
    if i < lines.len() {
        if lines[i].levels == 0 {
            let stop = run_stop(lines, i + 1, false);
            if !(stop <= i || stop > lines.len()) {
                let next = acc.push(CommentElemV::Text(crate::grammar::text_token(lines, i, stop)));
                assert forall|k: int| 0 <= k < next.len() implies marked_elem(#[trigger] next[k]) by {
                    if k < acc.len() {
                        assert(next[k] == acc[k]);
                    }
                }
                lemma_elements(src, lines, stop, depth, next);
            }
        } else {
            let stop = run_stop(lines, i + 1, true);
            if !(stop <= i || stop > lines.len() || depth == 0) {
                lemma_run(src, lines, i, stop, Marker::Code);
                lemma_code(src, stripped_run(src, lines, i, stop), (depth - 1) as nat);
                match code(src, stripped_run(src, lines, i, stop), (depth - 1) as nat) {
                    Ok(found) => {
                        let next = acc.push(
                            CommentElemV::Code {
                                markers: run_markers(src, lines, i, stop),
                                code: found,
                            },
                        );
                        assert forall|k: int| 0 <= k < next.len() implies marked_elem(
                            #[trigger] next[k],
                        ) by {
                            if k < acc.len() {
                                assert(next[k] == acc[k]);
                            }
                        }
                        lemma_elements(src, lines, stop, depth, next);
                    },
                    Err(_) => {},
                }
            }
        }
    }
}

proof fn lemma_comment(src: Seq<u8>, lines: Seq<Line>, markers: Seq<Token>, depth: nat)
    requires
        uniform(lines, Marker::Code),
        all_of_kind(markers, TokenKind::CommentMarker),
    ensures
        comment(src, lines, markers, depth) matches Ok(c) ==> marked_comment(c),
    decreases depth, lines.len() + 1, 0int,
{
    reveal(comment);
    reveal(elements);
    lemma_elements(src, lines, 0, depth, Seq::empty());
}

proof fn lemma_prose(src: Seq<u8>, lines: Seq<Line>, i: int, depth: nat, acc: ProgramV)
    requires
        0 <= i,
        uniform(lines, Marker::Code),
        marked_stmts(acc.stmts),
        all_of_kind(acc.code_markers, TokenKind::CodeMarker),
    ensures
        prose(src, lines, i, depth, acc) matches Ok(p) ==> marked_stmts(p.stmts) && all_of_kind(
            p.code_markers,
            TokenKind::CodeMarker,
        ),
    decreases lines.len() - i,
{
    if i < lines.len() {
        if lines[i].levels == 0 {
            let stop = run_stop(lines, i + 1, false);
            if !(stop <= i || stop > lines.len()) {
                let s = prose_stmt(crate::grammar::text_token(lines, i, stop));
                let text = crate::grammar::text_token(lines, i, stop);
                let only = seq![CommentElemV::Text(text)];
                assert forall|k: int| 0 <= k < only.len() implies marked_elem(#[trigger] only[k]) by {
                    assert(only[k] == CommentElemV::Text(text));
                }
                assert(marked_comment(CommentV { markers: Seq::empty(), elements: only }));
                assert(marked_stmt(s));
                lemma_pushed(acc.stmts, s);
                lemma_prose(
                    src,
                    lines,
                    stop,
                    depth,
                    ProgramV { stmts: acc.stmts.push(s), code_markers: acc.code_markers },
                );
            }
        } else {
            let stop = run_stop(lines, i + 1, true);
            if !(stop <= i || stop > lines.len() || depth == 0) {
                lemma_run(src, lines, i, stop, Marker::Code);
                lemma_code(src, stripped_run(src, lines, i, stop), (depth - 1) as nat);
                match code(src, stripped_run(src, lines, i, stop), (depth - 1) as nat) {
                    Ok(found) => {
                        let next = ProgramV {
                            stmts: acc.stmts + found.stmts,
                            code_markers: acc.code_markers + run_markers(src, lines, i, stop),
                        };
                        assert forall|k: int| 0 <= k < next.stmts.len() implies marked_stmt(
                            #[trigger] next.stmts[k],
                        ) by {
                            if k < acc.stmts.len() {
                                assert(next.stmts[k] == acc.stmts[k]);
                            } else {
                                assert(next.stmts[k] == found.stmts[k - acc.stmts.len()]);
                            }
                        }
                        assert forall|k: int| 0 <= k < next.code_markers.len() implies (
                        #[trigger] next.code_markers[k]).kind == TokenKind::CodeMarker by {
                            if k < acc.code_markers.len() {
                                assert(next.code_markers[k] == acc.code_markers[k]);
                            } else {
                                assert(next.code_markers[k] == run_markers(
                                    src,
                                    lines,
                                    i,
                                    stop,
                                )[k - acc.code_markers.len()]);
                            }
                        }
                        lemma_prose(src, lines, stop, depth, next);
                    },
                    Err(_) => {},
                }
            }
        }
    }
}

/// In the tree of every document that parses the markers alternate: the
/// code markers of the program are `>`, the markers of every comment are
/// `#`, and the markers of every stretch of code inside a comment are `>`,
/// however deep the comment stands.
pub proof fn markers_alternate(src: Seq<u8>)
    ensures
        program(src) matches Ok(p) ==> all_of_kind(p.code_markers, TokenKind::CodeMarker)
            && marked_stmts(p.stmts),
{
    let first = first_marker(src, lines_of(src));
    let lines = document_lines(src, first);
    assert(uniform(lines, first));
    if first == Marker::Comment {
        lemma_code(src, lines, src.len());
    } else {
        lemma_prose(
            src,
            lines,
            0,
            src.len(),
            ProgramV { stmts: Seq::empty(), code_markers: Seq::empty() },
        );
    }
}

} // verus!
