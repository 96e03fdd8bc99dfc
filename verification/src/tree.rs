//! Walking the tree: the statements inside a statement.

use crate::ast::{CommentElem, IfTail, Stmt};
use vstd::prelude::*;

verus! {

/// The statements of the bodies of all that follows an `if`.
pub open spec fn tail_children(tail: IfTail) -> Seq<Stmt>
    decreases tail,
{
    match tail {
        IfTail::End => Seq::empty(),
        IfTail::Else { body, .. } => body.contents.stmts@,
        IfTail::ElseIf { body, tail, .. } => body.contents.stmts@ + tail_children(*tail),
    }
}

/// The statements of the code of the elements from `i` on.
pub open spec fn code_children(elements: Seq<CommentElem>, i: int) -> Seq<Stmt>
    decreases elements.len() - i,
{
    if i < 0 || i >= elements.len() {
        Seq::empty()
    } else {
        match elements[i] {
            CommentElem::Text(_) => code_children(elements, i + 1),
            CommentElem::Code { code, .. } => code.stmts@ + code_children(elements, i + 1),
        }
    }
}

/// The statements directly inside a statement: those of its bodies, in
/// the order of the text; for a comment, those of the code in it.
pub open spec fn children(stmt: Stmt) -> Seq<Stmt> {
    match stmt {
        Stmt::While { body, .. } => body.contents.stmts@,
        Stmt::If { body, tail, .. } => body.contents.stmts@ + tail_children(tail),
        Stmt::For { body, .. } => body.contents.stmts@,
        Stmt::Comment(c) => code_children(c.elements@, 0),
        Stmt::FnDef(f) => f.body.contents.stmts@,
        Stmt::Block(b) => b.contents.stmts@,
        _ => Seq::empty(),
    }
}

/// The statements that the references point to.
pub open spec fn pointed<'a>(refs: Seq<&'a Stmt>) -> Seq<Stmt> {
    Seq::new(refs.len(), |i: int| *refs[i])
}

fn push_all<'a>(out: &mut Vec<&'a Stmt>, stmts: &'a Vec<Stmt>)
    ensures
        pointed(final(out)@) == pointed(old(out)@) + stmts@,
{
    let mut i: usize = 0;
    while i < stmts.len()
        invariant
            i <= stmts@.len(),
            pointed(out@) == pointed(old(out)@) + stmts@.subrange(0, i as int),
        decreases stmts@.len() - i,
    {
        let ghost before = pointed(out@);
        out.push(&stmts[i]);
        assert(pointed(out@) =~= before.push(stmts@[i as int]));
        i += 1;
        assert(stmts@.subrange(0, i as int) =~= stmts@.subrange(0, i - 1).push(stmts@[i - 1]));
        assert(pointed(out@) =~= pointed(old(out)@) + stmts@.subrange(0, i as int));
    }
    assert(stmts@.subrange(0, stmts@.len() as int) =~= stmts@);
}

/// Whether a statement is code: all but comments are.
pub fn is_code(stmt: &Stmt) -> (r: bool)
    ensures
        r == !(stmt is Comment),
{
    match stmt {
        Stmt::Comment(_) => false,
        _ => true,
    }
}

/// The statements directly inside a statement.
pub fn stmt_children<'a>(stmt: &'a Stmt) -> (r: Vec<&'a Stmt>)
    ensures
        pointed(r@) == children(*stmt),
{
    let mut out: Vec<&'a Stmt> = Vec::new();
    assert(pointed(out@) =~= Seq::empty());
    match stmt {
        Stmt::While { body, .. } => {
            push_all(&mut out, &body.contents.stmts);
        },
        Stmt::If { body, tail, .. } => {
            push_all(&mut out, &body.contents.stmts);
            let mut rest: &'a IfTail = tail;
            loop
                invariant
                    children(*stmt) == pointed(out@) + tail_children(*rest),
                decreases *rest,
            {
                match rest {
                    IfTail::End => {
                        assert(pointed(out@) + tail_children(*rest) =~= pointed(out@));
                        return out;
                    },
                    IfTail::Else { body, .. } => {
                        push_all(&mut out, &body.contents.stmts);
                        return out;
                    },
                    IfTail::ElseIf { body, tail, .. } => {
                        let ghost before = pointed(out@);
                        push_all(&mut out, &body.contents.stmts);
                        assert(pointed(out@) + tail_children(**tail) =~= before + tail_children(
                            *rest,
                        ));
                        rest = &**tail;
                    },
                }
            }
        },
        Stmt::For { body, .. } => {
            push_all(&mut out, &body.contents.stmts);
        },
        Stmt::Comment(c) => {
            let mut i: usize = 0;
            while i < c.elements.len()
                invariant
                    i <= c.elements@.len(),
                    code_children(c.elements@, 0) == pointed(out@) + code_children(
                        c.elements@,
                        i as int,
                    ),
                decreases c.elements@.len() - i,
            {
                match &c.elements[i] {
                    CommentElem::Text(_) => {},
                    CommentElem::Code { code, .. } => {
                        let ghost before = pointed(out@);
                        push_all(&mut out, &code.stmts);
                        assert(pointed(out@) + code_children(c.elements@, i + 1) =~= before
                            + code_children(c.elements@, i as int));
                    },
                }
                i += 1;
            }
            assert(pointed(out@) + code_children(c.elements@, i as int) =~= pointed(out@));
        },
        Stmt::FnDef(f) => {
            push_all(&mut out, &f.body.contents.stmts);
        },
        Stmt::Block(b) => {
            push_all(&mut out, &b.contents.stmts);
        },
        _ => {},
    }
    out
}

} // verus!
