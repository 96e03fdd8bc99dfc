//! A front end and tree-walking runtime for a small literate scripting
//! language: every source file is prose and program at once, told apart by
//! the markers `#` and `>` at the start of its lines.
//!
//! Three things are offered: [`parse`] makes a tree of a text, [`eval`] runs
//! a tree and collects what it writes, and [`tokens`] gives the tokens of a
//! text for display. All places are byte offsets into the text.
//!
//! The text goes through the modules in this order: `literate` cuts it into
//! lines and counts the markers of each, `lexer` reads tokens, `scan` makes
//! the items of a code region of them, `parser` builds the tree that
//! `grammar` describes, and `document` puts a whole document together. The
//! tree is run by `eval` on the machine of `machine`, with the values of
//! `value` and the operators of `intrinsics`, as `semantics` says.
//! `theory`, `budget`, `soundness`, `layout`, `marking` and `borders` hold
//! what is proved of all this; `display`, `editor` and `tree` serve tools.

pub mod ast;
pub mod borders;
pub mod budget;
pub mod display;
pub mod document;
pub mod editor;
pub mod error;
pub mod eval;
pub mod grammar;
pub mod intrinsics;
pub mod layout;
pub mod lexer;
pub mod literate;
pub mod machine;
pub mod marking;
pub mod parser;
pub mod pos;
pub mod scan;
pub mod semantics;
pub mod soundness;
pub mod text;
pub mod theory;
pub mod tree;
pub mod value;

pub use crate::display::{Token, TokenKind};
pub use crate::error::Error;
pub use crate::pos::{Pos, Span};

use crate::ast::{program_view, Program, ProgramV};
use crate::borders::{display_on_borders, on_borders};
use crate::display::{display, display_tokens, in_order};
use crate::document::{parse_program, program};
use crate::error::ErrorV;
use crate::eval::failing;
use crate::machine::Evaluator;
use crate::semantics::{initial_state, run_from};
use crate::value::{Env, State};
use vstd::prelude::*;
use vstd::string::StringSliceAdditionalSpecFns;

verus! {

/// A parsed document.
#[derive(Debug)]
pub struct Ast {
    source: String,
    program: Program,
}

impl Ast {
    /// The program of the document.
    pub closed spec fn tree(&self) -> Program {
        self.program
    }

    /// The text of the document.
    pub closed spec fn text(&self) -> Seq<char> {
        self.source@
    }

    /// The program of the document.
    pub fn program(&self) -> (p: &Program)
        ensures
            *p == self.tree(),
    {
        &self.program
    }

    /// The text that was parsed.
    pub fn source(&self) -> (s: &str)
        ensures
            s@ == self.text(),
    {
        self.source.as_str()
    }
}

/// Parses a document: its tree, or the one error that stops the parse.
pub fn parse(source: &str) -> (r: Result<Ast, Error>)
    ensures
        match r {
            Ok(ast) => program(source.spec_bytes()) == Ok::<ProgramV, ErrorV>(
                program_view(ast.tree()),
            ) && ast.text() == source@,
            Err(e) => program(source.spec_bytes()) == Err::<ProgramV, ErrorV>(e@),
        },
{
    match parse_program(source) {
        Ok(program) => Ok(Ast { source: source.to_owned(), program }),
        Err(e) => Err(e),
    }
}

/// What running a program on `fuel` leaves: the final state, whose output is
/// all that the program wrote, and the runtime error, if it came to one.
pub open spec fn outcome(fuel: nat, p: Program) -> (State, Result<(), ErrorV>) {
    run_from(fuel, initial_state(), p.stmts@, 0, Env::Global)
}

/// The budget on which `eval` runs a program.
pub const DEFAULT_FUEL: u64 = 0xffff_ffff_ffff_ffff;

/// Runs a program on the budget `fuel`. What the program writes goes behind
/// what `output` holds, also where the run ends in an error.
pub fn eval_with_fuel(ast: &Ast, output: &mut Vec<u8>, fuel: u64) -> (r: Result<(), Error>)
    ensures
        final(output)@ == old(output)@ + outcome(fuel as nat, ast.tree()).0.output,
        failing(r) == outcome(fuel as nat, ast.tree()).1,
{
    let mut evaluator = Evaluator::new();
    let r = evaluator.run_program(fuel, &ast.program);
    output.append(&mut evaluator.output);
    r
}

/// Runs a program. What the program writes goes behind what `output` holds,
/// also where the run ends in an error.
pub fn eval(ast: &Ast, output: &mut Vec<u8>) -> (r: Result<(), Error>)
    ensures
        final(output)@ == old(output)@ + outcome(DEFAULT_FUEL as nat, ast.tree()).0.output,
        failing(r) == outcome(DEFAULT_FUEL as nat, ast.tree()).1,
{
    eval_with_fuel(ast, output, DEFAULT_FUEL)
}

/// The tokens of a document for display, in the order of the text.
pub fn tokens(source: &str) -> (r: Vec<Token>)
    ensures
        r@ == display(source.spec_bytes()),
        in_order(r@, 0, source.spec_bytes().len() as int),
        on_borders(source.spec_bytes(), r@),
{
    proof {
        vstd::utf8::encode_utf8_valid_utf8(source@);
        display_on_borders(source.spec_bytes());
    }
    display_tokens(source)
}

} // verus!
