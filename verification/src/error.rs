//! The one shape of every failure: where it is in the text, and what it is.

use crate::pos::Span;
use vstd::prelude::*;

verus! {

/// A syntax error or a runtime error.
#[derive(Debug)]
pub struct Error {
    pub span: Span,
    pub message: String,
}

/// An error, with its message as a sequence of characters.
pub struct ErrorV {
    pub span: Span,
    pub message: Seq<char>,
}

impl View for Error {
    type V = ErrorV;

    open spec fn view(&self) -> ErrorV {
        ErrorV { span: self.span, message: self.message@ }
    }
}

impl Error {
    /// An error at `span` that says `message`.
    pub fn new(span: Span, message: &str) -> (e: Error)
        ensures
            e@ == (ErrorV { span, message: message@ }),
    {
        Error { span, message: message.to_owned() }
    }
}

} // verus!
