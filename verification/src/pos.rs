//! Positions and spans: byte offsets into the source text.

use vstd::prelude::*;
use vstd::string::StringSliceAdditionalSpecFns;

verus! {

/// How many bytes the character `c` takes in the text.
pub open spec fn utf8_len(c: char) -> int {
    if (c as u32) < 0x80 {
        1
    } else if (c as u32) < 0x800 {
        2
    } else if (c as u32) < 0x10000 {
        3
    } else {
        4
    }
}

/// A byte offset into the source text.
#[derive(PartialEq, Eq, Structural, PartialOrd, Ord, Debug, Hash, Clone, Copy)]
pub struct Pos {
    pub src_offset: u32,
}

impl Pos {
    pub fn new(src_offset: u32) -> (pos: Pos)
        ensures
            pos.src_offset == src_offset,
    {
        Pos { src_offset }
    }

    /// The offset as a mathematical integer.
    pub open spec fn offset(self) -> int {
        self.src_offset as int
    }

    /// The position `len` bytes further on.
    pub fn plus_len(self, len: usize) -> (pos: Pos)
        requires
            self.offset() + len <= u32::MAX,
        ensures
            pos.offset() == self.offset() + len,
    {
        Pos { src_offset: self.src_offset + len as u32 }
    }

    /// The position behind `text`, when `text` starts here.
    pub fn plus_text(self, text: &str) -> (pos: Pos)
        requires
            self.offset() + text.spec_bytes().len() <= u32::MAX,
        ensures
            pos.offset() == self.offset() + text.spec_bytes().len(),
    {
        self.plus_len(text.len())
    }

    /// The position behind the character `c`, when `c` starts here.
    pub fn plus_char(self, c: char) -> (pos: Pos)
        requires
            self.offset() + utf8_len(c) <= u32::MAX,
        ensures
            pos.offset() == self.offset() + utf8_len(c),
    {
        let code: u32 = c as u32;
        let len: usize = if code < 0x80 {
            1
        } else if code < 0x800 {
            2
        } else if code < 0x10000 {
            3
        } else {
            4
        };
        self.plus_len(len)
    }

    pub fn source_pos(self) -> (offset: usize)
        ensures
            offset == self.offset(),
    {
        self.src_offset as usize
    }
}

/// The half-open range of bytes from `start` up to `end`.
#[derive(PartialEq, Eq, Structural, Debug, Hash, Clone, Copy)]
pub struct Span {
    pub start: Pos,
    pub end: Pos,
}

impl Span {
    pub fn new(start: Pos, end: Pos) -> (span: Span)
        ensures
            span.start == start,
            span.end == end,
    {
        Span { start, end }
    }

    /// The smallest span that covers both `self` and `other`.
    pub open spec fn merged(self, other: Span) -> Span {
        Span {
            start: if self.start.offset() <= other.start.offset() {
                self.start
            } else {
                other.start
            },
            end: if self.end.offset() >= other.end.offset() {
                self.end
            } else {
                other.end
            },
        }
    }

    pub fn merge(self, other: Span) -> (span: Span)
        ensures
            span == self.merged(other),
    {
        let start = if self.start.src_offset <= other.start.src_offset {
            self.start
        } else {
            other.start
        };
        let end = if self.end.src_offset >= other.end.src_offset {
            self.end
        } else {
            other.end
        };
        Span { start, end }
    }

    pub fn start(self) -> (pos: Pos)
        ensures
            pos == self.start,
    {
        self.start
    }

    pub fn end(self) -> (pos: Pos)
        ensures
            pos == self.end,
    {
        self.end
    }

    pub fn source_range(self) -> (range: std::ops::Range<usize>)
        ensures
            range.start == self.start.offset(),
            range.end == self.end.offset(),
    {
        self.start.source_pos()..self.end.source_pos()
    }
}

} // verus!
