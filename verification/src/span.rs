//! Positions in a source text.

use vstd::prelude::*;

verus! {

/// A range of bytes of a source text, from `start` up to `end`.
#[derive(Debug, Clone, Copy, PartialEq, Eq, Structural, Hash)]
pub struct Span {
    pub start: u32,
    pub end: u32,
}

impl Span {
    /// The span from `start` up to `end`.
    pub fn new(start: u32, end: u32) -> (span: Span)
        requires
            start <= end,
        ensures
            span == (Span { start, end }),
    {
        Span { start, end }
    }

    /// The empty span at the start of a text.
    pub fn initial() -> (span: Span)
        ensures
            span == (Span { start: 0, end: 0 }),
    {
        Span { start: 0, end: 0 }
    }

    /// Where the span starts.
    pub fn start(self) -> (start: u32)
        ensures
            start == self.start,
    {
        self.start
    }

    /// Where the span ends.
    pub fn end(self) -> (end: u32)
        ensures
            end == self.end,
    {
        self.end
    }
}

} // verus!
