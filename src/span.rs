//! Byte ranges into a source text.
use vstd::prelude::*;

verus! {

/// A byte range `[start, end)` into one source text.
///
/// Well-formed spans have `start <= end`, but nothing here assumes it: the
/// functions that read text through a span check it first.
#[derive(Clone, Copy, Debug, PartialEq, Eq, Structural)]
pub struct SourceSpan {
    pub start: u32,
    pub end: u32,
}

impl SourceSpan {
    pub fn new(start: u32, end: u32) -> (r: SourceSpan)
        ensures
            r.start == start,
            r.end == end,
    {
        SourceSpan { start, end }
    }

    /// Number of bytes covered; zero for an inverted span.
    pub fn size(&self) -> (r: u32)
        ensures
            r == if self.start <= self.end {
                (self.end - self.start) as u32
            } else {
                0u32
            },
    {
        if self.start <= self.end {
            self.end - self.start
        } else {
            0
        }
    }

    /// Whether `other` lies within this span, both ends included.
    pub fn contains_inclusive(&self, other: SourceSpan) -> (r: bool)
        ensures
            r == (self.start <= other.start && other.end <= self.end),
    {
        self.start <= other.start && other.end <= self.end
    }
}

} // verus!
