//! Byte-offset ranges that identify a node's extent in the source text.

use vstd::prelude::*;

verus! {

/// A half-open range `[start, end)` of byte offsets into the source text.
#[derive(Clone, Copy, Debug, PartialEq, Eq, Structural)]
pub struct Span {
    pub start: u32,
    pub end: u32,
}

impl Span {
    /// The span `[start, end)`.
    pub fn new(start: u32, end: u32) -> (span: Span)
        ensures
            span.start == start,
            span.end == end,
    {
        Span { start, end }
    }

    /// `self` covers `other`: every offset of `other` lies within `self`,
    /// both ends included.
    pub open spec fn covers(self, other: Span) -> bool {
        self.start <= other.start && other.end <= self.end
    }

    /// Whether `other` lies within `self`, both ends included.
    pub fn contains_inclusive(self, other: Span) -> (inside: bool)
        ensures
            inside == self.covers(other),
    {
        self.start <= other.start && other.end <= self.end
    }
}

} // verus!
