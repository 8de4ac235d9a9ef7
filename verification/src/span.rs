//! Byte spans into the original source.

use vstd::prelude::*;

verus! {

/// A half-open byte range `[start, end)` into the original source.
/// Every node of the syntax tree carries one.
#[derive(Clone, Copy, PartialEq, Eq, Structural)]
pub struct Span {
    pub start: usize,
    pub end: usize,
}

/// The smallest span covering both `a` and `b`.
pub open spec fn spec_join(a: Span, b: Span) -> Span {
    Span {
        start: if a.start <= b.start {
            a.start
        } else {
            b.start
        },
        end: if a.end >= b.end {
            a.end
        } else {
            b.end
        },
    }
}

impl Span {
    /// A span from `start` to `end`.
    pub fn new(start: usize, end: usize) -> (r: Span)
        ensures
            r.start == start,
            r.end == end,
    {
        Span { start, end }
    }

    /// The smallest span covering both `self` and `other`.
    pub fn join(self, other: Span) -> (r: Span)
        ensures
            r == spec_join(self, other),
    {
        Span {
            start: if self.start <= other.start {
                self.start
            } else {
                other.start
            },
            end: if self.end >= other.end {
                self.end
            } else {
                other.end
            },
        }
    }
}

} // verus!
