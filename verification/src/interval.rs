//! One-dimensional intervals.

use vstd::prelude::*;
use crate::binary64::{larger, lesser, maximum, minimum};

verus! {

/// The interval between two binary64 bounds, each held as its bit pattern.
///
/// Nothing is asked of the bounds: `from` may lie above `to`, and either may be
/// infinite or a NaN. Two intervals are equal when their patterns are.
#[derive(Clone, Copy, Debug, PartialEq, Eq, Structural)]
pub struct Interval {
    pub from: u64,
    pub to: u64,
}

impl Interval {
    /// The bounds of what `self` and `other` have in common: the larger of the
    /// two lower bounds and the lesser of the two upper bounds.
    pub open spec fn common(self, other: Interval) -> Interval {
        Interval { from: larger(self.from, other.from), to: lesser(self.to, other.to) }
    }

    /// The interval from `from` to `to`.
    pub fn new(from: u64, to: u64) -> (r: Interval)
        ensures
            r == (Interval { from, to }),
    {
        Interval { from, to }
    }

    /// The bounds of what `self` and `other` have in common. The length of the
    /// result is the overlap of the two, and is negative where they are apart.
    pub fn intersection(&self, other: &Interval) -> (r: Interval)
        ensures
            r == self.common(*other),
    {
        Interval { from: maximum(self.from, other.from), to: minimum(self.to, other.to) }
    }
}

} // verus!
