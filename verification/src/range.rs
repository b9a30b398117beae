//! An inclusive range of `u32` values with mutable bounds.
//!
//! The game keeps two values of this type: the full range, never touched
//! after construction, and the candidate range, narrowed after every
//! non-winning guess.

use vstd::prelude::*;

verus! {

/// An inclusive span `start..=end` whose bounds may be reassigned by the
/// owner, unlike `std::ops::RangeInclusive`.
#[derive(Clone, Copy, PartialEq, Eq, Structural, Debug)]
pub struct MutableRangeInclusive {
    pub start: u32,
    pub end: u32,
}

impl MutableRangeInclusive {
    /// A range is proper when its bounds are not inverted; an improper
    /// range is empty and the game never constructs one.
    pub open spec fn spec_is_proper(self) -> bool {
        self.start <= self.end
    }

    /// Whether `item` lies inside the span, as a mathematical statement.
    pub open spec fn spec_contains(self, item: u32) -> bool {
        self.start <= item && item <= self.end
    }

    /// Number of values in the span (for a proper range).
    pub open spec fn spec_length(self) -> int {
        self.end - self.start + 1
    }

    pub fn new(start: u32, end: u32) -> (r: MutableRangeInclusive)
        ensures
            r.start == start,
            r.end == end,
    {
        MutableRangeInclusive { start, end }
    }

    pub fn contains(self, item: u32) -> (r: bool)
        ensures
            r == self.spec_contains(item),
    {
        item >= self.start && item <= self.end
    }

    pub fn length(&self) -> (r: u64)
        requires
            self.spec_is_proper(),
        ensures
            r == self.spec_length(),
    {
        (self.end - self.start) as u64 + 1
    }
}

} // verus!
