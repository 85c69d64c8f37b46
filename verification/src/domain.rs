//! Bounded integer domains: the contiguous range of values a variable may
//! still take during a solve.

use vstd::prelude::*;

verus! {

/// An inclusive integer range `[lo, hi]`.  The domain is empty when
/// `lo > hi`; registration rejects such a range, and tightening reports it
/// as local unsatisfiability, so every domain held by a store is non-empty.
#[derive(Clone, Copy, PartialEq, Eq, Structural, Debug)]
pub struct Domain {
    pub lo: i32,
    pub hi: i32,
}

impl Domain {
    /// `v` is one of the values the domain still allows.
    pub open spec fn contains(self, v: int) -> bool {
        self.lo <= v <= self.hi
    }

    /// The domain allows at least one value.
    pub open spec fn is_nonempty(self) -> bool {
        self.lo <= self.hi
    }

    /// The domain has been reduced to a single value.
    pub open spec fn is_singleton(self) -> bool {
        self.lo == self.hi
    }

    /// Number of values the domain allows (zero when empty).
    pub open spec fn size(self) -> int {
        if self.lo <= self.hi {
            self.hi - self.lo + 1
        } else {
            0
        }
    }

    /// Every value of `self` is also a value of `outer`.
    pub open spec fn within(self, outer: Domain) -> bool {
        outer.lo <= self.lo && self.hi <= outer.hi
    }

    pub fn new(lo: i32, hi: i32) -> (d: Domain)
        ensures
            d == (Domain { lo, hi }),
    {
        Domain { lo, hi }
    }
}

} // verus!
