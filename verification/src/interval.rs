//! Numeric ranges used as intersection bounds and for colour clamping.

use vstd::prelude::*;
use crate::scalar::Scalar;

verus! {

/// A range of numbers from `min` to `max`.
#[derive(Clone, Copy, Debug, PartialEq, Eq, Structural)]
pub struct Interval {
    pub min: Scalar,
    pub max: Scalar,
}

impl Interval {
    /// The bounds are numbers and `min` does not exceed `max`.
    pub open spec fn well_formed(self) -> bool {
        self.min.spec_le(self.max)
    }

    /// `min <= x <= max`.
    pub open spec fn spec_contains(self, x: Scalar) -> bool {
        self.min.spec_le(x) && x.spec_le(self.max)
    }

    /// `min < x < max`.
    pub open spec fn spec_surrounds(self, x: Scalar) -> bool {
        self.min.spec_lt(x) && x.spec_lt(self.max)
    }

    /// `x` moved to the nearer bound where it lies outside the range.
    pub open spec fn spec_clamp(self, x: Scalar) -> Scalar {
        if x.spec_lt(self.min) {
            self.min
        } else if x.spec_gt(self.max) {
            self.max
        } else {
            x
        }
    }

    /// The range from `min` to `max`.
    pub fn new(min: Scalar, max: Scalar) -> (r: Interval)
        ensures
            r.min == min,
            r.max == max,
    {
        Interval { min, max }
    }

    /// Whether `x` lies in the range, bounds included.
    pub fn contains(&self, x: Scalar) -> (r: bool)
        ensures
            r == self.spec_contains(x),
    {
        self.min.le(x) && x.le(self.max)
    }

    /// Whether `x` lies strictly inside the range.
    pub fn surrounds(&self, x: Scalar) -> (r: bool)
        ensures
            r == self.spec_surrounds(x),
    {
        self.min.lt(x) && x.lt(self.max)
    }

    /// Projects `x` into the range. A NaN is handed back as it is.
    pub fn clamp(&self, x: Scalar) -> (r: Scalar)
        ensures
            r == self.spec_clamp(x),
            self.well_formed() && !x.nan() ==> self.spec_contains(r),
            self.spec_contains(x) ==> r == x,
    {
        if x.lt(self.min) {
            self.min
        } else if x.gt(self.max) {
            self.max
        } else {
            x
        }
    }
}

} // verus!
