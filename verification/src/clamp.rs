//! Clamping of scalar values into a closed interval.

use vstd::prelude::*;

verus! {

/// Clamp a value into `[min, max]`, testing the lower bound first.
pub trait Clamp: Sized {
    /// What clamping means for this scalar.
    spec fn clamp_spec(self, min: Self, max: Self) -> Self;

    fn clamp(self, min: Self, max: Self) -> (r: Self)
        ensures
            r == self.clamp_spec(min, max),
    ;
}

/// Clamp a value into the unit interval of its scalar.
pub trait Clamp01: Sized {
    /// What clamping into the unit interval means for this scalar.
    spec fn clamp01_spec(self) -> Self;

    fn clamp01(self) -> (r: Self)
        ensures
            r == self.clamp01_spec(),
    ;
}

impl Clamp for i64 {
    open spec fn clamp_spec(self, min: i64, max: i64) -> i64 {
        if self < min {
            min
        } else if self > max {
            max
        } else {
            self
        }
    }

    fn clamp(self, min: i64, max: i64) -> (r: i64) {
        if self < min {
            return min;
        }
        if self > max {
            return max;
        }
        self
    }
}

impl Clamp01 for i64 {
    open spec fn clamp01_spec(self) -> i64 {
        if self < 0 {
            0
        } else if self > 1 {
            1
        } else {
            self
        }
    }

    fn clamp01(self) -> (r: i64) {
        if self < 0 {
            return 0;
        }
        if self > 1 {
            return 1;
        }
        self
    }
}

} // verus!
