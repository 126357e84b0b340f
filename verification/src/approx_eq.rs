//! Tolerance-based equality, distinct from exact `==`. The exact integer
//! scalar's tolerance is zero; quaternions compare as rotations, by the dot
//! product against the scaled tolerance.

use vstd::prelude::*;

verus! {

/// Equality up to the tolerance of the implementing type.
pub trait ApproxEq: Sized {
    /// What the comparison asks of its inputs.
    spec fn approx_eq_req(self, other: Self) -> bool;

    /// What counts as equal for this type.
    spec fn approx_eq_spec(self, other: Self) -> bool;

    fn approx_eq(self, other: Self) -> (r: bool)
        requires
            self.approx_eq_req(other),
        ensures
            r == self.approx_eq_spec(other),
    ;
}

impl ApproxEq for i64 {
    open spec fn approx_eq_req(self, other: i64) -> bool {
        true
    }

    open spec fn approx_eq_spec(self, other: i64) -> bool {
        self == other
    }

    fn approx_eq(self, other: i64) -> (r: bool) {
        self == other
    }
}

} // verus!
