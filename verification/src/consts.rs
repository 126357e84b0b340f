//! Coordinate limits and the fixed-point resolution of the library.
//!
//! `UNIT_SCALE` is the integer that stands for the real number one: a unit
//! vector or unit quaternion has norm `UNIT_SCALE`, and normalization
//! produces directions at that resolution. `DOT_EPSILON` is the rotation
//! tolerance at that resolution: the machine epsilon of a single-precision
//! float, `2^-23`, scaled by the squared unit, `UNIT_SCALE * UNIT_SCALE`.
//!
//! The remaining constants bound coordinates so that the library's products
//! and sums are proved free of overflow. A product of two coordinates fits
//! in an `i64` when both are within `COORD_LIMIT`. The degree-three products
//! of a projection need `PROJECT_LIMIT`; rotating a vector by a quaternion
//! multiplies two quaternion coordinates and a vector coordinate, which
//! needs `ROTATE_Q_LIMIT` on the quaternion and `ROTATE_V_LIMIT` on the
//! vector.

use vstd::prelude::*;

verus! {

/// The fixed-point representation of one: the norm of a unit value.
pub const UNIT_SCALE: i64 = 0x1_0000;

/// Rotation-equality tolerance on dot products of unit values:
/// `UNIT_SCALE * UNIT_SCALE` divided by `2^23`.
pub const DOT_EPSILON: i64 = 0x200;

/// Bound on coordinates entering a product of two coordinates.
pub const COORD_LIMIT: i64 = 0x4000_0000;

/// Bound on coordinates entering a projection.
pub const PROJECT_LIMIT: i64 = 0x10_0000;

/// Bound on quaternion coordinates entering a vector rotation.
pub const ROTATE_Q_LIMIT: i64 = 0x100_0000;

/// Bound on vector coordinates entering a vector rotation.
pub const ROTATE_V_LIMIT: i64 = 0x800;

} // verus!
