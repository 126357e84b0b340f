//! Exact 3D rotation algebra: vectors and quaternions with integer
//! coordinates, specified against a mathematical model over `int`.
//!
//! Every operation states its result exactly. Magnitudes are floor square
//! roots; divisions are truncated, as `/` is on the machine. The algebraic
//! laws of the quaternion core (identity composition, the conjugation law,
//! multiplicativity of the squared norm, length preservation under rotation)
//! are proved over the model.

mod approx_eq;
mod clamp;
pub mod consts;
mod math;
mod quaternion;
mod vector3;
mod vector4;

pub use approx_eq::ApproxEq;
pub use clamp::Clamp;
pub use clamp::Clamp01;
pub use math::div_trunc;
pub use quaternion::EulerTerms;
pub use quaternion::QuatView;
pub use quaternion::Quaternion;
pub use quaternion::carry_sign;
pub use quaternion::trace_root;
pub use math::isqrt;
pub use math::sqrt_floor;
pub use vector3::Vec3View;
pub use vector3::Vector3;
pub use vector4::Vec4View;
pub use vector4::Vector4;
