//! Arithmetic in the base field of a curve, limb by limb: the result and
//! the carry of an operation, and the witness that the polynomial of the
//! limbs vanishes at the base of the limbs.

pub mod field_air;
pub mod field_op;
pub mod field_sqrt;
pub mod params;
