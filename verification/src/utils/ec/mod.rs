//! The elliptic curves that the precompiles work on.

pub mod edwards;
pub mod weierstrass;

use vstd::prelude::*;

verus! {

/// The number of bytes of a compressed point.
pub const COMPRESSED_POINT_BYTES: usize = 32;

/// The number of bytes of a field element of a curve.
pub const NUM_BYTES_FIELD_ELEMENT: usize = 32;

/// The number of words of a field element of a curve.
pub const NUM_WORDS_FIELD_ELEMENT: usize = 8;

} // verus!
