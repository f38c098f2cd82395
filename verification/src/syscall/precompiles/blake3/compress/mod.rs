//! The inner loop of the compression: seven rounds of eight calls of the
//! mixing function.

pub mod execute;

use vstd::prelude::*;

verus! {

/// The chip of the inner loop of the compression.
#[derive(Default)]
pub struct Blake3CompressInnerChip;

impl Blake3CompressInnerChip {
    pub fn new() -> (r: Self)
        ensures
            r == Blake3CompressInnerChip,
    {
        Blake3CompressInnerChip
    }
}

} // verus!
