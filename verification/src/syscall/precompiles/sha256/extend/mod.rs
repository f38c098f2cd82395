//! The extension of the message schedule: from the first sixteen words of
//! a block, the other forty-eight.

pub mod execute;

use vstd::prelude::*;

verus! {

/// The chip of the extension of the message schedule.
#[derive(Default)]
pub struct ShaExtendChip;

impl ShaExtendChip {
    pub fn new() -> (r: Self)
        ensures
            r == ShaExtendChip,
    {
        ShaExtendChip
    }
}

} // verus!
