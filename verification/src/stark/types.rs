//! What a proof of a shard opens: for every chip, the values of its traces
//! at the point outside the domain and at the point after it.

use crate::air::{exts_view, EvalPoint, Expr, Interaction, Point};
use crate::extension::{Ext, Quartic};
use vstd::prelude::*;

verus! {

/// The values of one trace in the current row and in the next.
pub struct AirOpenedValues {
    pub local: Vec<Ext>,
    pub next: Vec<Ext>,
}

/// The values that a proof opens for one chip. The permutation columns
/// and the chunks of the quotient are opened coefficient by coefficient.
pub struct ChipOpenedValues {
    pub preprocessed: AirOpenedValues,
    pub main: AirOpenedValues,
    pub permutation: AirOpenedValues,
    pub quotient: Vec<Vec<Ext>>,
    pub cumulative_sum: Ext,
    pub log_degree: usize,
}

/// The values that a proof opens for the chips of a shard, in the order
/// of the chips.
pub struct ShardOpenedValues {
    pub chips: Vec<ChipOpenedValues>,
}

/// What a chip declares, collected once: its name, the widths of its
/// traces, the expressions that vanish on every row, and its interactions
/// with the buses.
pub struct MachineChip {
    pub name: String,
    pub preprocessed_width: usize,
    pub width: usize,
    pub constraints: Vec<Expr>,
    pub sends: Vec<Interaction>,
    pub receives: Vec<Interaction>,
}

impl MachineChip {
    /// Every column that the chip names lies within its traces.
    pub open spec fn well_formed(&self) -> bool {
        &&& 4 * (self.sends@.len() + self.receives@.len() + 1) <= usize::MAX
        &&& crate::air::all_within(
            self.constraints@,
            self.preprocessed_width as int,
            self.width as int,
        )
        &&& crate::air::interactions_within(
            self.sends@,
            self.preprocessed_width as int,
            self.width as int,
        )
        &&& crate::air::interactions_within(
            self.receives@,
            self.preprocessed_width as int,
            self.width as int,
        )
    }

    /// Whether every column that the chip names lies within its traces.
    pub fn is_well_formed(&self) -> (r: bool)
        ensures
            r == self.well_formed(),
    {
        let m = self.sends.len() as u128 + self.receives.len() as u128 + 1;
        4 * m <= usize::MAX as u128 && crate::air::all_fit_within(
            &self.constraints,
            self.preprocessed_width,
            self.width,
        ) && crate::air::interactions_fit_within(
            &self.sends,
            self.preprocessed_width,
            self.width,
        ) && crate::air::interactions_fit_within(
            &self.receives,
            self.preprocessed_width,
            self.width,
        )
    }

    /// The name of the chip.
    pub fn name(&self) -> (r: String)
        ensures
            r@ == self.name@,
    {
        self.name.clone()
    }
}

} // verus!
