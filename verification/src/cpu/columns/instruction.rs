//! The columns of an instruction.

use crate::air::felts_view;
use crate::field::{Felt, P};
use crate::program::Instruction;
use crate::word::{le_bytes, limbs_view, Word};
use vstd::prelude::*;

verus! {

/// The number of columns of `InstructionCols`.
pub const NUM_INSTRUCTION_COLS: usize = 13;

/// The column layout for instructions.
#[derive(Clone, Copy, Debug)]
pub struct InstructionCols<T> {
    /// The opcode for this cycle.
    pub opcode: T,
    /// The first operand for this instruction.
    pub op_a: Word<T>,
    /// The second operand for this instruction.
    pub op_b: Word<T>,
    /// The third operand for this instruction.
    pub op_c: Word<T>,
}

/// The values of the columns of an instruction.
pub open spec fn instruction_row(i: Instruction) -> Seq<int> {
    seq![i.opcode.code()] + le_bytes(i.op_a as int) + le_bytes(i.op_b as int) + le_bytes(
        i.op_c as int,
    )
}

impl InstructionCols<Felt> {
    /// The values of the columns, in the order of the row.
    pub open spec fn row_view(&self) -> Seq<int> {
        seq![self.opcode@] + limbs_view(self.op_a) + limbs_view(self.op_b) + limbs_view(self.op_c)
    }

    /// The columns for an instruction.
    pub fn populate(instruction: Instruction) -> (r: InstructionCols<Felt>)
        ensures
            r.row_view() == instruction_row(instruction),
    {
        let r = InstructionCols {
            opcode: Felt::from_canonical_u32(instruction.opcode.as_u32()),
            op_a: Word::<Felt>::from_u32(instruction.op_a),
            op_b: Word::<Felt>::from_u32(instruction.op_b),
            op_c: Word::<Felt>::from_u32(instruction.op_c),
        };
        assert(r.row_view() =~= instruction_row(instruction));
        r
    }

    /// Appends the columns to a row.
    pub fn write_to(&self, row: &mut Vec<Felt>)
        ensures
            felts_view(final(row)@) == felts_view(old(row)@) + self.row_view(),
            final(row)@.len() == old(row)@.len() + NUM_INSTRUCTION_COLS,
    {
        row.push(self.opcode);
        row.push(self.op_a.0[0]);
        row.push(self.op_a.0[1]);
        row.push(self.op_a.0[2]);
        row.push(self.op_a.0[3]);
        row.push(self.op_b.0[0]);
        row.push(self.op_b.0[1]);
        row.push(self.op_b.0[2]);
        row.push(self.op_b.0[3]);
        row.push(self.op_c.0[0]);
        row.push(self.op_c.0[1]);
        row.push(self.op_c.0[2]);
        row.push(self.op_c.0[3]);
        assert(felts_view(row@) =~= felts_view(old(row)@) + self.row_view());
    }
}

} // verus!
