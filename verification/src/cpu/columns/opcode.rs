//! The selectors of the opcode of an instruction: one flag for each way
//! in which a step can go.

use crate::air::felts_view;
use crate::field::Felt;
use crate::program::{Instruction, Opcode};
use vstd::prelude::*;

verus! {

/// The number of columns of `OpcodeSelectorCols`.
pub const NUM_OPCODE_SELECTOR_COLS: usize = 22;

/// The column layout for opcode selectors.
#[derive(Clone, Copy, Debug)]
pub struct OpcodeSelectorCols<T> {
    /// Whether op_b is an immediate value.
    pub imm_b: T,
    /// Whether op_c is an immediate value.
    pub imm_c: T,
    /// Table selectors for opcodes.
    pub is_alu: T,
    /// Table selectors for opcodes.
    pub is_ecall: T,
    /// Memory instructions.
    pub is_lb: T,
    pub is_lbu: T,
    pub is_lh: T,
    pub is_lhu: T,
    pub is_lw: T,
    pub is_sb: T,
    pub is_sh: T,
    pub is_sw: T,
    /// Branch instructions.
    pub is_beq: T,
    pub is_bne: T,
    pub is_blt: T,
    pub is_bge: T,
    pub is_bltu: T,
    pub is_bgeu: T,
    /// Jump instructions.
    pub is_jalr: T,
    pub is_jal: T,
    /// Miscellaneous.
    pub is_auipc: T,
    pub is_unimpl: T,
}

/// One if the condition holds, zero if not.
pub open spec fn bit(b: bool) -> int {
    if b {
        1
    } else {
        0
    }
}

/// The values of the selectors of an instruction.
pub open spec fn selector_row(i: Instruction) -> Seq<int> {
    seq![
        bit(i.imm_b),
        bit(i.imm_c),
        bit(i.opcode.is_alu()),
        bit(i.opcode == Opcode::ECALL),
        bit(i.opcode == Opcode::LB),
        bit(i.opcode == Opcode::LBU),
        bit(i.opcode == Opcode::LH),
        bit(i.opcode == Opcode::LHU),
        bit(i.opcode == Opcode::LW),
        bit(i.opcode == Opcode::SB),
        bit(i.opcode == Opcode::SH),
        bit(i.opcode == Opcode::SW),
        bit(i.opcode == Opcode::BEQ),
        bit(i.opcode == Opcode::BNE),
        bit(i.opcode == Opcode::BLT),
        bit(i.opcode == Opcode::BGE),
        bit(i.opcode == Opcode::BLTU),
        bit(i.opcode == Opcode::BGEU),
        bit(i.opcode == Opcode::JALR),
        bit(i.opcode == Opcode::JAL),
        bit(i.opcode == Opcode::AUIPC),
        bit(i.opcode == Opcode::UNIMP),
    ]
}

impl OpcodeSelectorCols<Felt> {
    /// The values of the columns, in the order of the row.
    pub open spec fn row_view(&self) -> Seq<int> {
        seq![
            self.imm_b@,
            self.imm_c@,
            self.is_alu@,
            self.is_ecall@,
            self.is_lb@,
            self.is_lbu@,
            self.is_lh@,
            self.is_lhu@,
            self.is_lw@,
            self.is_sb@,
            self.is_sh@,
            self.is_sw@,
            self.is_beq@,
            self.is_bne@,
            self.is_blt@,
            self.is_bge@,
            self.is_bltu@,
            self.is_bgeu@,
            self.is_jalr@,
            self.is_jal@,
            self.is_auipc@,
            self.is_unimpl@,
        ]
    }

    /// The selectors for an instruction.
    pub fn populate(instruction: Instruction) -> (r: OpcodeSelectorCols<Felt>)
        ensures
            r.row_view() == selector_row(instruction),
    {
        let op = instruction.opcode;
        let r = OpcodeSelectorCols {
            imm_b: Felt::from_bool(instruction.imm_b),
            imm_c: Felt::from_bool(instruction.imm_c),
            is_alu: Felt::from_bool(crate::runtime::execute::is_alu_opcode(op)),
            is_ecall: Felt::from_bool(op == Opcode::ECALL),
            is_lb: Felt::from_bool(op == Opcode::LB),
            is_lbu: Felt::from_bool(op == Opcode::LBU),
            is_lh: Felt::from_bool(op == Opcode::LH),
            is_lhu: Felt::from_bool(op == Opcode::LHU),
            is_lw: Felt::from_bool(op == Opcode::LW),
            is_sb: Felt::from_bool(op == Opcode::SB),
            is_sh: Felt::from_bool(op == Opcode::SH),
            is_sw: Felt::from_bool(op == Opcode::SW),
            is_beq: Felt::from_bool(op == Opcode::BEQ),
            is_bne: Felt::from_bool(op == Opcode::BNE),
            is_blt: Felt::from_bool(op == Opcode::BLT),
            is_bge: Felt::from_bool(op == Opcode::BGE),
            is_bltu: Felt::from_bool(op == Opcode::BLTU),
            is_bgeu: Felt::from_bool(op == Opcode::BGEU),
            is_jalr: Felt::from_bool(op == Opcode::JALR),
            is_jal: Felt::from_bool(op == Opcode::JAL),
            is_auipc: Felt::from_bool(op == Opcode::AUIPC),
            is_unimpl: Felt::from_bool(op == Opcode::UNIMP),
        };
        assert(r.row_view() =~= selector_row(instruction));
        r
    }

    /// Appends the columns to a row.
    pub fn write_to(&self, row: &mut Vec<Felt>)
        ensures
            felts_view(final(row)@) == felts_view(old(row)@) + self.row_view(),
            final(row)@.len() == old(row)@.len() + NUM_OPCODE_SELECTOR_COLS,
    {
        row.push(self.imm_b);
        row.push(self.imm_c);
        row.push(self.is_alu);
        row.push(self.is_ecall);
        row.push(self.is_lb);
        row.push(self.is_lbu);
        row.push(self.is_lh);
        row.push(self.is_lhu);
        row.push(self.is_lw);
        row.push(self.is_sb);
        row.push(self.is_sh);
        row.push(self.is_sw);
        row.push(self.is_beq);
        row.push(self.is_bne);
        row.push(self.is_blt);
        row.push(self.is_bge);
        row.push(self.is_bltu);
        row.push(self.is_bgeu);
        row.push(self.is_jalr);
        row.push(self.is_jal);
        row.push(self.is_auipc);
        row.push(self.is_unimpl);
        assert(felts_view(row@) =~= felts_view(old(row)@) + self.row_view());
    }
}

} // verus!
