//! The static model of a program: decoded instructions, the address they
//! are loaded at, and the initial memory image.

use std::collections::BTreeMap;
use vstd::prelude::*;

verus! {

/// The operations of the machine.
#[allow(non_camel_case_types)]
#[derive(Clone, Copy, Debug, PartialEq, Eq, Structural)]
pub enum Opcode {
    ADD,
    SUB,
    XOR,
    OR,
    AND,
    SLL,
    SRL,
    SRA,
    SLT,
    SLTU,
    LB,
    LH,
    LW,
    LBU,
    LHU,
    SB,
    SH,
    SW,
    BEQ,
    BNE,
    BLT,
    BGE,
    BLTU,
    BGEU,
    JAL,
    JALR,
    AUIPC,
    ECALL,
    EBREAK,
    MUL,
    MULH,
    MULHU,
    MULHSU,
    DIV,
    DIVU,
    REM,
    REMU,
    UNIMP,
}

impl Opcode {
    /// The number that stands for the opcode on the buses.
    pub open spec fn code(self) -> int {
        match self {
            Opcode::ADD => 0,
            Opcode::SUB => 1,
            Opcode::XOR => 2,
            Opcode::OR => 3,
            Opcode::AND => 4,
            Opcode::SLL => 5,
            Opcode::SRL => 6,
            Opcode::SRA => 7,
            Opcode::SLT => 8,
            Opcode::SLTU => 9,
            Opcode::LB => 10,
            Opcode::LH => 11,
            Opcode::LW => 12,
            Opcode::LBU => 13,
            Opcode::LHU => 14,
            Opcode::SB => 15,
            Opcode::SH => 16,
            Opcode::SW => 17,
            Opcode::BEQ => 18,
            Opcode::BNE => 19,
            Opcode::BLT => 20,
            Opcode::BGE => 21,
            Opcode::BLTU => 22,
            Opcode::BGEU => 23,
            Opcode::JAL => 24,
            Opcode::JALR => 25,
            Opcode::AUIPC => 26,
            Opcode::ECALL => 27,
            Opcode::EBREAK => 28,
            Opcode::MUL => 29,
            Opcode::MULH => 30,
            Opcode::MULHU => 31,
            Opcode::MULHSU => 32,
            Opcode::DIV => 33,
            Opcode::DIVU => 34,
            Opcode::REM => 35,
            Opcode::REMU => 36,
            Opcode::UNIMP => 37,
        }
    }

    pub fn as_u32(self) -> (r: u32)
        ensures
            r == self.code(),
    {
        match self {
            Opcode::ADD => 0,
            Opcode::SUB => 1,
            Opcode::XOR => 2,
            Opcode::OR => 3,
            Opcode::AND => 4,
            Opcode::SLL => 5,
            Opcode::SRL => 6,
            Opcode::SRA => 7,
            Opcode::SLT => 8,
            Opcode::SLTU => 9,
            Opcode::LB => 10,
            Opcode::LH => 11,
            Opcode::LW => 12,
            Opcode::LBU => 13,
            Opcode::LHU => 14,
            Opcode::SB => 15,
            Opcode::SH => 16,
            Opcode::SW => 17,
            Opcode::BEQ => 18,
            Opcode::BNE => 19,
            Opcode::BLT => 20,
            Opcode::BGE => 21,
            Opcode::BLTU => 22,
            Opcode::BGEU => 23,
            Opcode::JAL => 24,
            Opcode::JALR => 25,
            Opcode::AUIPC => 26,
            Opcode::ECALL => 27,
            Opcode::EBREAK => 28,
            Opcode::MUL => 29,
            Opcode::MULH => 30,
            Opcode::MULHU => 31,
            Opcode::MULHSU => 32,
            Opcode::DIV => 33,
            Opcode::DIVU => 34,
            Opcode::REM => 35,
            Opcode::REMU => 36,
            Opcode::UNIMP => 37,
        }
    }

    /// The operation computes a value from two operands and nothing else.
    pub open spec fn is_alu(self) -> bool {
        match self {
            Opcode::ADD
            | Opcode::SUB
            | Opcode::XOR
            | Opcode::OR
            | Opcode::AND
            | Opcode::SLL
            | Opcode::SRL
            | Opcode::SRA
            | Opcode::SLT
            | Opcode::SLTU
            | Opcode::MUL
            | Opcode::MULH
            | Opcode::MULHU
            | Opcode::MULHSU
            | Opcode::DIV
            | Opcode::DIVU
            | Opcode::REM
            | Opcode::REMU => true,
            _ => false,
        }
    }
}

/// One decoded instruction: an operation and three operands. The first
/// operand names a register; the second and third name a register each, or
/// hold an immediate where the flag beside them says so.
#[derive(Clone, Copy, Debug, PartialEq, Eq, Structural)]
pub struct Instruction {
    pub opcode: Opcode,
    pub op_a: u32,
    pub op_b: u32,
    pub op_c: u32,
    pub imm_b: bool,
    pub imm_c: bool,
}

impl Instruction {
    pub fn new(opcode: Opcode, op_a: u32, op_b: u32, op_c: u32, imm_b: bool, imm_c: bool) -> (r:
        Instruction)
        ensures
            r == (Instruction { opcode, op_a, op_b, op_c, imm_b, imm_c }),
    {
        Instruction { opcode, op_a, op_b, op_c, imm_b, imm_c }
    }
}

/// A program: its instructions, four bytes apart from `pc_base` on; the
/// address execution starts at; and the words that memory holds before the
/// first step, by their addresses.
#[derive(Debug)]
pub struct Program {
    pub instructions: Vec<Instruction>,
    pub pc_start: u32,
    pub pc_base: u32,
    pub memory_image: BTreeMap<u32, u32>,
}

impl Program {
    pub fn new(instructions: Vec<Instruction>, pc_start: u32, pc_base: u32) -> (r: Program)
        ensures
            r.instructions == instructions,
            r.pc_start == pc_start,
            r.pc_base == pc_base,
            r.memory_image@ == Map::<u32, u32>::empty(),
    {
        Program { instructions, pc_start, pc_base, memory_image: BTreeMap::new() }
    }

    /// The value that the image gives the word at `addr`, or zero where it
    /// gives none.
    pub open spec fn image_value(image: Map<u32, u32>, addr: u32) -> u32 {
        if image.contains_key(addr) {
            image[addr]
        } else {
            0
        }
    }

    /// The address of the instruction that `pc` points at falls within the
    /// program.
    pub open spec fn holds(&self, pc: u32) -> bool {
        &&& pc >= self.pc_base
        &&& (pc - self.pc_base) % 4 == 0
        &&& (pc - self.pc_base) / 4 < self.instructions@.len()
    }

    /// The instruction at `pc`, or `None` where `pc` points outside the
    /// program or between two instructions.
    pub fn fetch(&self, pc: u32) -> (r: Option<Instruction>)
        ensures
            self.holds(pc) <==> r is Some,
            r matches Some(i) ==> i == self.instructions@[(pc - self.pc_base) / 4],
    {
        if pc < self.pc_base {
            return None;
        }
        let off: u32 = pc - self.pc_base;
        if off % 4 != 0 {
            return None;
        }
        let idx: usize = (off / 4) as usize;
        if idx < self.instructions.len() {
            Some(self.instructions[idx])
        } else {
            None
        }
    }
}

} // verus!
