//! The groups of columns of a step: the instruction, the selectors of its
//! opcode, and the flags of a call.

pub mod ecall;
pub mod instruction;
pub mod opcode;

pub use ecall::EcallCols;
pub use instruction::InstructionCols;
pub use opcode::OpcodeSelectorCols;
