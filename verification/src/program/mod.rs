//! Programs, and the chip that holds the table of their instructions.

pub mod chip;
pub mod model;

pub use chip::{ProgramChip, ProgramCols, NUM_PROGRAM_COLS};
pub use model::{Instruction, Opcode, Program};
