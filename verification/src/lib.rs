//! Core of a zero-knowledge virtual machine: an instruction-level execution
//! engine that records every micro-operation as an event, the per-shard
//! execution record, the chips that turn event streams into constrained
//! trace tables, the interaction bus that ties the tables together, and the
//! verifier's out-of-domain constraint check. Beside them stand two helpers
//! for the lines of circuit code.

pub mod air;
pub mod alu;
pub mod bytes;
pub mod cpu;
pub mod events;
pub mod extension;
pub mod field;
pub mod gnark;
pub mod lookup;
pub mod memory;
pub mod operations;
pub mod program;
pub mod record;
pub mod runtime;
pub mod stark;
pub mod syscall;
pub mod trace;
pub mod utils;
pub mod word;
