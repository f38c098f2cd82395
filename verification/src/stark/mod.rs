//! The proof system's side of the machine: the permutation columns that
//! carry the bus argument, and the verifier's check of the constraints at a
//! point outside the trace domain.

pub mod balance;
pub mod debug;
pub mod domain;
pub mod machine;
pub mod permutation;
pub mod riscv;
pub mod shard;
pub mod types;
pub mod verification;
