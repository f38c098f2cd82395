//! Precompiles: operations too costly to run instruction by instruction,
//! each with a chip of its own.

pub mod blake3;
pub mod edwards;
pub mod k256;
pub mod sha256;
