//! What the chips and the engine share: big integers, curves, and the
//! drivers that run a program from end to end.

pub mod bigint;
pub mod ec;
pub mod prove;
