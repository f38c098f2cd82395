//! The columns that describe a step of the machine.

pub mod columns;
