//! The chips of arithmetic and logic, and the events they are made from.

pub mod shift;
pub mod sub;

pub use crate::events::AluEvent;
