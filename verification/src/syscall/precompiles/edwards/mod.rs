//! Operations on the Edwards curve ed25519.

pub mod columns;
pub mod ed_decompress;
pub mod trace;
