//! Operations on the curve secp256k1.

pub mod columns;
pub mod decompress;
pub mod trace;
