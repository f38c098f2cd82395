//! Twisted Edwards curves.

pub mod ed25519;
