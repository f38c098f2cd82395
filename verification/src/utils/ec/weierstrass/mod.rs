//! Curves in the form of Weierstrass.

pub mod secp256k1;
