//! The base fields of the curves.

use crate::utils::bigint::{le_nat, to_vec};
use vstd::prelude::*;

verus! {

/// The number of limbs of a field element: a limb is a byte.
pub const NUM_LIMBS: usize = 32;

/// The number of limbs of the witness of an operation.
pub const NUM_WITNESS_LIMBS: usize = 62;

/// The base of the limbs.
pub const LIMB_BASE: u32 = 256;

/// The modulus of the base field of secp256k1, `2^256 - 2^32 - 977`, in
/// little-endian bytes.
pub const SECP256K1_MODULUS_BYTES: [u8; 32] = [
    0x2f,
    0xfc,
    0xff,
    0xff,
    0xfe,
    0xff,
    0xff,
    0xff,
    0xff,
    0xff,
    0xff,
    0xff,
    0xff,
    0xff,
    0xff,
    0xff,
    0xff,
    0xff,
    0xff,
    0xff,
    0xff,
    0xff,
    0xff,
    0xff,
    0xff,
    0xff,
    0xff,
    0xff,
    0xff,
    0xff,
    0xff,
    0xff,
];

/// The limbs of the number zero.
pub const ZERO_LIMBS: [u8; 32] = [
    0, 0, 0, 0, 0, 0, 0, 0, 0, 0, 0, 0, 0, 0, 0, 0, 0, 0, 0, 0, 0, 0, 0, 0, 0, 0, 0, 0, 0, 0, 0, 0,
];

/// The limbs of the number one.
pub const ONE_LIMBS: [u8; 32] = [
    1, 0, 0, 0, 0, 0, 0, 0, 0, 0, 0, 0, 0, 0, 0, 0, 0, 0, 0, 0, 0, 0, 0, 0, 0, 0, 0, 0, 0, 0, 0, 0,
];

/// The base field of a curve.
#[derive(Clone, Copy, Debug, PartialEq, Eq, Structural)]
pub enum FieldKind {
    /// The integers modulo `2^255 - 19`.
    Ed25519,
    /// The integers modulo `2^256 - 2^32 - 977`.
    Secp256k1,
}

impl FieldKind {
    /// The limbs of the modulus.
    pub open spec fn modulus_limbs(self) -> Seq<u8> {
        match self {
            FieldKind::Ed25519 => crate::utils::ec::edwards::ed25519::MODULUS_BYTES@,
            FieldKind::Secp256k1 => SECP256K1_MODULUS_BYTES@,
        }
    }

    /// The modulus.
    pub open spec fn modulus(self) -> nat {
        le_nat(self.modulus_limbs())
    }

    /// What is added to a limb of the witness to make it positive.
    pub open spec fn offset(self) -> int {
        match self {
            FieldKind::Ed25519 => 8192,
            FieldKind::Secp256k1 => 16384,
        }
    }

    /// The limbs of the modulus.
    pub fn modulus_bytes(self) -> (r: [u8; 32])
        ensures
            r@ == self.modulus_limbs(),
    {
        match self {
            FieldKind::Ed25519 => crate::utils::ec::edwards::ed25519::MODULUS_BYTES,
            FieldKind::Secp256k1 => SECP256K1_MODULUS_BYTES,
        }
    }

    /// What is added to a limb of the witness to make it positive.
    pub fn witness_offset(self) -> (r: u32)
        ensures
            r == self.offset(),
    {
        match self {
            FieldKind::Ed25519 => 8192,
            FieldKind::Secp256k1 => 16384,
        }
    }

    /// The modulus is not zero.
    pub proof fn lemma_modulus_positive(self)
        ensures
            self.modulus() > 0,
    {
        crate::utils::bigint::lemma_high_byte_bound(self.modulus_limbs(), 0);
        assert(crate::utils::bigint::pow256(0) == 1);
    }
}

} // verus!
