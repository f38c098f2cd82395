//! The base field of the machine: the Baby Bear prime field.
//!
//! A field element is held by its canonical representative; the arithmetic
//! itself is done by the `p3_baby_bear` crate.

use p3_baby_bear::BabyBear;
use p3_field::{AbstractField, Field, PrimeField32};
use vstd::prelude::*;

verus! {

/// The Baby Bear prime, `2^31 - 2^27 + 1`.
pub const P: u32 = 2013265921;

/// Sum of two residues modulo `P`.
pub open spec fn fadd(a: int, b: int) -> int {
    (a + b) % (P as int)
}

/// Difference of two residues modulo `P`.
pub open spec fn fsub(a: int, b: int) -> int {
    (a - b) % (P as int)
}

/// Product of two residues modulo `P`.
pub open spec fn fmul(a: int, b: int) -> int {
    (a * b) % (P as int)
}

/// `r` is the canonical multiplicative inverse of `a` modulo `P`.
pub open spec fn is_inverse(a: int, r: int) -> bool {
    0 <= r < P && (a * r) % (P as int) == 1
}

/// Adds two canonical residues with `BabyBear`'s `+`: the canonical value of
/// the sum is the integer sum reduced modulo `P`.
#[verifier::external_body]
fn babybear_add(a: u32, b: u32) -> (r: u32)
    requires
        a < P,
        b < P,
    ensures
        r as int == fadd(a as int, b as int),
{
    (BabyBear::from_canonical_u32(a) + BabyBear::from_canonical_u32(b)).as_canonical_u32()
}

/// Subtracts two canonical residues with `BabyBear`'s `-`: the canonical
/// value of the difference is the integer difference reduced modulo `P`.
#[verifier::external_body]
fn babybear_sub(a: u32, b: u32) -> (r: u32)
    requires
        a < P,
        b < P,
    ensures
        r as int == fsub(a as int, b as int),
{
    (BabyBear::from_canonical_u32(a) - BabyBear::from_canonical_u32(b)).as_canonical_u32()
}

/// Multiplies two canonical residues with `BabyBear`'s `*`: the canonical
/// value of the product is the integer product reduced modulo `P`.
#[verifier::external_body]
fn babybear_mul(a: u32, b: u32) -> (r: u32)
    requires
        a < P,
        b < P,
    ensures
        r as int == fmul(a as int, b as int),
{
    (BabyBear::from_canonical_u32(a) * BabyBear::from_canonical_u32(b)).as_canonical_u32()
}

/// Inverts a canonical residue with `Field::try_inverse` of `BabyBear`:
/// zero has no inverse; any other residue has one, and its product with the
/// argument is one modulo `P`.
#[verifier::external_body]
fn babybear_try_inverse(a: u32) -> (r: Option<u32>)
    requires
        a < P,
    ensures
        a == 0 <==> r is None,
        r matches Some(v) ==> is_inverse(a as int, v as int),
{
    match BabyBear::from_canonical_u32(a).try_inverse() {
        Some(x) => Some(x.as_canonical_u32()),
        None => None,
    }
}

/// An element of the Baby Bear field, held by its canonical representative.
#[derive(Clone, Copy, Debug, PartialEq, Eq, Structural)]
pub struct Felt {
    value: u32,
}

impl View for Felt {
    type V = int;

    closed spec fn view(&self) -> int {
        self.value as int
    }
}

impl Felt {
    #[verifier::type_invariant]
    spec fn canonical(self) -> bool {
        self.value < P
    }

    /// The element zero.
    pub fn zero() -> (r: Felt)
        ensures
            r@ == 0,
    {
        Felt { value: 0 }
    }

    /// The element one.
    pub fn one() -> (r: Felt)
        ensures
            r@ == 1,
    {
        Felt { value: 1 }
    }

    /// The element whose canonical representative is `n`.
    pub fn from_canonical_u32(n: u32) -> (r: Felt)
        requires
            n < P,
        ensures
            r@ == n,
    {
        Felt { value: n }
    }

    /// The residue class of `n`.
    pub fn from_wrapped_u32(n: u32) -> (r: Felt)
        ensures
            r@ == n as int % (P as int),
    {
        Felt { value: n % P }
    }

    /// The element that stands for a byte.
    pub fn from_canonical_u8(n: u8) -> (r: Felt)
        ensures
            r@ == n,
    {
        Felt { value: n as u32 }
    }

    /// One for `true`, zero for `false`.
    pub fn from_bool(b: bool) -> (r: Felt)
        ensures
            r@ == (if b { 1int } else { 0int }),
    {
        Felt { value: if b { 1 } else { 0 } }
    }

    /// The canonical representative, in `[0, P)`.
    pub fn as_canonical_u32(&self) -> (r: u32)
        ensures
            r as int == self@,
            r < P,
    {
        proof {
            use_type_invariant(self);
        }
        self.value
    }

    /// Whether the view is a canonical residue; true of every element that
    /// executable code holds.
    pub closed spec fn is_canonical(&self) -> bool {
        self.value < P
    }

    /// Tells that the element is canonical.
    pub fn check_canonical(&self)
        ensures
            self.is_canonical(),
            0 <= self@ < P,
    {
        proof {
            use_type_invariant(self);
        }
    }

    pub fn add(self, rhs: Felt) -> (r: Felt)
        ensures
            r@ == fadd(self@, rhs@),
    {
        proof {
            use_type_invariant(self);
            use_type_invariant(rhs);
        }
        let v = babybear_add(self.value, rhs.value);
        Felt { value: v }
    }

    pub fn sub(self, rhs: Felt) -> (r: Felt)
        ensures
            r@ == fsub(self@, rhs@),
    {
        proof {
            use_type_invariant(self);
            use_type_invariant(rhs);
        }
        let v = babybear_sub(self.value, rhs.value);
        Felt { value: v }
    }

    pub fn mul(self, rhs: Felt) -> (r: Felt)
        ensures
            r@ == fmul(self@, rhs@),
    {
        proof {
            use_type_invariant(self);
            use_type_invariant(rhs);
        }
        let v = babybear_mul(self.value, rhs.value);
        Felt { value: v }
    }

    pub fn try_inverse(self) -> (r: Option<Felt>)
        ensures
            self@ == 0 <==> r is None,
            r matches Some(v) ==> is_inverse(self@, v@),
    {
        proof {
            use_type_invariant(self);
        }
        match babybear_try_inverse(self.value) {
            Some(v) => Some(Felt { value: v }),
            None => None,
        }
    }
}

} // verus!
