//! The challenge field: the degree-four extension of Baby Bear by a root of
//! `x^4 - 11`. Challenges, fingerprints on the interaction bus and the values
//! opened out of domain live here.

use crate::field::{fadd, fmul, fsub, Felt, P};
use p3_baby_bear::BabyBear;
use p3_field::extension::BinomialExtensionField;
use p3_field::{AbstractExtensionField, AbstractField, Field, PrimeField32};
use vstd::prelude::*;

verus! {

/// The non-residue `W` of the extension: the field is `F[x] / (x^4 - W)`.
pub const W: u32 = 11;

/// The mathematical value of an extension element: the four coefficients of
/// `c0 + c1 x + c2 x^2 + c3 x^3`, each a canonical residue.
pub struct Quartic {
    pub c0: int,
    pub c1: int,
    pub c2: int,
    pub c3: int,
}

/// All four coefficients are canonical residues.
pub open spec fn q_canonical(a: Quartic) -> bool {
    &&& 0 <= a.c0 < P
    &&& 0 <= a.c1 < P
    &&& 0 <= a.c2 < P
    &&& 0 <= a.c3 < P
}

/// The base-field element `v`, seen in the extension.
pub open spec fn q_base(v: int) -> Quartic {
    Quartic { c0: v, c1: 0, c2: 0, c3: 0 }
}

pub open spec fn q_zero() -> Quartic {
    q_base(0)
}

pub open spec fn q_one() -> Quartic {
    q_base(1)
}

/// Coefficient-wise sum.
pub open spec fn q_add(a: Quartic, b: Quartic) -> Quartic {
    Quartic {
        c0: fadd(a.c0, b.c0),
        c1: fadd(a.c1, b.c1),
        c2: fadd(a.c2, b.c2),
        c3: fadd(a.c3, b.c3),
    }
}

/// Coefficient-wise difference.
pub open spec fn q_sub(a: Quartic, b: Quartic) -> Quartic {
    Quartic {
        c0: fsub(a.c0, b.c0),
        c1: fsub(a.c1, b.c1),
        c2: fsub(a.c2, b.c2),
        c3: fsub(a.c3, b.c3),
    }
}

/// Product of the two polynomials, reduced by `x^4 = W`.
pub open spec fn q_mul(a: Quartic, b: Quartic) -> Quartic {
    let w = W as int;
    let p = P as int;
    Quartic {
        c0: (a.c0 * b.c0 + w * (a.c1 * b.c3 + a.c2 * b.c2 + a.c3 * b.c1)) % p,
        c1: (a.c0 * b.c1 + a.c1 * b.c0 + w * (a.c2 * b.c3 + a.c3 * b.c2)) % p,
        c2: (a.c0 * b.c2 + a.c1 * b.c1 + a.c2 * b.c0 + w * (a.c3 * b.c3)) % p,
        c3: (a.c0 * b.c3 + a.c1 * b.c2 + a.c2 * b.c1 + a.c3 * b.c0) % p,
    }
}

/// `r` is the multiplicative inverse of `a` in the extension.
pub open spec fn q_is_inverse(a: Quartic, r: Quartic) -> bool {
    q_canonical(r) && q_mul(a, r) == q_one()
}

/// The four coefficients held in an array, as a `Quartic`.
pub open spec fn q_of(c: Seq<u32>) -> Quartic {
    Quartic { c0: c[0] as int, c1: c[1] as int, c2: c[2] as int, c3: c[3] as int }
}

/// The coefficients of an array are canonical residues.
pub open spec fn coeffs_canonical(c: Seq<u32>) -> bool {
    c.len() == 4 && c[0] < P && c[1] < P && c[2] < P && c[3] < P
}

/// Multiplies two extension elements with `BinomialExtensionField`'s `*`
/// over `BabyBear`: the product of the two polynomials modulo `x^4 - 11`,
/// each coefficient canonical.
#[verifier::external_body]
fn binomial_mul(a: [u32; 4], b: [u32; 4]) -> (r: [u32; 4])
    requires
        coeffs_canonical(a@),
        coeffs_canonical(b@),
    ensures
        coeffs_canonical(r@),
        q_of(r@) == q_mul(q_of(a@), q_of(b@)),
{
    let x = BinomialExtensionField::<BabyBear, 4>::from_base_slice(&a.map(BabyBear::from_canonical_u32));
    let y = BinomialExtensionField::<BabyBear, 4>::from_base_slice(&b.map(BabyBear::from_canonical_u32));
    let z = x * y;
    let s: &[BabyBear] = z.as_base_slice();
    [s[0].as_canonical_u32(), s[1].as_canonical_u32(), s[2].as_canonical_u32(), s[3].as_canonical_u32()]
}

/// The coefficients of the inverse that `Field::try_inverse` of
/// `BinomialExtensionField` over `BabyBear` gives for the element with the
/// coefficients `a`; `None` where it gives none.
pub uninterp spec fn binomial_inverse(a: Seq<u32>) -> Option<Seq<u32>>;

/// Inverts an extension element with `Field::try_inverse` of
/// `BinomialExtensionField` over `BabyBear`. The outcome depends on the
/// element alone: zero has no inverse; the inverse of any other element
/// multiplies with it to one.
#[verifier::external_body]
fn binomial_try_inverse(a: [u32; 4]) -> (r: Option<[u32; 4]>)
    requires
        coeffs_canonical(a@),
    ensures
        q_of(a@) == q_zero() <==> r is None,
        r is Some <==> binomial_inverse(a@) is Some,
        r matches Some(v) ==> binomial_inverse(a@) == Some(v@) && coeffs_canonical(v@)
            && q_is_inverse(q_of(a@), q_of(v@)),
{
    let x = BinomialExtensionField::<BabyBear, 4>::from_base_slice(&a.map(BabyBear::from_canonical_u32));
    match x.try_inverse() {
        Some(z) => {
            let s: &[BabyBear] = z.as_base_slice();
            Some([s[0].as_canonical_u32(), s[1].as_canonical_u32(), s[2].as_canonical_u32(), s[3].as_canonical_u32()])
        },
        None => None,
    }
}

/// The coefficients of an element, as the array that holds them.
pub open spec fn coeffs_of(a: Quartic) -> Seq<u32> {
    seq![a.c0 as u32, a.c1 as u32, a.c2 as u32, a.c3 as u32]
}

/// The inverse of an element of the extension, where it has one.
pub open spec fn q_inverse(a: Quartic) -> Option<Quartic> {
    match binomial_inverse(coeffs_of(a)) {
        Some(v) => Some(q_of(v)),
        None => None,
    }
}

/// An element of the extension field.
#[derive(Clone, Copy, Debug, PartialEq, Eq, Structural)]
pub struct Ext {
    pub c0: Felt,
    pub c1: Felt,
    pub c2: Felt,
    pub c3: Felt,
}

impl View for Ext {
    type V = Quartic;

    open spec fn view(&self) -> Quartic {
        Quartic { c0: self.c0@, c1: self.c1@, c2: self.c2@, c3: self.c3@ }
    }
}

impl Ext {
    pub fn new(c0: Felt, c1: Felt, c2: Felt, c3: Felt) -> (r: Ext)
        ensures
            r@ == (Quartic { c0: c0@, c1: c1@, c2: c2@, c3: c3@ }),
    {
        Ext { c0, c1, c2, c3 }
    }

    pub fn zero() -> (r: Ext)
        ensures
            r@ == q_zero(),
    {
        Ext { c0: Felt::zero(), c1: Felt::zero(), c2: Felt::zero(), c3: Felt::zero() }
    }

    pub fn one() -> (r: Ext)
        ensures
            r@ == q_one(),
    {
        Ext { c0: Felt::one(), c1: Felt::zero(), c2: Felt::zero(), c3: Felt::zero() }
    }

    /// The base-field element `x`, seen in the extension.
    pub fn from_base(x: Felt) -> (r: Ext)
        ensures
            r@ == q_base(x@),
    {
        Ext { c0: x, c1: Felt::zero(), c2: Felt::zero(), c3: Felt::zero() }
    }

    fn to_array(&self) -> (r: [u32; 4])
        ensures
            coeffs_canonical(r@),
            q_of(r@) == self@,
    {
        [
            self.c0.as_canonical_u32(),
            self.c1.as_canonical_u32(),
            self.c2.as_canonical_u32(),
            self.c3.as_canonical_u32(),
        ]
    }

    fn from_array(a: [u32; 4]) -> (r: Ext)
        requires
            coeffs_canonical(a@),
        ensures
            r@ == q_of(a@),
    {
        Ext {
            c0: Felt::from_canonical_u32(a[0]),
            c1: Felt::from_canonical_u32(a[1]),
            c2: Felt::from_canonical_u32(a[2]),
            c3: Felt::from_canonical_u32(a[3]),
        }
    }

    pub fn add(self, rhs: Ext) -> (r: Ext)
        ensures
            r@ == q_add(self@, rhs@),
    {
        Ext {
            c0: self.c0.add(rhs.c0),
            c1: self.c1.add(rhs.c1),
            c2: self.c2.add(rhs.c2),
            c3: self.c3.add(rhs.c3),
        }
    }

    pub fn sub(self, rhs: Ext) -> (r: Ext)
        ensures
            r@ == q_sub(self@, rhs@),
    {
        Ext {
            c0: self.c0.sub(rhs.c0),
            c1: self.c1.sub(rhs.c1),
            c2: self.c2.sub(rhs.c2),
            c3: self.c3.sub(rhs.c3),
        }
    }

    pub fn mul(self, rhs: Ext) -> (r: Ext)
        ensures
            r@ == q_mul(self@, rhs@),
    {
        Ext::from_array(binomial_mul(self.to_array(), rhs.to_array()))
    }

    /// The inverse, or `None` for zero.
    pub fn try_inverse(self) -> (r: Option<Ext>)
        ensures
            self@ == q_zero() <==> r is None,
            r is Some <==> q_inverse(self@) is Some,
            r matches Some(v) ==> q_inverse(self@) == Some(v@) && q_is_inverse(self@, v@),
    {
        let a = self.to_array();
        assert(a@ =~= coeffs_of(self@));
        match binomial_try_inverse(a) {
            Some(v) => Some(Ext::from_array(v)),
            None => None,
        }
    }

    /// Whether two elements are the same element of the field.
    pub fn equals(&self, rhs: &Ext) -> (r: bool)
        ensures
            r == (self@ == rhs@),
    {
        self.c0.as_canonical_u32() == rhs.c0.as_canonical_u32()
            && self.c1.as_canonical_u32() == rhs.c1.as_canonical_u32()
            && self.c2.as_canonical_u32() == rhs.c2.as_canonical_u32()
            && self.c3.as_canonical_u32() == rhs.c3.as_canonical_u32()
    }
}

/// The base field sits in the extension as a subring: sums, differences and
/// products of base elements are the base sums, differences and products.
pub proof fn lemma_base_is_subring(a: int, b: int)
    ensures
        q_add(q_base(a), q_base(b)) == q_base(fadd(a, b)),
        q_sub(q_base(a), q_base(b)) == q_base(fsub(a, b)),
        q_mul(q_base(a), q_base(b)) == q_base(fmul(a, b)),
{
    assert(a * 0 == 0);
    assert(0 * b == 0);
    assert(0 * 0 == 0) by (nonlinear_arith);
}

} // verus!
