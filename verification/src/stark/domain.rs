//! The domains that traces and quotients live on: cosets of two-adic
//! subgroups of the base field. The domain itself is the business of the
//! commitment scheme; the verifier needs the values at a point of its
//! vanishing polynomial and of its row selectors, which the `p3_commit`
//! crate computes.

use crate::extension::{coeffs_canonical, coeffs_of, q_base, q_of, q_zero, Ext, Quartic};
use crate::field::{Felt, P};
use p3_baby_bear::BabyBear;
use p3_commit::{PolynomialSpace, TwoAdicMultiplicativeCoset};
use p3_field::extension::BinomialExtensionField;
use p3_field::{AbstractExtensionField, AbstractField, PrimeField32};
use vstd::prelude::*;

verus! {

/// The greatest logarithm of the size of a domain: the two-adicity of the
/// base field.
pub const MAX_LOG_SIZE: usize = 27;

/// A coset of the subgroup of order `2^log_n`, shifted by `shift`.
#[derive(Clone, Copy, Debug)]
pub struct Domain {
    pub log_n: usize,
    pub shift: Felt,
}

/// The values of the row selectors at a point outside the domain.
pub struct LagrangeSelectors {
    pub is_first_row: Ext,
    pub is_last_row: Ext,
    pub is_transition: Ext,
    pub inv_zeroifier: Ext,
}

/// The coefficients of the value that `zp_at_point` of
/// `TwoAdicMultiplicativeCoset` gives: the vanishing polynomial of the
/// coset of size `2^log_n` and shift `shift`, at the point with the
/// coefficients `point`.
pub uninterp spec fn coset_zp(log_n: nat, shift: u32, point: Seq<u32>) -> Seq<u32>;

/// The sixteen coefficients of the four values that `selectors_at_point`
/// of `TwoAdicMultiplicativeCoset` gives, in the order first row, last row,
/// transition, inverse of the vanishing polynomial.
pub uninterp spec fn coset_selectors(log_n: nat, shift: u32, point: Seq<u32>) -> Seq<u32>;

/// Evaluates the vanishing polynomial of a coset with `zp_at_point` of
/// `TwoAdicMultiplicativeCoset`, which inverts the shift and squares
/// `log_n` times. The value depends on the coset and the point alone; its
/// coefficients are canonical.
#[verifier::external_body]
fn coset_zp_at_point(log_n: usize, shift: u32, point: [u32; 4]) -> (r: [u32; 4])
    requires
        0 < shift < P,
        log_n <= MAX_LOG_SIZE,
        coeffs_canonical(point@),
    ensures
        r@ == coset_zp(log_n as nat, shift, point@),
        coeffs_canonical(r@),
{
    let d = TwoAdicMultiplicativeCoset { log_n, shift: BabyBear::from_canonical_u32(shift) };
    let z = d.zp_at_point(
        BinomialExtensionField::<BabyBear, 4>::from_base_slice(&point.map(BabyBear::from_canonical_u32)),
    );
    let s: &[BabyBear] = z.as_base_slice();
    [s[0].as_canonical_u32(), s[1].as_canonical_u32(), s[2].as_canonical_u32(), s[3].as_canonical_u32()]
}

/// Evaluates the row selectors of a coset with `selectors_at_point` of
/// `TwoAdicMultiplicativeCoset`, which inverts the shift, takes the
/// generator of the subgroup, and divides by the vanishing polynomial and
/// by the distances of the point from the first and the last row: the
/// point must not lie in the coset, and the subgroup must exist. The values
/// depend on the coset and the point alone; their coefficients are
/// canonical.
#[verifier::external_body]
fn coset_selectors_at_point(log_n: usize, shift: u32, point: [u32; 4]) -> (r: Vec<u32>)
    requires
        0 < shift < P,
        log_n <= MAX_LOG_SIZE,
        coeffs_canonical(point@),
        q_of(coset_zp(log_n as nat, shift, point@)) != q_zero(),
    ensures
        r@ == coset_selectors(log_n as nat, shift, point@),
        r@.len() == 16,
        forall|i: int| 0 <= i < 16 ==> r@[i] < P,
{
    let d = TwoAdicMultiplicativeCoset { log_n, shift: BabyBear::from_canonical_u32(shift) };
    let s = d.selectors_at_point(
        BinomialExtensionField::<BabyBear, 4>::from_base_slice(&point.map(BabyBear::from_canonical_u32)),
    );
    [s.is_first_row, s.is_last_row, s.is_transition, s.inv_zeroifier]
        .iter()
        .flat_map(|x| AbstractExtensionField::<BabyBear>::as_base_slice(x))
        .map(|c: &BabyBear| c.as_canonical_u32())
        .collect()
}

/// The element whose coefficients stand in `c` from `at` on.
pub open spec fn q_at(c: Seq<u32>, at: int) -> Quartic {
    Quartic {
        c0: c[at] as int,
        c1: c[at + 1] as int,
        c2: c[at + 2] as int,
        c3: c[at + 3] as int,
    }
}

/// The values of the row selectors, as elements of the field.
pub struct SelectorValues {
    pub is_first_row: Quartic,
    pub is_last_row: Quartic,
    pub is_transition: Quartic,
    pub inv_zeroifier: Quartic,
}

impl View for LagrangeSelectors {
    type V = SelectorValues;

    open spec fn view(&self) -> SelectorValues {
        SelectorValues {
            is_first_row: self.is_first_row@,
            is_last_row: self.is_last_row@,
            is_transition: self.is_transition@,
            inv_zeroifier: self.inv_zeroifier@,
        }
    }
}

fn ext_to_array(x: &Ext) -> (r: [u32; 4])
    ensures
        r@ == coeffs_of(x@),
        coeffs_canonical(r@),
{
    let r = [
        x.c0.as_canonical_u32(),
        x.c1.as_canonical_u32(),
        x.c2.as_canonical_u32(),
        x.c3.as_canonical_u32(),
    ];
    assert(r@ =~= coeffs_of(x@));
    r
}

fn ext_at(c: &Vec<u32>, at: usize) -> (r: Ext)
    requires
        at + 4 <= c@.len(),
        forall|i: int| 0 <= i < c@.len() ==> c@[i] < P,
    ensures
        r@ == q_at(c@, at as int),
{
    let n = c.len();
    Ext::new(
        Felt::from_canonical_u32(c[at]),
        Felt::from_canonical_u32(c[at + 1]),
        Felt::from_canonical_u32(c[at + 2]),
        Felt::from_canonical_u32(c[at + 3]),
    )
}

impl Domain {
    /// The value at `point` of the vanishing polynomial of the domain, as
    /// the commitment scheme computes it.
    pub open spec fn zp_spec(&self, point: Quartic) -> Quartic {
        q_of(coset_zp(self.log_n as nat, self.shift@ as u32, coeffs_of(point)))
    }

    /// The values at `point` of the row selectors of the domain, as the
    /// commitment scheme computes them.
    pub open spec fn selectors_spec(&self, point: Quartic) -> SelectorValues {
        let c = coset_selectors(self.log_n as nat, self.shift@ as u32, coeffs_of(point));
        SelectorValues {
            is_first_row: q_at(c, 0),
            is_last_row: q_at(c, 4),
            is_transition: q_at(c, 8),
            inv_zeroifier: q_at(c, 12),
        }
    }

    /// Whether the selectors of the domain can be had at `point`: the
    /// shift is not zero, the subgroup exists, and the point does not lie in
    /// the domain.
    pub open spec fn admits(&self, point: Quartic) -> bool {
        &&& self.shift@ != 0
        &&& self.log_n <= MAX_LOG_SIZE
        &&& self.zp_spec(point) != q_zero()
    }

    /// The first point of the domain: its shift.
    pub fn first_point(&self) -> (r: Ext)
        ensures
            r@ == q_base(self.shift@),
    {
        Ext::from_base(self.shift)
    }

    /// Whether the domain is one: the shift is not zero, and the
    /// subgroup exists.
    pub open spec fn is_coset(&self) -> bool {
        self.shift@ != 0 && self.log_n <= MAX_LOG_SIZE
    }

    /// The value at `point` of the vanishing polynomial of the domain;
    /// `None` for a domain whose shift is zero or whose subgroup does not
    /// exist.
    pub fn zp_at_point(&self, point: &Ext) -> (r: Option<Ext>)
        ensures
            r is Some <==> self.is_coset(),
            r matches Some(v) ==> v@ == self.zp_spec(point@),
    {
        let shift = self.shift.as_canonical_u32();
        if shift == 0 || self.log_n > MAX_LOG_SIZE {
            return None;
        }
        let z = coset_zp_at_point(self.log_n, shift, ext_to_array(point));
        let zv: Vec<u32> = vec![z[0], z[1], z[2], z[3]];
        let r = ext_at(&zv, 0);
        assert(r@ == q_of(z@));
        Some(r)
    }

    /// The values at `point` of the row selectors of the domain; `None`
    /// where the domain does not admit the point.
    pub fn selectors_at_point(&self, point: &Ext) -> (r: Option<LagrangeSelectors>)
        ensures
            r is Some <==> self.admits(point@),
            r matches Some(s) ==> s@ == self.selectors_spec(point@),
    {
        let shift = self.shift.as_canonical_u32();
        if shift == 0 || self.log_n > MAX_LOG_SIZE {
            return None;
        }
        let z = match self.zp_at_point(point) {
            Some(z) => z,
            None => {
                return None;
            },
        };
        if z.equals(&Ext::zero()) {
            return None;
        }
        let c = coset_selectors_at_point(self.log_n, shift, ext_to_array(point));
        Some(
            LagrangeSelectors {
                is_first_row: ext_at(&c, 0),
                is_last_row: ext_at(&c, 4),
                is_transition: ext_at(&c, 8),
                inv_zeroifier: ext_at(&c, 12),
            },
        )
    }
}

} // verus!
