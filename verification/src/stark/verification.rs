//! The verifier's check of the constraints of a chip at a point outside
//! the trace domain.
//!
//! The constraints of the chip and of its permutation columns are
//! evaluated on the opened values and folded into one element with the
//! powers of a challenge. The quotient is put together from its opened
//! chunks. The proof stands where the folded constraints, divided by the
//! vanishing polynomial of the domain, are the quotient.

use crate::air::{exts_view, EvalPoint, Expr, Interaction, Point};
use crate::extension::{
    q_add, q_base, q_inverse, q_mul, q_one, q_sub, q_zero, Ext, Quartic,
};
use crate::field::Felt;
use crate::stark::domain::{q_at, Domain, LagrangeSelectors, SelectorValues};
use crate::stark::permutation::{power, q_pow, tuple_fingerprint, combine};
use crate::stark::types::{AirOpenedValues, ChipOpenedValues, MachineChip, ShardOpenedValues};
use vstd::prelude::*;

verus! {

/// The degree of the extension.
pub const D: usize = 4;

/// The folded constraints of a chip do not match its quotient.
#[derive(Debug, PartialEq, Eq)]
pub struct OodEvaluationMismatch;

/// Why a proof of a shard was rejected.
#[derive(Debug)]
pub enum VerificationError {
    /// The opening proof is invalid.
    InvalidopeningArgument,
    /// Out-of-domain evaluation mismatch on the chip with this name: its
    /// constraints at the point did not match the quotient times the
    /// vanishing polynomial.
    OodEvaluationMismatch(String),
}

impl VerificationError {
    /// What the error says.
    pub fn message(&self) -> (r: String)
        ensures
            match self {
                VerificationError::InvalidopeningArgument => r@ == "Invalid opening argument"@,
                VerificationError::OodEvaluationMismatch(chip) => r@
                    == "Out-of-domain evaluation mismatch on chip "@ + chip@,
            },
    {
        match self {
            VerificationError::InvalidopeningArgument => "Invalid opening argument".to_string(),
            VerificationError::OodEvaluationMismatch(chip) => {
                let mut s = "Out-of-domain evaluation mismatch on chip ".to_string();
                s.push_str(chip.as_str());
                s
            },
        }
    }
}

/// The elements folded with the powers of `alpha`: each step multiplies
/// what was folded so far by `alpha` and adds the next element.
pub open spec fn fold(vals: Seq<Quartic>, alpha: Quartic, n: nat) -> Quartic
    decreases n,
{
    if n == 0 {
        q_zero()
    } else {
        q_add(q_mul(fold(vals, alpha, (n - 1) as nat), alpha), vals[n - 1])
    }
}

/// The element `x^e` of the basis of the extension.
pub open spec fn monomial(e: int) -> Quartic {
    Quartic {
        c0: if e == 0 {
            1
        } else {
            0
        },
        c1: if e == 1 {
            1
        } else {
            0
        },
        c2: if e == 2 {
            1
        } else {
            0
        },
        c3: if e == 3 {
            1
        } else {
            0
        },
    }
}

/// The element whose four coefficients, each opened as an element of its
/// own, stand in `v` from `at` on.
pub open spec fn recombined(v: Seq<Quartic>, at: int) -> Quartic {
    q_add(
        q_add(
            q_add(
                q_add(q_zero(), q_mul(monomial(0), v[at])),
                q_mul(monomial(1), v[at + 1]),
            ),
            q_mul(monomial(2), v[at + 2]),
        ),
        q_mul(monomial(3), v[at + 3]),
    )
}

/// The elements whose coefficients stand in `v`, four by four.
pub open spec fn unflatten(v: Seq<Quartic>) -> Seq<Quartic> {
    Seq::new((v.len() / 4) as nat, |i: int| recombined(v, 4 * i))
}

/// The point on which the constraints are evaluated.
pub open spec fn opening_point(o: &ChipOpenedValues, sels: SelectorValues) -> Point<Quartic> {
    Point {
        prep_local: exts_view(o.preprocessed.local@),
        prep_next: exts_view(o.preprocessed.next@),
        main_local: exts_view(o.main.local@),
        main_next: exts_view(o.main.next@),
        is_first_row: sels.is_first_row,
        is_last_row: sels.is_last_row,
        is_transition: sels.is_transition,
    }
}

/// The point with the next row in the place of the current one.
pub open spec fn shifted(pt: Point<Quartic>) -> Point<Quartic> {
    Point {
        prep_local: pt.prep_next,
        prep_next: pt.prep_local,
        main_local: pt.main_next,
        main_next: pt.main_local,
        ..pt
    }
}

/// The values of the expressions on a point.
pub open spec fn eval_all_ext(es: Seq<Expr>, pt: Point<Quartic>) -> Seq<Quartic> {
    Seq::new(es.len(), |i: int| es[i].eval_ext(pt))
}

/// The fingerprint of the tuple that an interaction puts on its bus on a
/// point.
pub open spec fn fingerprint_at(x: &Interaction, pt: Point<Quartic>, ch: (Quartic, Quartic)) -> Quartic {
    tuple_fingerprint(x.kind.index_spec() as nat, eval_all_ext(x.values@, pt), ch.0, ch.1)
}

/// All interactions of a chip: the sends, then the receives.
pub open spec fn interactions(chip: &MachineChip) -> Seq<Interaction> {
    chip.sends@ + chip.receives@
}

/// What the first `k` interactions add to the running sum on a point: the
/// multiplicity of each, times the reciprocal that the permutation columns
/// hold for it; the receives are taken away.
pub open spec fn row_sum(
    chip: &MachineChip,
    pt: Point<Quartic>,
    perm: Seq<Quartic>,
    k: nat,
) -> Quartic
    decreases k,
{
    if k == 0 {
        q_zero()
    } else {
        let j = (k - 1) as int;
        let term = q_mul(perm[j], interactions(chip)[j].multiplicity.eval_ext(pt));
        if j < chip.sends@.len() {
            q_add(row_sum(chip, pt, perm, (k - 1) as nat), term)
        } else {
            q_sub(row_sum(chip, pt, perm, (k - 1) as nat), term)
        }
    }
}

/// The values of the constraints of the permutation columns: for every
/// interaction, that the column holds the reciprocal of the fingerprint;
/// then the recurrence of the running sum from row to row, its value on the
/// first row, and its value on the last row, which is the cumulative sum of
/// the chip.
pub open spec fn permutation_values(
    chip: &MachineChip,
    pt: Point<Quartic>,
    perm_local: Seq<Quartic>,
    perm_next: Seq<Quartic>,
    cumulative_sum: Quartic,
    ch: (Quartic, Quartic),
) -> Seq<Quartic> {
    let m = interactions(chip).len();
    let phi_local = perm_local[m as int];
    let phi_next = perm_next[m as int];
    Seq::new(
        m,
        |j: int| q_sub(q_mul(fingerprint_at(&interactions(chip)[j], pt, ch), perm_local[j]), q_one()),
    ) + seq![
        q_mul(
            pt.is_transition,
            q_sub(q_sub(phi_next, phi_local), row_sum(chip, shifted(pt), perm_next, m)),
        ),
        q_mul(pt.is_first_row, q_sub(phi_local, row_sum(chip, pt, perm_local, m))),
        q_mul(pt.is_last_row, q_sub(phi_local, cumulative_sum)),
    ]
}

/// The values of all constraints of a chip on the opened values: those
/// that the chip declares, then those of its permutation columns.
pub open spec fn constraint_values(
    chip: &MachineChip,
    o: &ChipOpenedValues,
    sels: SelectorValues,
    ch: (Quartic, Quartic),
) -> Seq<Quartic> {
    let pt = opening_point(o, sels);
    eval_all_ext(chip.constraints@, pt) + permutation_values(
        chip,
        pt,
        unflatten(exts_view(o.permutation.local@)),
        unflatten(exts_view(o.permutation.next@)),
        o.cumulative_sum@,
        ch,
    )
}

/// The quotient put together from the first `n` of its chunks: each
/// chunk, recombined from its coefficients, weighs as much as `zps` says.
pub open spec fn quotient_value(chunks: Seq<Vec<Ext>>, zps: Seq<Quartic>, n: nat) -> Quartic
    decreases n,
{
    if n == 0 {
        q_zero()
    } else {
        q_add(
            quotient_value(chunks, zps, (n - 1) as nat),
            chunk_value(exts_view(chunks[n - 1]@), zps[n - 1]),
        )
    }
}

/// One chunk of the quotient with its weight.
pub open spec fn chunk_value(c: Seq<Quartic>, zp: Quartic) -> Quartic {
    q_add(
        q_add(
            q_add(
                q_add(q_zero(), q_mul(q_mul(zp, monomial(0)), c[0])),
                q_mul(q_mul(zp, monomial(1)), c[1]),
            ),
            q_mul(q_mul(zp, monomial(2)), c[2]),
        ),
        q_mul(q_mul(zp, monomial(3)), c[3]),
    )
}

/// The opened values have the shape that the chip asks for.
pub open spec fn shape_ok(chip: &MachineChip, o: &ChipOpenedValues, chunks: nat) -> bool {
    let m = chip.sends@.len() + chip.receives@.len();
    &&& o.preprocessed.local@.len() == chip.preprocessed_width
    &&& o.preprocessed.next@.len() == chip.preprocessed_width
    &&& o.main.local@.len() == chip.width
    &&& o.main.next@.len() == chip.width
    &&& o.permutation.local@.len() == 4 * (m + 1)
    &&& o.permutation.next@.len() == 4 * (m + 1)
    &&& o.quotient@.len() == chunks
    &&& forall|i: int| 0 <= i < o.quotient@.len() ==> (#[trigger] o.quotient@[i])@.len() == 4
}

/// The check itself: the shape is right, and the folded constraints times
/// the inverse of the vanishing polynomial are the quotient.
pub open spec fn constraints_hold(
    chip: &MachineChip,
    o: &ChipOpenedValues,
    sels: SelectorValues,
    zps: Seq<Quartic>,
    alpha: Quartic,
    ch: (Quartic, Quartic),
) -> bool {
    let vals = constraint_values(chip, o, sels, ch);
    &&& shape_ok(chip, o, zps.len())
    &&& q_mul(fold(vals, alpha, vals.len()), sels.inv_zeroifier) == quotient_value(
        o.quotient@,
        zps,
        zps.len(),
    )
}

/// The element `x^e` of the basis of the extension.
pub fn monomial_of(e: usize) -> (r: Ext)
    requires
        e < 4,
    ensures
        r@ == monomial(e as int),
{
    let z = Felt::zero();
    let o = Felt::one();
    if e == 0 {
        Ext::new(o, z, z, z)
    } else if e == 1 {
        Ext::new(z, o, z, z)
    } else if e == 2 {
        Ext::new(z, z, o, z)
    } else {
        Ext::new(z, z, z, o)
    }
}

/// The elements whose coefficients stand in `v`, four by four.
pub fn unflatten_values(v: &Vec<Ext>) -> (r: Vec<Ext>)
    requires
        v@.len() % 4 == 0,
    ensures
        exts_view(r@) == unflatten(exts_view(v@)),
{
    let len = v.len();
    let n = len / 4;
    let mut r: Vec<Ext> = Vec::new();
    let mut i: usize = 0;
    while i < n
        invariant
            i <= n,
            len == v@.len(),
            4 * n <= len,
            n == v@.len() / 4,
            v@.len() % 4 == 0,
            r@.len() == i,
            forall|k: int| 0 <= k < i ==> (#[trigger] r@[k])@ == recombined(exts_view(v@), 4 * k),
        decreases n - i,
    {
        let mut acc = Ext::zero();
        acc = acc.add(monomial_of(0).mul(v[4 * i]));
        acc = acc.add(monomial_of(1).mul(v[4 * i + 1]));
        acc = acc.add(monomial_of(2).mul(v[4 * i + 2]));
        acc = acc.add(monomial_of(3).mul(v[4 * i + 3]));
        r.push(acc);
        i = i + 1;
    }
    assert(exts_view(r@) =~= unflatten(exts_view(v@)));
    r
}

/// Folds the elements with the powers of `alpha`.
pub fn fold_constraints(vals: &Vec<Ext>, alpha: Ext) -> (r: Ext)
    ensures
        r@ == fold(exts_view(vals@), alpha@, vals@.len()),
{
    let mut acc = Ext::zero();
    let mut i: usize = 0;
    while i < vals.len()
        invariant
            i <= vals@.len(),
            acc@ == fold(exts_view(vals@), alpha@, i as nat),
        decreases vals@.len() - i,
    {
        acc = acc.mul(alpha).add(vals[i]);
        i = i + 1;
    }
    acc
}

/// A copy of the elements.
fn copy_of(v: &Vec<Ext>) -> (r: Vec<Ext>)
    ensures
        r@ == v@,
{
    let mut r: Vec<Ext> = Vec::new();
    let mut i: usize = 0;
    while i < v.len()
        invariant
            i <= v@.len(),
            r@ == v@.subrange(0, i as int),
        decreases v@.len() - i,
    {
        r.push(v[i]);
        i = i + 1;
        assert(r@ =~= v@.subrange(0, i as int));
    }
    assert(v@.subrange(0, v@.len() as int) =~= v@);
    r
}

/// The fingerprint of the tuple that the interaction puts on its bus on
/// opened values.
fn fingerprint_on_opening(x: &Interaction, pt: &EvalPoint<Ext>, alpha: Ext, beta: Ext) -> (r: Ext)
    requires
        x.within(pt.prep_local@.len() as int, pt.main_local@.len() as int),
        pt.main_next@.len() == pt.main_local@.len(),
        pt.prep_next@.len() == pt.prep_local@.len(),
    ensures
        r@ == fingerprint_at(x, pt@, (alpha@, beta@)),
{
    let ghost vals = eval_all_ext(x.values@, pt@);
    let mut rlc = Ext::zero();
    let mut b = Ext::one();
    let mut k: usize = 0;
    while k < x.values.len()
        invariant
            k <= x.values@.len(),
            x.within(pt.prep_local@.len() as int, pt.main_local@.len() as int),
            pt.main_next@.len() == pt.main_local@.len(),
            pt.prep_next@.len() == pt.prep_local@.len(),
            vals == eval_all_ext(x.values@, pt@),
            rlc@ == combine(vals, beta@, k as nat),
            b@ == q_pow(beta@, k as nat),
        decreases x.values@.len() - k,
    {
        let v = x.values[k].eval_on_opening(pt);
        rlc = rlc.add(b.mul(v));
        b = b.mul(beta);
        k = k + 1;
    }
    power(alpha, x.kind.index()).add(rlc)
}

/// Interaction `j` of a chip: a send, or a receive after the sends.
fn interaction_at(chip: &MachineChip, j: usize) -> (r: &Interaction)
    requires
        j < chip.sends@.len() + chip.receives@.len(),
        chip.well_formed(),
    ensures
        *r == interactions(chip)[j as int],
        r.within(chip.preprocessed_width as int, chip.width as int),
{
    if j < chip.sends.len() {
        &chip.sends[j]
    } else {
        &chip.receives[j - chip.sends.len()]
    }
}

/// What the interactions of a chip add to the running sum on a point.
fn row_sum_of(chip: &MachineChip, pt: &EvalPoint<Ext>, perm: &Vec<Ext>) -> (r: Ext)
    requires
        chip.well_formed(),
        pt.prep_local@.len() == chip.preprocessed_width,
        pt.prep_next@.len() == chip.preprocessed_width,
        pt.main_local@.len() == chip.width,
        pt.main_next@.len() == chip.width,
        perm@.len() == chip.sends@.len() + chip.receives@.len() + 1,
    ensures
        r@ == row_sum(chip, pt@, exts_view(perm@), interactions(chip).len()),
{
    let m = chip.sends.len() + chip.receives.len();
    let mut acc = Ext::zero();
    let mut j: usize = 0;
    while j < m
        invariant
            j <= m,
            m == chip.sends@.len() + chip.receives@.len(),
            m == interactions(chip).len(),
            chip.well_formed(),
            pt.prep_local@.len() == chip.preprocessed_width,
            pt.prep_next@.len() == chip.preprocessed_width,
            pt.main_local@.len() == chip.width,
            pt.main_next@.len() == chip.width,
            perm@.len() == m + 1,
            acc@ == row_sum(chip, pt@, exts_view(perm@), j as nat),
        decreases m - j,
    {
        let x = interaction_at(chip, j);
        let term = perm[j].mul(x.multiplicity.eval_on_opening(pt));
        if j < chip.sends.len() {
            acc = acc.add(term);
        } else {
            acc = acc.sub(term);
        }
        j = j + 1;
    }
    acc
}

/// The values of the constraints of the permutation columns of a chip.
fn eval_permutation_constraints(
    chip: &MachineChip,
    pt: &EvalPoint<Ext>,
    next_pt: &EvalPoint<Ext>,
    perm_local: &Vec<Ext>,
    perm_next: &Vec<Ext>,
    cumulative_sum: Ext,
    alpha: Ext,
    beta: Ext,
    vals: &mut Vec<Ext>,
)
    requires
        chip.well_formed(),
        pt.prep_local@.len() == chip.preprocessed_width,
        pt.prep_next@.len() == chip.preprocessed_width,
        pt.main_local@.len() == chip.width,
        pt.main_next@.len() == chip.width,
        next_pt.prep_local@.len() == chip.preprocessed_width,
        next_pt.prep_next@.len() == chip.preprocessed_width,
        next_pt.main_local@.len() == chip.width,
        next_pt.main_next@.len() == chip.width,
        next_pt@ == shifted(pt@),
        perm_local@.len() == chip.sends@.len() + chip.receives@.len() + 1,
        perm_next@.len() == chip.sends@.len() + chip.receives@.len() + 1,
    ensures
        exts_view(final(vals)@) == exts_view(old(vals)@) + permutation_values(
            chip,
            pt@,
            exts_view(perm_local@),
            exts_view(perm_next@),
            cumulative_sum@,
            (alpha@, beta@),
        ),
{
    let m = chip.sends.len() + chip.receives.len();
    let ghost start = exts_view(vals@);
    let ghost ch = (alpha@, beta@);
    let ghost pl = exts_view(perm_local@);
    assert(start.len() == vals@.len());
    let mut j: usize = 0;
    while j < m
        invariant
            j <= m,
            m == chip.sends@.len() + chip.receives@.len(),
            m == interactions(chip).len(),
            chip.well_formed(),
            pt.prep_local@.len() == chip.preprocessed_width,
            pt.prep_next@.len() == chip.preprocessed_width,
            pt.main_local@.len() == chip.width,
            pt.main_next@.len() == chip.width,
            perm_local@.len() == m + 1,
            pl == exts_view(perm_local@),
            ch == (alpha@, beta@),
            vals@.len() == start.len() + j,
            forall|k: int| 0 <= k < start.len() ==> (#[trigger] vals@[k])@ == start[k],
            forall|k: int|
                0 <= k < j ==> (#[trigger] vals@[start.len() + k])@ == q_sub(
                    q_mul(fingerprint_at(&interactions(chip)[k], pt@, ch), pl[k]),
                    q_one(),
                ),
        decreases m - j,
    {
        let x = interaction_at(chip, j);
        let rlc = fingerprint_on_opening(x, pt, alpha, beta);
        vals.push(rlc.mul(perm_local[j]).sub(Ext::one()));
        j = j + 1;
    }
    let phi_local = perm_local[m];
    let phi_next = perm_next[m];
    let rhs = row_sum_of(chip, next_pt, perm_next);
    let phi_0 = row_sum_of(chip, pt, perm_local);
    vals.push(pt.is_transition.mul(phi_next.sub(phi_local).sub(rhs)));
    vals.push(pt.is_first_row.mul(phi_local.sub(phi_0)));
    vals.push(pt.is_last_row.mul(phi_local.sub(cumulative_sum)));
    proof {
        let pv = permutation_values(
            chip,
            pt@,
            exts_view(perm_local@),
            exts_view(perm_next@),
            cumulative_sum@,
            ch,
        );
        assert(pv.len() == m + 3);
        assert forall|k: int| 0 <= k < m + 3 implies (#[trigger] vals@[start.len() + k])@
            == pv[k] by {}
        assert(exts_view(vals@).len() == (start + pv).len());
        assert forall|k: int| 0 <= k < exts_view(vals@).len() implies exts_view(vals@)[k] == (
        start + pv)[k] by {
            if k >= start.len() {
                assert(vals@[start.len() + (k - start.len())] == vals@[k]);
            }
        }
    }
    assert(exts_view(vals@) =~= start + permutation_values(
        chip,
        pt@,
        exts_view(perm_local@),
        exts_view(perm_next@),
        cumulative_sum@,
        ch,
    ));
}

/// The quotient, put together from its chunks.
fn recompute_quotient(chunks: &Vec<Vec<Ext>>, zps: &Vec<Ext>) -> (r: Ext)
    requires
        chunks@.len() == zps@.len(),
        forall|i: int| 0 <= i < chunks@.len() ==> (#[trigger] chunks@[i])@.len() == 4,
    ensures
        r@ == quotient_value(chunks@, exts_view(zps@), zps@.len()),
{
    let mut acc = Ext::zero();
    let mut i: usize = 0;
    while i < chunks.len()
        invariant
            i <= chunks@.len(),
            chunks@.len() == zps@.len(),
            forall|k: int| 0 <= k < chunks@.len() ==> (#[trigger] chunks@[k])@.len() == 4,
            acc@ == quotient_value(chunks@, exts_view(zps@), i as nat),
        decreases chunks@.len() - i,
    {
        let ch = &chunks[i];
        assert(ch@.len() == 4);
        let zp = zps[i];
        let mut part = Ext::zero();
        part = part.add(zp.mul(monomial_of(0)).mul(ch[0]));
        part = part.add(zp.mul(monomial_of(1)).mul(ch[1]));
        part = part.add(zp.mul(monomial_of(2)).mul(ch[2]));
        part = part.add(zp.mul(monomial_of(3)).mul(ch[3]));
        assert(part@ == chunk_value(exts_view(ch@), zp@));
        acc = acc.add(part);
        i = i + 1;
    }
    acc
}

/// Whether the opened values have the shape that the chip asks for.
fn check_shape(chip: &MachineChip, o: &ChipOpenedValues, chunks: usize) -> (r: bool)
    requires
        chip.well_formed(),
    ensures
        r == shape_ok(chip, o, chunks as nat),
{
    let m = chip.sends.len() + chip.receives.len();
    if o.preprocessed.local.len() != chip.preprocessed_width || o.preprocessed.next.len()
        != chip.preprocessed_width || o.main.local.len() != chip.width || o.main.next.len()
        != chip.width || o.permutation.local.len() != 4 * (m + 1) || o.permutation.next.len() != 4
        * (m + 1) || o.quotient.len() != chunks {
        return false;
    }
    let mut i: usize = 0;
    while i < o.quotient.len()
        invariant
            i <= o.quotient@.len(),
            forall|k: int| 0 <= k < i ==> (#[trigger] o.quotient@[k])@.len() == 4,
        decreases o.quotient@.len() - i,
    {
        if o.quotient[i].len() != 4 {
            return false;
        }
        i = i + 1;
    }
    true
}

/// Checks the constraints of a chip on its opened values, given the
/// values of the selectors of the trace domain and the weights of the
/// chunks of the quotient: the shape of the opened values is right, and
/// the constraints, folded and divided by the vanishing polynomial, are the
/// quotient.
pub fn check_constraints(
    chip: &MachineChip,
    opening: &ChipOpenedValues,
    sels: &LagrangeSelectors,
    zps: &Vec<Ext>,
    alpha: Ext,
    permutation_challenges: &[Ext],
) -> (r: Result<(), OodEvaluationMismatch>)
    requires
        chip.well_formed(),
        permutation_challenges@.len() == 2,
    ensures
        r is Ok <==> constraints_hold(
            chip,
            opening,
            sels@,
            exts_view(zps@),
            alpha@,
            (permutation_challenges@[0]@, permutation_challenges@[1]@),
        ),
{
    if !check_shape(chip, opening, zps.len()) {
        return Err(OodEvaluationMismatch);
    }
    let quotient = recompute_quotient(&opening.quotient, zps);

    // The opened values of the permutation columns, as elements of the
    // extension.
    let perm_local = unflatten_values(&opening.permutation.local);
    let perm_next = unflatten_values(&opening.permutation.next);
    let pt = EvalPoint {
        prep_local: copy_of(&opening.preprocessed.local),
        prep_next: copy_of(&opening.preprocessed.next),
        main_local: copy_of(&opening.main.local),
        main_next: copy_of(&opening.main.next),
        is_first_row: sels.is_first_row,
        is_last_row: sels.is_last_row,
        is_transition: sels.is_transition,
    };
    let next_pt = EvalPoint {
        prep_local: copy_of(&opening.preprocessed.next),
        prep_next: copy_of(&opening.preprocessed.local),
        main_local: copy_of(&opening.main.next),
        main_next: copy_of(&opening.main.local),
        is_first_row: sels.is_first_row,
        is_last_row: sels.is_last_row,
        is_transition: sels.is_transition,
    };
    assert(pt@ == opening_point(opening, sels@));
    assert(next_pt@ == shifted(pt@));
    let mut vals: Vec<Ext> = Vec::new();
    let mut i: usize = 0;
    while i < chip.constraints.len()
        invariant
            i <= chip.constraints@.len(),
            chip.well_formed(),
            pt.prep_local@.len() == chip.preprocessed_width,
            pt.prep_next@.len() == chip.preprocessed_width,
            pt.main_local@.len() == chip.width,
            pt.main_next@.len() == chip.width,
            vals@.len() == i,
            forall|k: int|
                0 <= k < i ==> (#[trigger] vals@[k])@ == chip.constraints@[k].eval_ext(pt@),
        decreases chip.constraints@.len() - i,
    {
        vals.push(chip.constraints[i].eval_on_opening(&pt));
        i = i + 1;
    }
    assert(exts_view(vals@) =~= eval_all_ext(chip.constraints@, pt@));
    proof {
        let m = (chip.sends@.len() + chip.receives@.len()) as int;
        assert(unflatten(exts_view(opening.permutation.local@)).len() == m + 1);
        assert(unflatten(exts_view(opening.permutation.next@)).len() == m + 1);
        assert(exts_view(perm_local@).len() == perm_local@.len());
        assert(exts_view(perm_next@).len() == perm_next@.len());
    }
    eval_permutation_constraints(
        chip,
        &pt,
        &next_pt,
        &perm_local,
        &perm_next,
        opening.cumulative_sum,
        permutation_challenges[0],
        permutation_challenges[1],
        &mut vals,
    );
    let folded_constraints = fold_constraints(&vals, alpha);

    // Check that the constraints match the quotient, i.e.
    //     folded_constraints(zeta) / Z_H(zeta) = quotient(zeta)
    if folded_constraints.mul(sels.inv_zeroifier).equals(&quotient) {
        Ok(())
    } else {
        Err(OodEvaluationMismatch)
    }
}

/// What the domain `dj` of one chunk of the quotient contributes to the
/// weight of the chunk on the domain `di`: its vanishing polynomial at
/// `zeta`, divided by its vanishing polynomial at the first point of `di`.
pub open spec fn zp_factor(dj: Domain, di: Domain, zeta: Quartic) -> Option<Quartic> {
    if !dj.is_coset() {
        None
    } else {
        match q_inverse(dj.zp_spec(q_base(di.shift@))) {
            Some(inv) => Some(q_mul(dj.zp_spec(zeta), inv)),
            None => None,
        }
    }
}

/// The product of the contributions of the first `n` domains but the
/// `i`-th to the weight of chunk `i`.
pub open spec fn zp_product(ds: Seq<Domain>, i: int, zeta: Quartic, n: nat) -> Option<Quartic>
    decreases n,
{
    if n == 0 {
        Some(q_one())
    } else {
        match zp_product(ds, i, zeta, (n - 1) as nat) {
            None => None,
            Some(acc) => if n - 1 == i {
                Some(acc)
            } else {
                match zp_factor(ds[n - 1], ds[i], zeta) {
                    Some(f) => Some(q_mul(acc, f)),
                    None => None,
                }
            },
        }
    }
}

/// The weights of the first `k` chunks of the quotient; `None` where a
/// division that they need cannot be made.
pub open spec fn quotient_weights(ds: Seq<Domain>, zeta: Quartic, k: nat) -> Option<Seq<Quartic>>
    decreases k,
{
    if k == 0 {
        Some(Seq::empty())
    } else {
        match quotient_weights(ds, zeta, (k - 1) as nat) {
            None => None,
            Some(s) => match zp_product(ds, k - 1, zeta, ds.len()) {
                Some(p) => Some(s.push(p)),
                None => None,
            },
        }
    }
}

/// The constraints of a chip are verified at `zeta`: the trace domain
/// admits the point, the weights of the chunks of the quotient can be had,
/// and the constraints hold on the opened values.
pub open spec fn constraints_verified(
    chip: &MachineChip,
    opening: &ChipOpenedValues,
    trace_domain: Domain,
    qc_domains: Seq<Domain>,
    zeta: Quartic,
    alpha: Quartic,
    ch: (Quartic, Quartic),
) -> bool {
    &&& trace_domain.admits(zeta)
    &&& quotient_weights(qc_domains, zeta, qc_domains.len()) matches Some(zps)
        && constraints_hold(chip, opening, trace_domain.selectors_spec(zeta), zps, alpha, ch)
}

fn weight_of_chunk(qc_domains: &Vec<Domain>, i: usize, zeta: &Ext) -> (r: Option<Ext>)
    requires
        i < qc_domains@.len(),
    ensures
        match r {
            Some(v) => zp_product(qc_domains@, i as int, zeta@, qc_domains@.len()) == Some(v@),
            None => zp_product(qc_domains@, i as int, zeta@, qc_domains@.len()) is None,
        },
{
    let first = qc_domains[i].first_point();
    let mut acc = Ext::one();
    let mut j: usize = 0;
    while j < qc_domains.len()
        invariant
            j <= qc_domains@.len(),
            i < qc_domains@.len(),
            first@ == q_base(qc_domains@[i as int].shift@),
            zp_product(qc_domains@, i as int, zeta@, j as nat) == Some(acc@),
        decreases qc_domains@.len() - j,
    {
        if j != i {
            let other = &qc_domains[j];
            let at_zeta = match other.zp_at_point(zeta) {
                Some(v) => v,
                None => {
                    proof {
                        lemma_product_stays_none(qc_domains@, i as int, zeta@, (j + 1) as nat, qc_domains@.len());
                    }
                    return None;
                },
            };
            let at_first = match other.zp_at_point(&first) {
                Some(v) => v,
                None => {
                    proof {
                        lemma_product_stays_none(qc_domains@, i as int, zeta@, (j + 1) as nat, qc_domains@.len());
                    }
                    return None;
                },
            };
            let inv = match at_first.try_inverse() {
                Some(v) => v,
                None => {
                    proof {
                        lemma_product_stays_none(qc_domains@, i as int, zeta@, (j + 1) as nat, qc_domains@.len());
                    }
                    return None;
                },
            };
            acc = acc.mul(at_zeta.mul(inv));
        }
        j = j + 1;
    }
    Some(acc)
}

/// A product that cannot be had over the first domains cannot be had over
/// more of them.
proof fn lemma_product_stays_none(ds: Seq<Domain>, i: int, zeta: Quartic, n: nat, m: nat)
    requires
        n <= m,
        zp_product(ds, i, zeta, n) is None,
    ensures
        zp_product(ds, i, zeta, m) is None,
    decreases m,
{
    if n < m {
        lemma_product_stays_none(ds, i, zeta, n, (m - 1) as nat);
    }
}

/// Weights that cannot be had for the first chunks cannot be had for more
/// of them.
proof fn lemma_weights_stay_none(ds: Seq<Domain>, zeta: Quartic, k: nat, m: nat)
    requires
        k <= m,
        quotient_weights(ds, zeta, k) is None,
    ensures
        quotient_weights(ds, zeta, m) is None,
    decreases m,
{
    if k < m {
        lemma_weights_stay_none(ds, zeta, k, (m - 1) as nat);
    }
}

fn weights_of_chunks(qc_domains: &Vec<Domain>, zeta: &Ext) -> (r: Option<Vec<Ext>>)
    ensures
        match r {
            Some(v) => quotient_weights(qc_domains@, zeta@, qc_domains@.len()) == Some(
                exts_view(v@),
            ),
            None => quotient_weights(qc_domains@, zeta@, qc_domains@.len()) is None,
        },
{
    let mut zps: Vec<Ext> = Vec::new();
    let mut i: usize = 0;
    while i < qc_domains.len()
        invariant
            i <= qc_domains@.len(),
            quotient_weights(qc_domains@, zeta@, i as nat) == Some(exts_view(zps@)),
        decreases qc_domains@.len() - i,
    {
        match weight_of_chunk(qc_domains, i, zeta) {
            Some(v) => {
                let ghost before = exts_view(zps@);
                zps.push(v);
                assert(exts_view(zps@) =~= before.push(v@));
            },
            None => {
                proof {
                    lemma_weights_stay_none(
                        qc_domains@,
                        zeta@,
                        (i + 1) as nat,
                        qc_domains@.len(),
                    );
                }
                return None;
            },
        }
        i = i + 1;
    }
    Some(zps)
}

/// The verifier of the proofs of shards.
pub struct Verifier;

impl Verifier {
    /// Verifies the constraints of a chip at the point `zeta`: evaluates the
    /// selectors of the trace domain and the weights of the chunks of the
    /// quotient, and checks the constraints on the opened values.
    pub fn verify_constraints(
        chip: &MachineChip,
        opening: &ChipOpenedValues,
        trace_domain: Domain,
        qc_domains: &Vec<Domain>,
        zeta: Ext,
        alpha: Ext,
        permutation_challenges: &[Ext],
    ) -> (r: Result<(), OodEvaluationMismatch>)
        requires
            chip.well_formed(),
            permutation_challenges@.len() == 2,
        ensures
            r is Ok <==> constraints_verified(
                chip,
                opening,
                trace_domain,
                qc_domains@,
                zeta@,
                alpha@,
                (permutation_challenges@[0]@, permutation_challenges@[1]@),
            ),
    {
        let sels = match trace_domain.selectors_at_point(&zeta) {
            Some(s) => s,
            None => {
                return Err(OodEvaluationMismatch);
            },
        };
        let zps = match weights_of_chunks(qc_domains, &zeta) {
            Some(z) => z,
            None => {
                return Err(OodEvaluationMismatch);
            },
        };
        check_constraints(chip, opening, &sels, &zps, alpha, permutation_challenges)
    }
}

/// The first `n` chips of a shard are verified.
pub open spec fn chips_verified(
    chips: Seq<MachineChip>,
    opened: Seq<ChipOpenedValues>,
    trace_domains: Seq<Domain>,
    quotient_chunk_domains: Seq<Vec<Domain>>,
    zeta: Quartic,
    alpha: Quartic,
    ch: (Quartic, Quartic),
    n: int,
) -> bool {
    forall|i: int|
        0 <= i < n ==> constraints_verified(
            #[trigger] &chips[i],
            &opened[i],
            trace_domains[i],
            quotient_chunk_domains[i]@,
            zeta,
            alpha,
            ch,
        )
}

/// Chip `i` is the first whose constraints are not verified, and `name` is
/// its name.
pub open spec fn rejected_at(
    chips: Seq<MachineChip>,
    opened: Seq<ChipOpenedValues>,
    trace_domains: Seq<Domain>,
    quotient_chunk_domains: Seq<Vec<Domain>>,
    zeta: Quartic,
    alpha: Quartic,
    ch: (Quartic, Quartic),
    name: Seq<char>,
    i: int,
) -> bool {
    &&& 0 <= i < chips.len()
    &&& name == chips[i].name@
    &&& chips_verified(chips, opened, trace_domains, quotient_chunk_domains, zeta, alpha, ch, i)
    &&& !constraints_verified(
        &chips[i],
        &opened[i],
        trace_domains[i],
        quotient_chunk_domains[i]@,
        zeta,
        alpha,
        ch,
    )
}

impl Verifier {
    /// Verifies the opened values of a shard, chip by chip. The commitment
    /// scheme has said whether the openings are those of the commitments; the
    /// challenges and the point were drawn from the transcript, the two of the
    /// permutation first, then `alpha`, then `zeta`. A shard whose openings
    /// are not valid is rejected as such; otherwise the shard is rejected with
    /// the name of the first chip whose constraints do not match its quotient.
    pub fn verify_shard(
        chips: &Vec<MachineChip>,
        opened_values: &ShardOpenedValues,
        trace_domains: &Vec<Domain>,
        quotient_chunk_domains: &Vec<Vec<Domain>>,
        opening_ok: bool,
        permutation_challenges: &[Ext],
        alpha: Ext,
        zeta: Ext,
    ) -> (r: Result<(), VerificationError>)
        requires
            chips@.len() == opened_values.chips@.len(),
            chips@.len() == trace_domains@.len(),
            chips@.len() == quotient_chunk_domains@.len(),
            forall|i: int| 0 <= i < chips@.len() ==> (#[trigger] chips@[i]).well_formed(),
            permutation_challenges@.len() == 2,
        ensures
            match r {
                Ok(()) => opening_ok && chips_verified(
                    chips@,
                    opened_values.chips@,
                    trace_domains@,
                    quotient_chunk_domains@,
                    zeta@,
                    alpha@,
                    (permutation_challenges@[0]@, permutation_challenges@[1]@),
                    chips@.len() as int,
                ),
                Err(VerificationError::InvalidopeningArgument) => !opening_ok,
                Err(VerificationError::OodEvaluationMismatch(name)) => opening_ok && exists|i: int|
                    #[trigger] rejected_at(
                        chips@,
                        opened_values.chips@,
                        trace_domains@,
                        quotient_chunk_domains@,
                        zeta@,
                        alpha@,
                        (permutation_challenges@[0]@, permutation_challenges@[1]@),
                        name@,
                        i,
                    ),
            },
    {
        if !opening_ok {
            return Err(VerificationError::InvalidopeningArgument);
        }
        // Verify the constraint evaluations.
        let ghost ch = (permutation_challenges@[0]@, permutation_challenges@[1]@);
        let mut i: usize = 0;
        while i < chips.len()
            invariant
                i <= chips@.len(),
                opening_ok,
                chips@.len() == opened_values.chips@.len(),
                chips@.len() == trace_domains@.len(),
                chips@.len() == quotient_chunk_domains@.len(),
                forall|k: int| 0 <= k < chips@.len() ==> (#[trigger] chips@[k]).well_formed(),
                permutation_challenges@.len() == 2,
                ch == (permutation_challenges@[0]@, permutation_challenges@[1]@),
                chips_verified(
                    chips@,
                    opened_values.chips@,
                    trace_domains@,
                    quotient_chunk_domains@,
                    zeta@,
                    alpha@,
                    ch,
                    i as int,
                ),
            decreases chips@.len() - i,
        {
            let chip = &chips[i];
            match Self::verify_constraints(
                chip,
                &opened_values.chips[i],
                trace_domains[i],
                &quotient_chunk_domains[i],
                zeta,
                alpha,
                permutation_challenges,
            ) {
                Ok(()) => {},
                Err(_e) => {
                    let name = chip.name();
                    proof {
                        assert(rejected_at(
                            chips@,
                            opened_values.chips@,
                            trace_domains@,
                            quotient_chunk_domains@,
                            zeta@,
                            alpha@,
                            ch,
                            name@,
                            i as int,
                        ));
                    }
                    let ghost shown = name@;
                    let e = VerificationError::OodEvaluationMismatch(name);
                    proof {
                        assert(e matches VerificationError::OodEvaluationMismatch(n) && n@ == shown);
                    }
                    return Err(e);
                },
            }
            i = i + 1;
        }
        Ok(())
    }
}

} // verus!
