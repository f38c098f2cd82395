//! The permutation columns of a chip: for every row the reciprocal of the
//! fingerprint of each interaction, and the running sum of the
//! multiplicities times those reciprocals. They can only be made once the
//! main traces are fixed and the two challenges drawn.

use crate::air::{
    felts_view, interactions_within, lift_seq, EvalPoint, Expr, Interaction, Point,
};
use crate::extension::{
    lemma_base_is_subring, q_add, q_base, q_inverse, q_mul, q_one, q_sub, q_zero, Ext, Quartic,
};
use crate::field::{Felt, P};
use crate::lookup::{net, scale, Term};
use crate::trace::Trace;
use vstd::prelude::*;

verus! {

/// The `n`-th power of an element.
pub open spec fn q_pow(x: Quartic, n: nat) -> Quartic
    decreases n,
{
    if n == 0 {
        q_one()
    } else {
        q_mul(q_pow(x, (n - 1) as nat), x)
    }
}

/// The first `k` entries of a tuple, combined with the powers of `beta`:
/// the sum of `beta^j` times entry `j`.
pub open spec fn combine(values: Seq<Quartic>, beta: Quartic, k: nat) -> Quartic
    decreases k,
{
    if k == 0 {
        q_zero()
    } else {
        q_add(
            combine(values, beta, (k - 1) as nat),
            q_mul(q_pow(beta, (k - 1) as nat), values[k - 1]),
        )
    }
}

/// The fingerprint of a tuple on the bus with the number `bus`: the power
/// of `alpha` that belongs to the bus, and the tuple combined with the
/// powers of `beta`.
pub open spec fn tuple_fingerprint(
    bus: nat,
    values: Seq<Quartic>,
    alpha: Quartic,
    beta: Quartic,
) -> Quartic {
    q_add(q_pow(alpha, bus), combine(values, beta, values.len()))
}

/// The fingerprint of a tuple of base values by its key, which holds the
/// number of the bus and then the entries.
pub open spec fn fingerprint(key: Seq<int>, alpha: Quartic, beta: Quartic) -> Quartic {
    tuple_fingerprint(key[0] as nat, lift_seq(key.skip(1)), alpha, beta)
}

/// The weight of a tuple in the argument: the reciprocal of its
/// fingerprint, or zero where the fingerprint has none.
pub open spec fn weight(alpha: Quartic, beta: Quartic) -> spec_fn(Seq<int>) -> Quartic {
    |key: Seq<int>|
        match q_inverse(fingerprint(key, alpha, beta)) {
            Some(r) => r,
            None => q_zero(),
        }
}

/// The values of the expressions on a point.
pub open spec fn eval_all(es: Seq<Expr>, pt: Point<int>) -> Seq<int> {
    Seq::new(es.len(), |i: int| es[i].eval_base(pt))
}

/// The key of the tuple that an interaction puts on its bus on a point.
pub open spec fn key_of(x: &Interaction, pt: Point<int>) -> Seq<int> {
    seq![x.kind.index_spec()] + eval_all(x.values@, pt)
}

/// The terms of the first `k` interactions on a point, with the sign given.
pub open spec fn terms_of(xs: Seq<Interaction>, pt: Point<int>, negative: bool, k: nat) -> Seq<
    Term,
>
    decreases k,
{
    if k == 0 {
        Seq::empty()
    } else {
        let x = &xs[k - 1];
        let m = x.multiplicity.eval_base(pt);
        terms_of(xs, pt, negative, (k - 1) as nat).push(
            Term {
                key: key_of(x, pt),
                mult: if negative {
                    -m
                } else {
                    m
                },
            },
        )
    }
}

/// The terms of a row: those of the sends, then those of the receives with
/// their multiplicities negated.
pub open spec fn row_terms(sends: Seq<Interaction>, receives: Seq<Interaction>, pt: Point<int>) -> Seq<
    Term,
> {
    terms_of(sends, pt, false, sends.len()) + terms_of(receives, pt, true, receives.len())
}

/// A power of an element.
pub fn power(x: Ext, n: u32) -> (r: Ext)
    ensures
        r@ == q_pow(x@, n as nat),
{
    let mut r = Ext::one();
    let mut i: u32 = 0;
    while i < n
        invariant
            i <= n,
            r@ == q_pow(x@, i as nat),
        decreases n - i,
    {
        r = r.mul(x);
        i = i + 1;
    }
    r
}

/// The fingerprint of the tuple that the interaction puts on its bus on a
/// row of the trace.
pub fn fingerprint_on_row(x: &Interaction, pt: &EvalPoint<Felt>, alpha: Ext, beta: Ext) -> (r: Ext)
    requires
        x.within(pt.prep_local@.len() as int, pt.main_local@.len() as int),
        pt.main_next@.len() == pt.main_local@.len(),
        pt.prep_next@.len() == pt.prep_local@.len(),
    ensures
        r@ == fingerprint(key_of(x, pt@), alpha@, beta@),
{
    let ghost key = key_of(x, pt@);
    let ghost vals = lift_seq(eval_all(x.values@, pt@));
    assert(key.skip(1) =~= eval_all(x.values@, pt@));
    assert(vals.len() == x.values@.len());
    let mut rlc = Ext::zero();
    let mut b = Ext::one();
    let mut k: usize = 0;
    while k < x.values.len()
        invariant
            k <= x.values@.len(),
            x.within(pt.prep_local@.len() as int, pt.main_local@.len() as int),
            pt.main_next@.len() == pt.main_local@.len(),
            pt.prep_next@.len() == pt.prep_local@.len(),
            vals == lift_seq(eval_all(x.values@, pt@)),
            rlc@ == combine(vals, beta@, k as nat),
            b@ == q_pow(beta@, k as nat),
        decreases x.values@.len() - k,
    {
        let v = x.values[k].eval_on_row(pt);
        rlc = rlc.add(b.mul(Ext::from_base(v)));
        b = b.mul(beta);
        k = k + 1;
    }
    power(alpha, x.kind.index()).add(rlc)
}

/// The product of a base element and an extension element is the
/// extension element, so many times.
pub proof fn lemma_scale_is_product(m: int, q: Quartic)
    ensures
        q_mul(q_base(m), q) == scale(m, q),
{
    assert(0 * q.c0 == 0 && 0 * q.c1 == 0 && 0 * q.c2 == 0 && 0 * q.c3 == 0);
}

/// Taking a product away is adding the product with the sign changed.
pub proof fn lemma_subtract_is_add_negative(a: Quartic, m: int, q: Quartic)
    ensures
        q_sub(a, scale(m, q)) == q_add(a, scale(-m, q)),
{
    let p = P as int;
    lemma_component(a.c0, m, q.c0);
    lemma_component(a.c1, m, q.c1);
    lemma_component(a.c2, m, q.c2);
    lemma_component(a.c3, m, q.c3);
}

proof fn lemma_component(a: int, m: int, x: int)
    ensures
        (a - (m * x) % (P as int)) % (P as int) == (a + ((-m) * x) % (P as int)) % (P as int),
{
    let p = P as int;
    vstd::arithmetic::div_mod::lemma_sub_mod_noop_right(a, m * x, p);
    vstd::arithmetic::div_mod::lemma_add_mod_noop_right(a, (-m) * x, p);
    assert((-m) * x == -(m * x)) by (nonlinear_arith);
    assert(a + (-(m * x)) == a - m * x);
}

/// The permutation columns of one row: the reciprocals of the fingerprints
/// of the sends and of the receives, in this order, and the running sum up
/// to and with this row.
pub struct PermutationRow {
    pub reciprocals: Vec<Ext>,
    pub phi: Ext,
}

/// The fingerprint of the tuple of interaction `j` is zero at a point.
pub open spec fn vanishes_at(
    xs: Seq<Interaction>,
    pt: Point<int>,
    alpha: Quartic,
    beta: Quartic,
    j: int,
) -> bool {
    0 <= j < xs.len() && fingerprint(key_of(&xs[j], pt), alpha, beta) == q_zero()
}

/// The fingerprint of the tuple of some interaction is zero at a point.
pub open spec fn vanishes_on(xs: Seq<Interaction>, pt: Point<int>, alpha: Quartic, beta: Quartic) -> bool {
    exists|j: int| vanishes_at(xs, pt, alpha, beta, j)
}

/// The sum of the row added to `phi`: the multiplicities of the first `k`
/// interactions times the reciprocals of their fingerprints, with the sign
/// given.
fn add_interactions(
    xs: &Vec<Interaction>,
    pt: &EvalPoint<Felt>,
    alpha: Ext,
    beta: Ext,
    negative: bool,
    phi: Ext,
    reciprocals: &mut Vec<Ext>,
    Ghost(before): Ghost<Seq<Term>>,
) -> (r: Option<Ext>)
    requires
        interactions_within(xs@, pt.prep_local@.len() as int, pt.main_local@.len() as int),
        pt.main_next@.len() == pt.main_local@.len(),
        pt.prep_next@.len() == pt.prep_local@.len(),
        phi@ == net(before, weight(alpha@, beta@)),
    ensures
        match r {
            Some(v) => {
                &&& v@ == net(
                    before + terms_of(xs@, pt@, negative, xs@.len()),
                    weight(alpha@, beta@),
                )
                &&& final(reciprocals)@.len() == old(reciprocals)@.len() + xs@.len()
                &&& forall|j: int|
                    0 <= j < old(reciprocals)@.len() ==> final(reciprocals)@[j] == old(
                        reciprocals,
                    )@[j]
                &&& forall|j: int|
                    0 <= j < xs@.len() ==> q_inverse(
                        fingerprint(key_of(&xs@[j], pt@), alpha@, beta@),
                    ) == Some((#[trigger] final(reciprocals)@[old(reciprocals)@.len() + j])@)
                &&& !vanishes_on(xs@, pt@, alpha@, beta@)
            },
            None => vanishes_on(xs@, pt@, alpha@, beta@),
        },
{
    let mut acc = phi;
    let mut j: usize = 0;
    while j < xs.len()
        invariant
            j <= xs@.len(),
            interactions_within(xs@, pt.prep_local@.len() as int, pt.main_local@.len() as int),
            pt.main_next@.len() == pt.main_local@.len(),
            pt.prep_next@.len() == pt.prep_local@.len(),
            acc@ == net(before + terms_of(xs@, pt@, negative, j as nat), weight(alpha@, beta@)),
            reciprocals@.len() == old(reciprocals)@.len() + j,
            forall|i: int|
                0 <= i < old(reciprocals)@.len() ==> reciprocals@[i] == old(reciprocals)@[i],
            forall|i: int|
                0 <= i < j ==> q_inverse(fingerprint(key_of(&xs@[i], pt@), alpha@, beta@))
                    == Some((#[trigger] reciprocals@[old(reciprocals)@.len() + i])@),
            forall|i: int| 0 <= i < j ==> !#[trigger] vanishes_at(xs@, pt@, alpha@, beta@, i),
        decreases xs@.len() - j,
    {
        let x = &xs[j];
        assert(x.within(pt.prep_local@.len() as int, pt.main_local@.len() as int));
        let f = fingerprint_on_row(x, pt, alpha, beta);
        let recip = match f.try_inverse() {
            Some(r) => r,
            None => {
                proof {
                    assert(vanishes_at(xs@, pt@, alpha@, beta@, j as int));
                }
                return None;
            },
        };
        assert(!vanishes_at(xs@, pt@, alpha@, beta@, j as int));
        let m = x.multiplicity.eval_on_row(pt);
        let product = Ext::from_base(m).mul(recip);
        let ghost done = terms_of(xs@, pt@, negative, j as nat);
        let ghost term = Term {
            key: key_of(x, pt@),
            mult: if negative {
                -m@
            } else {
                m@
            },
        };
        proof {
            let w = weight(alpha@, beta@);
            assert(w(term.key) == recip@);
            lemma_scale_is_product(m@, recip@);
            let next = before + terms_of(xs@, pt@, negative, (j + 1) as nat);
            assert(next =~= (before + done).push(term));
            assert(next.drop_last() =~= before + done);
            assert(next.last() == term);
            if negative {
                lemma_subtract_is_add_negative(acc@, m@, recip@);
            }
        }
        acc = if negative {
            acc.sub(product)
        } else {
            acc.add(product)
        };
        reciprocals.push(recip);
        j = j + 1;
    }
    Some(acc)
}

/// The permutation columns of one row, given the running sum before it.
/// `None` where the fingerprint of some tuple of the row is zero: then the
/// challenges do not serve and others must be drawn.
fn permutation_row(
    sends: &Vec<Interaction>,
    receives: &Vec<Interaction>,
    pt: &EvalPoint<Felt>,
    alpha: Ext,
    beta: Ext,
    phi: Ext,
    Ghost(before): Ghost<Seq<Term>>,
) -> (r: Option<PermutationRow>)
    requires
        interactions_within(sends@, pt.prep_local@.len() as int, pt.main_local@.len() as int),
        interactions_within(receives@, pt.prep_local@.len() as int, pt.main_local@.len() as int),
        pt.main_next@.len() == pt.main_local@.len(),
        pt.prep_next@.len() == pt.prep_local@.len(),
        phi@ == net(before, weight(alpha@, beta@)),
    ensures
        r is None <==> vanishes_on(sends@, pt@, alpha@, beta@) || vanishes_on(
            receives@,
            pt@,
            alpha@,
            beta@,
        ),
        r matches Some(row) ==> {
            &&& row.phi@ == net(
                before + row_terms(sends@, receives@, pt@),
                weight(alpha@, beta@),
            )
            &&& row.reciprocals@.len() == sends@.len() + receives@.len()
            &&& forall|j: int|
                0 <= j < sends@.len() ==> q_inverse(
                    fingerprint(key_of(&sends@[j], pt@), alpha@, beta@),
                ) == Some((#[trigger] row.reciprocals@[j])@)
            &&& forall|j: int|
                0 <= j < receives@.len() ==> q_inverse(
                    fingerprint(key_of(&receives@[j], pt@), alpha@, beta@),
                ) == Some((#[trigger] row.reciprocals@[sends@.len() + j])@)
        },
{
    let mut reciprocals: Vec<Ext> = Vec::new();
    let after_sends = match add_interactions(
        sends,
        pt,
        alpha,
        beta,
        false,
        phi,
        &mut reciprocals,
        Ghost(before),
    ) {
        Some(v) => v,
        None => {
            return None;
        },
    };
    let ghost mid = before + terms_of(sends@, pt@, false, sends@.len());
    let ghost first = reciprocals@;
    assert forall|j: int| 0 <= j < sends@.len() implies q_inverse(
        fingerprint(key_of(&sends@[j], pt@), alpha@, beta@),
    ) == Some((#[trigger] first[j])@) by {
        assert(first[0 + j] == reciprocals@[0 + j]);
    }
    let phi_row = match add_interactions(
        receives,
        pt,
        alpha,
        beta,
        true,
        after_sends,
        &mut reciprocals,
        Ghost(mid),
    ) {
        Some(v) => v,
        None => {
            return None;
        },
    };
    proof {
        assert(mid + terms_of(receives@, pt@, true, receives@.len()) =~= before + row_terms(
            sends@,
            receives@,
            pt@,
        ));
        assert forall|j: int| 0 <= j < sends@.len() implies q_inverse(
            fingerprint(key_of(&sends@[j], pt@), alpha@, beta@),
        ) == Some((#[trigger] reciprocals@[j])@) by {
            assert(reciprocals@[j] == first[j]);
        }
        assert forall|j: int| 0 <= j < receives@.len() implies q_inverse(
            fingerprint(key_of(&receives@[j], pt@), alpha@, beta@),
        ) == Some((#[trigger] reciprocals@[sends@.len() + j])@) by {
            assert(first.len() == sends@.len());
            assert(reciprocals@[first.len() + j] == reciprocals@[sends@.len() + j]);
        }
    }
    Some(PermutationRow { reciprocals, phi: phi_row })
}

/// One if the condition holds, zero if not.
pub open spec fn indicator(b: bool) -> int {
    if b {
        1
    } else {
        0
    }
}

/// The point that row `r` of a trace of `height` rows is evaluated on: the
/// row and the row after it, the last row being followed by the first; and
/// the selectors of the first row, the last row and the transition.
pub open spec fn trace_point(prep: &Trace, main: &Trace, r: int, height: int) -> Point<int> {
    let next = if r + 1 == height {
        0
    } else {
        r + 1
    };
    Point {
        prep_local: prep.row(r),
        prep_next: prep.row(next),
        main_local: main.row(r),
        main_next: main.row(next),
        is_first_row: indicator(r == 0),
        is_last_row: indicator(r + 1 == height),
        is_transition: indicator(r + 1 != height),
    }
}

/// The terms of the first `n` rows of a trace, row by row.
pub open spec fn trace_terms(
    sends: Seq<Interaction>,
    receives: Seq<Interaction>,
    prep: &Trace,
    main: &Trace,
    height: int,
    n: nat,
) -> Seq<Term>
    decreases n,
{
    if n == 0 {
        Seq::empty()
    } else {
        trace_terms(sends, receives, prep, main, height, (n - 1) as nat) + row_terms(
            sends,
            receives,
            trace_point(prep, main, n - 1, height),
        )
    }
}

/// The preprocessed trace and the main trace belong together: the main
/// trace has `height` rows, at least one, and the preprocessed trace has as
/// many, or no columns at all.
pub open spec fn traces_match(prep: &Trace, main: &Trace, height: int) -> bool {
    &&& main.width > 0
    &&& height >= 1
    &&& main.values@.len() == height * main.width
    &&& prep.values@.len() == height * prep.width
}

/// The point that row `r` of a trace is evaluated on.
pub fn point_at(prep: &Trace, main: &Trace, r: usize, height: usize) -> (pt: EvalPoint<Felt>)
    requires
        traces_match(prep, main, height as int),
        r < height,
    ensures
        pt@ == trace_point(prep, main, r as int, height as int),
        pt.prep_local@.len() == prep.width,
        pt.prep_next@.len() == prep.width,
        pt.main_local@.len() == main.width,
        pt.main_next@.len() == main.width,
{
    let next: usize = if r + 1 == height {
        0
    } else {
        r + 1
    };
    proof {
        assert((r + 1) * main.width <= height * main.width) by (nonlinear_arith)
            requires
                r + 1 <= height,
                main.width >= 0,
        ;
        assert((next + 1) * main.width <= height * main.width) by (nonlinear_arith)
            requires
                next + 1 <= height,
                main.width >= 0,
        ;
        assert((r + 1) * prep.width <= height * prep.width) by (nonlinear_arith)
            requires
                r + 1 <= height,
                prep.width >= 0,
        ;
        assert((next + 1) * prep.width <= height * prep.width) by (nonlinear_arith)
            requires
                next + 1 <= height,
                prep.width >= 0,
        ;
    }
    EvalPoint {
        prep_local: prep.row_vec(r),
        prep_next: prep.row_vec(next),
        main_local: main.row_vec(r),
        main_next: main.row_vec(next),
        is_first_row: Felt::from_bool(r == 0),
        is_last_row: Felt::from_bool(r + 1 == height),
        is_transition: Felt::from_bool(r + 1 != height),
    }
}

/// The challenges serve at a point: no fingerprint of a tuple is zero
/// there.
pub open spec fn serve_at(
    sends: Seq<Interaction>,
    receives: Seq<Interaction>,
    pt: Point<int>,
    alpha: Quartic,
    beta: Quartic,
) -> bool {
    !vanishes_on(sends, pt, alpha, beta) && !vanishes_on(receives, pt, alpha, beta)
}

/// The challenges serve for a trace: on no row is the fingerprint of a
/// tuple zero, so that every fingerprint has its reciprocal.
pub open spec fn challenges_serve(
    sends: Seq<Interaction>,
    receives: Seq<Interaction>,
    prep: &Trace,
    main: &Trace,
    height: int,
    alpha: Quartic,
    beta: Quartic,
) -> bool {
    forall|r: int|
        0 <= r < height ==> #[trigger] serve_at(
            sends,
            receives,
            trace_point(prep, main, r, height),
            alpha,
            beta,
        )
}

/// The permutation columns of a chip and the sum that they end in.
pub struct PermutationTrace {
    pub rows: Vec<PermutationRow>,
    pub cumulative_sum: Ext,
}

/// The permutation columns of a chip, from its interactions, its traces
/// and the two challenges. The running sum of a row is the sum of the
/// argument over the terms of all rows up to it, and the cumulative sum of
/// the chip is that of the last row. `None` where the fingerprint of some
/// tuple is zero on some row, so that the challenges do not serve.
pub fn generate_permutation_trace(
    sends: &Vec<Interaction>,
    receives: &Vec<Interaction>,
    prep: &Trace,
    main: &Trace,
    height: usize,
    alpha: Ext,
    beta: Ext,
) -> (r: Option<PermutationTrace>)
    requires
        traces_match(prep, main, height as int),
        interactions_within(sends@, prep.width as int, main.width as int),
        interactions_within(receives@, prep.width as int, main.width as int),
    ensures
        r is Some <==> challenges_serve(sends@, receives@, prep, main, height as int, alpha@, beta@),
        r matches Some(t) ==> {
            &&& t.rows@.len() == height
            &&& t.cumulative_sum@ == net(
                trace_terms(sends@, receives@, prep, main, height as int, height as nat),
                weight(alpha@, beta@),
            )
            &&& forall|i: int|
                0 <= i < height ==> (#[trigger] t.rows@[i]).phi@ == net(
                    trace_terms(sends@, receives@, prep, main, height as int, (i + 1) as nat),
                    weight(alpha@, beta@),
                )
            &&& forall|i: int|
                0 <= i < height ==> (#[trigger] t.rows@[i]).reciprocals@.len() == sends@.len()
                    + receives@.len()
        },
{
    let mut rows: Vec<PermutationRow> = Vec::new();
    let mut phi = Ext::zero();
    let mut r: usize = 0;
    while r < height
        invariant
            r <= height,
            traces_match(prep, main, height as int),
            interactions_within(sends@, prep.width as int, main.width as int),
            interactions_within(receives@, prep.width as int, main.width as int),
            rows@.len() == r,
            forall|i: int| 0 <= i < r ==> #[trigger] serve_at(
                sends@,
                receives@,
                trace_point(prep, main, i, height as int),
                alpha@,
                beta@,
            ),
            phi@ == net(
                trace_terms(sends@, receives@, prep, main, height as int, r as nat),
                weight(alpha@, beta@),
            ),
            forall|i: int|
                0 <= i < r ==> (#[trigger] rows@[i]).phi@ == net(
                    trace_terms(sends@, receives@, prep, main, height as int, (i + 1) as nat),
                    weight(alpha@, beta@),
                ),
            forall|i: int|
                0 <= i < r ==> (#[trigger] rows@[i]).reciprocals@.len() == sends@.len()
                    + receives@.len(),
        decreases height - r,
    {
        let pt = point_at(prep, main, r, height);
        let ghost before = trace_terms(sends@, receives@, prep, main, height as int, r as nat);
        let row = match permutation_row(sends, receives, &pt, alpha, beta, phi, Ghost(before)) {
            Some(row) => row,
            None => {
                proof {
                    assert(!serve_at(
                        sends@,
                        receives@,
                        trace_point(prep, main, r as int, height as int),
                        alpha@,
                        beta@,
                    ));
                }
                return None;
            },
        };
        phi = row.phi;
        rows.push(row);
        r = r + 1;
    }
    Some(PermutationTrace { rows, cumulative_sum: phi })
}

} // verus!
