//! The algebra of the interaction bus.
//!
//! Every chip sends tuples to a bus and receives tuples from it, each with
//! a multiplicity. The tables are consistent when, for every tuple, what
//! is sent and what is received cancel. The argument does not compare
//! multisets; it sums, over all sends and receives, the multiplicity times
//! the reciprocal of the fingerprint of the tuple, and asks for zero. This
//! file proves the half of the argument that does not rest on chance: a
//! bus whose tuples cancel has the sum zero, whatever the challenge.

use crate::extension::{q_add, q_zero, Quartic};
use crate::field::{fadd, P};
use vstd::arithmetic::div_mod::{lemma_add_mod_noop, lemma_mul_mod_noop_general};
use vstd::arithmetic::mul::lemma_mul_is_distributive_add_other_way;
use vstd::prelude::*;

verus! {

/// One tuple on a bus, with the multiplicity it is sent with; a tuple that
/// is received has the negative of its multiplicity. The first entry of the
/// tuple names the bus.
pub struct Term {
    pub key: Seq<int>,
    pub mult: int,
}

/// The element `q`, `m` times.
pub open spec fn scale(m: int, q: Quartic) -> Quartic {
    let p = P as int;
    Quartic { c0: (m * q.c0) % p, c1: (m * q.c1) % p, c2: (m * q.c2) % p, c3: (m * q.c3) % p }
}

/// The sum over all terms of the multiplicity times the weight of the
/// tuple. In the argument the weight of a tuple is the reciprocal of its
/// fingerprint.
pub open spec fn net(terms: Seq<Term>, w: spec_fn(Seq<int>) -> Quartic) -> Quartic
    decreases terms.len(),
{
    if terms.len() == 0 {
        q_zero()
    } else {
        q_add(net(terms.drop_last(), w), scale(terms.last().mult, w(terms.last().key)))
    }
}

/// The sum of the multiplicities of the tuple `key` over all terms.
pub open spec fn total(terms: Seq<Term>, key: Seq<int>) -> int
    decreases terms.len(),
{
    if terms.len() == 0 {
        0
    } else {
        total(terms.drop_last(), key) + (if terms.last().key == key {
            terms.last().mult
        } else {
            0
        })
    }
}

/// For every tuple, what is sent and what is received cancel in the field.
pub open spec fn balanced(terms: Seq<Term>) -> bool {
    forall|key: Seq<int>| #[trigger] total(terms, key) % (P as int) == 0
}

/// The terms but those of the tuple `key`.
pub open spec fn without(terms: Seq<Term>, key: Seq<int>) -> Seq<Term>
    decreases terms.len(),
{
    if terms.len() == 0 {
        Seq::empty()
    } else if terms.last().key == key {
        without(terms.drop_last(), key)
    } else {
        without(terms.drop_last(), key).push(terms.last())
    }
}

/// All coefficients are canonical residues.
pub open spec fn reduced(q: Quartic) -> bool {
    &&& 0 <= q.c0 < P
    &&& 0 <= q.c1 < P
    &&& 0 <= q.c2 < P
    &&& 0 <= q.c3 < P
}

proof fn lemma_scale_adds(m1: int, m2: int, q: Quartic)
    ensures
        scale(m1 + m2, q) == q_add(scale(m1, q), scale(m2, q)),
        reduced(scale(m1, q)),
{
    let p = P as int;
    lemma_mul_is_distributive_add_other_way(q.c0, m1, m2);
    lemma_mul_is_distributive_add_other_way(q.c1, m1, m2);
    lemma_mul_is_distributive_add_other_way(q.c2, m1, m2);
    lemma_mul_is_distributive_add_other_way(q.c3, m1, m2);
    lemma_add_mod_noop(m1 * q.c0, m2 * q.c0, p);
    lemma_add_mod_noop(m1 * q.c1, m2 * q.c1, p);
    lemma_add_mod_noop(m1 * q.c2, m2 * q.c2, p);
    lemma_add_mod_noop(m1 * q.c3, m2 * q.c3, p);
}

proof fn lemma_scale_of_multiple(m: int, q: Quartic)
    requires
        m % (P as int) == 0,
    ensures
        scale(m, q) == q_zero(),
{
    let p = P as int;
    lemma_mul_mod_noop_general(m, q.c0, p);
    lemma_mul_mod_noop_general(m, q.c1, p);
    lemma_mul_mod_noop_general(m, q.c2, p);
    lemma_mul_mod_noop_general(m, q.c3, p);
    assert(0 * q.c0 == 0);
    assert(0 * q.c1 == 0);
    assert(0 * q.c2 == 0);
    assert(0 * q.c3 == 0);
}

proof fn lemma_fadd_assoc(a: int, b: int, c: int)
    ensures
        fadd(fadd(a, b), c) == (a + b + c) % (P as int),
        fadd(a, fadd(b, c)) == (a + b + c) % (P as int),
{
    let p = P as int;
    vstd::arithmetic::div_mod::lemma_add_mod_noop_right(c, a + b, p);
    vstd::arithmetic::div_mod::lemma_add_mod_noop_right(a, b + c, p);
    assert(c + (a + b) % p == (a + b) % p + c);
    assert(c + (a + b) == a + b + c);
    assert(a + (b + c) == a + b + c);
}

proof fn lemma_fadd_regroup(a: int, b: int, c: int)
    ensures
        fadd(fadd(a, b), c) == fadd(a, fadd(b, c)),
        fadd(fadd(a, b), c) == fadd(fadd(a, c), b),
        fadd(a, b) == fadd(b, a),
        0 <= fadd(a, b) < P,
        0 <= a < P ==> fadd(0, a) == a,
{
    lemma_fadd_assoc(a, b, c);
    lemma_fadd_assoc(a, c, b);
    assert(a + b + c == a + c + b);
    assert(a + b == b + a);
}

proof fn lemma_add_regroup(a: Quartic, b: Quartic, c: Quartic)
    ensures
        q_add(q_add(a, b), c) == q_add(a, q_add(b, c)),
        q_add(q_add(a, b), c) == q_add(q_add(a, c), b),
        q_add(a, b) == q_add(b, a),
        reduced(q_add(a, b)),
        reduced(a) ==> q_add(q_zero(), a) == a,
{
    lemma_fadd_regroup(a.c0, b.c0, c.c0);
    lemma_fadd_regroup(a.c1, b.c1, c.c1);
    lemma_fadd_regroup(a.c2, b.c2, c.c2);
    lemma_fadd_regroup(a.c3, b.c3, c.c3);
}

proof fn lemma_net_reduced(terms: Seq<Term>, w: spec_fn(Seq<int>) -> Quartic)
    ensures
        reduced(net(terms, w)),
    decreases terms.len(),
{
    if terms.len() > 0 {
        lemma_add_regroup(
            net(terms.drop_last(), w),
            scale(terms.last().mult, w(terms.last().key)),
            q_zero(),
        );
    }
}

/// The sum splits by a tuple: the total multiplicity of the tuple times
/// its weight, and the sum of the other terms.
pub proof fn lemma_net_splits(terms: Seq<Term>, w: spec_fn(Seq<int>) -> Quartic, key: Seq<int>)
    ensures
        net(terms, w) == q_add(scale(total(terms, key), w(key)), net(without(terms, key), w)),
    decreases terms.len(),
{
    if terms.len() == 0 {
        lemma_scale_of_multiple(0, w(key));
        lemma_add_regroup(q_zero(), q_zero(), q_zero());
    } else {
        let rest = terms.drop_last();
        let last = terms.last();
        lemma_net_splits(rest, w, key);
        let head = scale(total(rest, key), w(key));
        let tail = net(without(rest, key), w);
        let s = scale(last.mult, w(last.key));
        if last.key == key {
            lemma_scale_adds(total(rest, key), last.mult, w(key));
            lemma_add_regroup(head, tail, s);
        } else {
            let kept = without(rest, key).push(last);
            assert(kept.drop_last() =~= without(rest, key));
            assert(kept.last() == last);
            lemma_add_regroup(head, tail, s);
        }
    }
}

/// Without a tuple, the total of that tuple is nothing and the totals of
/// the others are as before; and there are no more terms than before.
pub proof fn lemma_without_totals(terms: Seq<Term>, key: Seq<int>, other: Seq<int>)
    ensures
        total(without(terms, key), other) == (if other == key {
            0
        } else {
            total(terms, other)
        }),
        without(terms, key).len() <= terms.len(),
        terms.len() > 0 && terms.last().key == key ==> without(terms, key).len() < terms.len(),
    decreases terms.len(),
{
    if terms.len() > 0 {
        lemma_without_totals(terms.drop_last(), key, other);
        if terms.last().key != key {
            let kept = without(terms.drop_last(), key).push(terms.last());
            assert(kept.drop_last() =~= without(terms.drop_last(), key));
            assert(kept.last() == terms.last());
        }
    }
}

/// Bus balance: where for every tuple the multiplicities sent and
/// received cancel, the sum of the argument is zero, whatever the weights.
pub proof fn lemma_balanced_bus_sums_to_zero(terms: Seq<Term>, w: spec_fn(Seq<int>) -> Quartic)
    requires
        balanced(terms),
    ensures
        net(terms, w) == q_zero(),
    decreases terms.len(),
{
    if terms.len() > 0 {
        let key = terms.last().key;
        let rest = without(terms, key);
        lemma_net_splits(terms, w, key);
        assert(total(terms, key) % (P as int) == 0);
        lemma_scale_of_multiple(total(terms, key), w(key));
        assert forall|other: Seq<int>| #[trigger] total(rest, other) % (P as int) == 0 by {
            lemma_without_totals(terms, key, other);
            assert(total(terms, other) % (P as int) == 0);
        }
        lemma_without_totals(terms, key, key);
        lemma_balanced_bus_sums_to_zero(rest, w);
        lemma_add_regroup(q_zero(), q_zero(), q_zero());
    }
}

/// The sum over two sequences of terms, one after the other, is the sum of
/// the sums.
pub proof fn lemma_net_concat(a: Seq<Term>, b: Seq<Term>, w: spec_fn(Seq<int>) -> Quartic)
    ensures
        net(a + b, w) == q_add(net(a, w), net(b, w)),
    decreases b.len(),
{
    if b.len() == 0 {
        assert(a + b =~= a);
        lemma_net_reduced(a, w);
        lemma_add_regroup(q_zero(), net(a, w), q_zero());
    } else {
        assert((a + b).drop_last() =~= a + b.drop_last());
        assert((a + b).last() == b.last());
        lemma_net_concat(a, b.drop_last(), w);
        lemma_add_regroup(
            net(a, w),
            net(b.drop_last(), w),
            scale(b.last().mult, w(b.last().key)),
        );
    }
}

} // verus!
