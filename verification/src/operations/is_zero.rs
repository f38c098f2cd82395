//! Whether a field element is zero, as a column: the witness is the
//! inverse of the element, where it has one.

use crate::air::{
    e_mul, e_sub, lemma_eval_leaf, lemma_eval_ops, s_col, s_const, s_mul, s_sub, AirBuilder, Expr,
    Point,
};
use crate::field::{fmul, fsub, is_inverse, Felt, P};
use vstd::prelude::*;

verus! {

/// The columns of the operation.
#[derive(Clone, Copy, Debug)]
pub struct IsZeroOperation<T> {
    /// The inverse of the input, or zero where the input is zero.
    pub inverse: T,
    /// One where the input is zero, zero otherwise.
    pub result: T,
}

/// The constraints of the operation on the input in column `a`, with the
/// witness in the columns `inverse` and `result`: the result is one less
/// the product of witness and input, and the product of result and input
/// vanishes.
pub open spec fn is_zero_constraints(a: usize, inverse: usize, result: usize) -> Seq<Expr> {
    seq![
        s_sub(s_sub(s_const(1), s_mul(s_col(inverse), s_col(a))), s_col(result)),
        s_mul(s_col(result), s_col(a)),
    ]
}

impl IsZeroOperation<Felt> {
    /// The witness for the input `a`.
    pub fn populate(a: Felt) -> (r: IsZeroOperation<Felt>)
        ensures
            r.result@ == (if a@ == 0 {
                1int
            } else {
                0int
            }),
            a@ == 0 ==> r.inverse@ == 0,
            a@ != 0 ==> is_inverse(a@, r.inverse@),
    {
        match a.try_inverse() {
            Some(inv) => IsZeroOperation { inverse: inv, result: Felt::zero() },
            None => IsZeroOperation { inverse: Felt::zero(), result: Felt::one() },
        }
    }
}

impl IsZeroOperation<usize> {
    /// Declares the constraints of the operation on the input in column
    /// `a`.
    pub fn eval(&self, builder: &mut AirBuilder, a: usize)
        ensures
            final(builder).constraints@ == old(builder).constraints@ + is_zero_constraints(
                a,
                self.inverse,
                self.result,
            ),
            final(builder).sends == old(builder).sends,
            final(builder).receives == old(builder).receives,
    {
        builder.assert_zero(
            e_sub(
                e_sub(Expr::Const(1), e_mul(Expr::Local(self.inverse), Expr::Local(a))),
                Expr::Local(self.result),
            ),
        );
        builder.assert_zero(e_mul(Expr::Local(self.result), Expr::Local(a)));
        assert(builder.constraints@ =~= old(builder).constraints@ + is_zero_constraints(
            a,
            self.inverse,
            self.result,
        ));
    }
}

/// The witness that `populate` gives satisfies the constraints.
pub proof fn lemma_witness_satisfies(
    pt: Point<int>,
    a: usize,
    inverse: usize,
    result: usize,
    i: int,
)
    requires
        0 <= pt.main_local[a as int] < P,
        pt.main_local[a as int] == 0 ==> pt.main_local[inverse as int] == 0
            && pt.main_local[result as int] == 1,
        pt.main_local[a as int] != 0 ==> is_inverse(
            pt.main_local[a as int],
            pt.main_local[inverse as int],
        ) && pt.main_local[result as int] == 0,
        0 <= i < 2,
    ensures
        is_zero_constraints(a, inverse, result)[i].eval_base(pt) == 0,
{
    let av = pt.main_local[a as int];
    let iv = pt.main_local[inverse as int];
    let rv = pt.main_local[result as int];
    lemma_eval_leaf(a, 1, pt);
    lemma_eval_leaf(inverse, 1, pt);
    lemma_eval_leaf(result, 1, pt);
    lemma_eval_ops(s_col(inverse), s_col(a), pt);
    lemma_eval_ops(s_const(1), s_mul(s_col(inverse), s_col(a)), pt);
    lemma_eval_ops(s_sub(s_const(1), s_mul(s_col(inverse), s_col(a))), s_col(result), pt);
    lemma_eval_ops(s_col(result), s_col(a), pt);
    if av == 0 {
        assert(iv * av == 0) by (nonlinear_arith)
            requires
                av == 0,
        ;
        assert(rv * av == 0) by (nonlinear_arith)
            requires
                av == 0,
        ;
    } else {
        assert(iv * av == av * iv) by (nonlinear_arith);
        assert(rv * av == 0) by (nonlinear_arith)
            requires
                rv == 0,
        ;
    }
}

} // verus!
