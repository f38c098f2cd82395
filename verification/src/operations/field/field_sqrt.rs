//! The square root of a field element of a curve: the columns hold the
//! root, and the carry and the witness of the product of the root with
//! itself, which is the element.

use crate::air::{felts_view, lemma_concat_assoc, AirBuilder, Expr};
use crate::field::Felt;
use crate::operations::field::field_air::{field_op_constraints, limb_cols, limb_columns};
use crate::operations::field::field_op::{
    carry_and_witness_cols, inner_limbs, ints, populate_carry_and_witness, push_limbs,
    FieldOpCols, FieldOperation,
};
use crate::operations::field::params::FieldKind;
use crate::utils::bigint::{le_nat, lemma_le_nat_injective};
use vstd::prelude::*;

verus! {

/// The number of columns of `FieldSqrtCols`.
pub const NUM_FIELD_SQRT_COLS: usize = 188;

/// A set of columns to compute the square root in the field. The columns
/// of the result of the multiplication hold the root, not the square: the
/// square is the element that the root was asked of, which stands in the
/// row already.
#[derive(Debug, Clone, Copy)]
pub struct FieldSqrtCols<T> {
    pub multiplication: FieldOpCols<T>,
}

/// Whether `root` times itself is `a` in the field.
pub open spec fn is_root(root: nat, a: nat, kind: FieldKind) -> bool {
    (root * root) % kind.modulus() == a
}

/// The columns of a root: its limbs, then the carry and the witness of
/// its square.
pub open spec fn sqrt_cols(root: Seq<u8>, kind: FieldKind) -> Seq<int> {
    ints(root) + carry_and_witness_cols(true, inner_limbs(true, root, root, kind), kind)
}

/// What the columns of a root declare of the element `a`: that the
/// product of the columns of the root with themselves is `a`.
pub open spec fn sqrt_constraints(a: Seq<Expr>, cols: FieldSqrtCols<usize>, kind: FieldKind) -> Seq<
    Expr,
> {
    field_op_constraints(
        a,
        limb_cols(cols.multiplication.result),
        cols.multiplication,
        FieldOperation::Div,
        kind,
    )
}

/// Whether two numbers of thirty-two limbs are the same.
pub fn same_limbs(a: &[u8; 32], b: &[u8; 32]) -> (r: bool)
    ensures
        r == (le_nat(a@) == le_nat(b@)),
        r == (a@ == b@),
{
    let mut i: usize = 0;
    while i < 32
        invariant
            i <= 32,
            forall|k: int| 0 <= k < i ==> a@[k] == b@[k],
        decreases 32 - i,
    {
        if a[i] != b[i] {
            proof {
                if le_nat(a@) == le_nat(b@) {
                    lemma_le_nat_injective(a@, b@);
                }
            }
            return false;
        }
        i = i + 1;
    }
    assert(a@ =~= b@);
    true
}

impl FieldSqrtCols<Felt> {
    /// Appends the columns of the root `root` of `a` to the row, and says
    /// whether it is a root of `a`.
    pub fn populate(row: &mut Vec<Felt>, a: &[u8; 32], root: &[u8; 32], kind: FieldKind) -> (ok:
        bool)
        ensures
            ok == is_root(le_nat(root@), le_nat(a@), kind),
            felts_view(final(row)@) == felts_view(old(row)@) + sqrt_cols(root@, kind),
            final(row)@.len() == old(row)@.len() + NUM_FIELD_SQRT_COLS,
    {
        let ghost r0 = felts_view(row@);
        assert(r0.len() == row@.len());
        push_limbs(row, root);
        assert(felts_view(row@).len() == row@.len() && ints(root@).len() == 32);
        let square = populate_carry_and_witness(row, root, root, true, kind);
        proof {
            lemma_concat_assoc(
                r0,
                ints(root@),
                carry_and_witness_cols(true, inner_limbs(true, root@, root@, kind), kind),
            );
        }
        same_limbs(&square, a)
    }
}

impl FieldSqrtCols<usize> {
    /// Declares that the columns hold a root of the element `a`.
    pub fn eval(&self, builder: &mut AirBuilder, a: &Vec<Expr>, kind: FieldKind)
        ensures
            final(builder).constraints@ == old(builder).constraints@ + sqrt_constraints(
                a@,
                *self,
                kind,
            ),
            final(builder).sends == old(builder).sends,
            final(builder).receives == old(builder).receives,
    {
        let root = limb_columns(&self.multiplication.result);
        builder.eval_field_op(a, &root, &self.multiplication, FieldOperation::Div, kind);
    }
}

} // verus!
