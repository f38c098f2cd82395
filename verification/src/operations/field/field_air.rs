//! What an operation of a field declares: for every coefficient of the
//! polynomial that vanishes at the base of the limbs, that it is the
//! coefficient of the witness times `x - 256`.

use crate::air::{
    e_add, e_mul, e_sub, s_add, s_col, s_const, s_mul, s_sub, AirBuilder, Expr,
};
use crate::operations::field::field_op::{FieldOpCols, FieldOperation};
use crate::operations::field::params::FieldKind;
use vstd::prelude::*;

verus! {

/// Coefficient `k` of a polynomial; zero beyond its degree.
pub open spec fn poly_at(p: Seq<Expr>, k: int) -> Expr {
    if 0 <= k < p.len() {
        p[k]
    } else {
        s_const(0)
    }
}

/// The sum over the first `n` coefficients of `a` of the products with
/// the coefficients of `b` that meet them at place `k`.
pub open spec fn conv_expr(a: Seq<Expr>, b: Seq<Expr>, k: int, n: nat) -> Expr
    decreases n,
{
    if n == 0 {
        s_const(0)
    } else {
        s_add(conv_expr(a, b, k, (n - 1) as nat), s_mul(poly_at(a, n - 1), poly_at(b, k - (n - 1))))
    }
}

/// Thirty-two columns as a polynomial.
pub open spec fn limb_cols(cols: [usize; 32]) -> Seq<Expr> {
    Seq::new(32, |i: int| s_col(cols[i]))
}

/// Constant limbs as a polynomial.
pub open spec fn limb_consts(limbs: Seq<u8>) -> Seq<Expr> {
    Seq::new(limbs.len(), |i: int| s_const(limbs[i] as u32))
}

/// The limbs of the modulus of a field, as a polynomial.
pub open spec fn modulus_poly(kind: FieldKind) -> Seq<Expr> {
    Seq::new(32, |i: int| s_const(kind.modulus_limbs()[i] as u32))
}

/// Limb `j` of the witness of an operation: the low byte and the high
/// byte, less the offset of the field.
pub open spec fn witness_expr(cols: FieldOpCols<usize>, kind: FieldKind, j: int) -> Expr {
    if 0 <= j < 62 {
        s_sub(
            s_add(s_col(cols.witness_low[j]), s_mul(s_col(cols.witness_high[j]), s_const(256))),
            s_const(kind.offset() as u32),
        )
    } else {
        s_const(0)
    }
}

/// Whether the operation multiplies the polynomials; otherwise it adds
/// them.
pub open spec fn multiplies(op: FieldOperation) -> bool {
    op == FieldOperation::Mul || op == FieldOperation::Div
}

/// Whether the columns of the result hold the first operand, and the
/// operand given is what comes out: so it is for the difference and the
/// quotient, which are shown right backwards.
pub open spec fn backwards(op: FieldOperation) -> bool {
    op == FieldOperation::Sub || op == FieldOperation::Div
}

/// Constraint `k` of the operation `a op b` with the columns `cols`.
pub open spec fn field_op_constraint(
    a: Seq<Expr>,
    b: Seq<Expr>,
    cols: FieldOpCols<usize>,
    op: FieldOperation,
    kind: FieldKind,
    k: int,
) -> Expr {
    let result = limb_cols(cols.result);
    let carry = limb_cols(cols.carry);
    let p_a = if backwards(op) {
        result
    } else {
        a
    };
    let p_result = if backwards(op) {
        a
    } else {
        result
    };
    let p_op = if multiplies(op) {
        conv_expr(p_a, b, k, 32)
    } else {
        s_add(poly_at(p_a, k), poly_at(b, k))
    };
    s_sub(
        s_sub(s_sub(p_op, poly_at(p_result, k)), conv_expr(carry, modulus_poly(kind), k, 32)),
        s_sub(witness_expr(cols, kind, k - 1), s_mul(witness_expr(cols, kind, k), s_const(256))),
    )
}

/// The constraints of the operation `a op b` with the columns `cols`.
pub open spec fn field_op_constraints(
    a: Seq<Expr>,
    b: Seq<Expr>,
    cols: FieldOpCols<usize>,
    op: FieldOperation,
    kind: FieldKind,
) -> Seq<Expr> {
    Seq::new(63, |k: int| field_op_constraint(a, b, cols, op, kind, k))
}

/// Where the columns of an operation stand in a row, the first of them at
/// `at`.
pub open spec fn field_op_layout_spec(at: usize) -> FieldOpCols<usize> {
    FieldOpCols {
        result: run_from_spec32(at),
        carry: run_from_spec32((at + 32) as usize),
        witness_low: run_from_spec62((at + 64) as usize),
        witness_high: run_from_spec62((at + 126) as usize),
    }
}

/// The thirty-two numbers from `at` on.
pub closed spec fn run_from_spec32(at: usize) -> [usize; 32] {
    choose|a: [usize; 32]| is_run32(a, at)
}

/// Whether an array holds the thirty-two numbers from `at` on.
pub open spec fn is_run32(a: [usize; 32], at: usize) -> bool {
    forall|i: int| 0 <= i < 32 ==> #[trigger] a[i] == (at + i) as usize
}

/// The sixty-two numbers from `at` on.
pub closed spec fn run_from_spec62(at: usize) -> [usize; 62] {
    choose|a: [usize; 62]| is_run62(a, at)
}

/// Whether an array holds the sixty-two numbers from `at` on.
pub open spec fn is_run62(a: [usize; 62], at: usize) -> bool {
    forall|i: int| 0 <= i < 62 ==> #[trigger] a[i] == (at + i) as usize
}

/// The thirty-two numbers from `at` on.
pub fn run_from32(at: usize) -> (r: [usize; 32])
    requires
        at + 32 <= usize::MAX,
    ensures
        r == run_from_spec32(at),
        forall|i: int| 0 <= i < 32 ==> r[i] == (at + i) as usize,
{
    let mut r: [usize; 32] = [0usize; 32];
    let mut i: usize = 0;
    while i < 32
        invariant
            i <= 32,
            at + 32 <= usize::MAX,
            forall|j: int| 0 <= j < i ==> r[j] == (at + j) as usize,
        decreases 32 - i,
    {
        r.set(i, at + i);
        i = i + 1;
    }
    proof {
        let c = run_from_spec32(at);
        assert(is_run32(r, at));
        assert(is_run32(c, at));
        assert(r =~= c);
    }
    r
}

/// The sixty-two numbers from `at` on.
pub fn run_from62(at: usize) -> (r: [usize; 62])
    requires
        at + 62 <= usize::MAX,
    ensures
        r == run_from_spec62(at),
        forall|i: int| 0 <= i < 62 ==> r[i] == (at + i) as usize,
{
    let mut r: [usize; 62] = [0usize; 62];
    let mut i: usize = 0;
    while i < 62
        invariant
            i <= 62,
            at + 62 <= usize::MAX,
            forall|j: int| 0 <= j < i ==> r[j] == (at + j) as usize,
        decreases 62 - i,
    {
        r.set(i, at + i);
        i = i + 1;
    }
    proof {
        let c = run_from_spec62(at);
        assert(is_run62(r, at));
        assert(is_run62(c, at));
        assert(r =~= c);
    }
    r
}

/// Where the columns of an operation stand in a row, the first of them at
/// `at`.
pub fn field_op_layout(at: usize) -> (r: FieldOpCols<usize>)
    requires
        at + 188 <= usize::MAX,
    ensures
        r == field_op_layout_spec(at),
        forall|i: int| 0 <= i < 32 ==> r.result[i] == (at + i) as usize,
        forall|i: int| 0 <= i < 32 ==> r.carry[i] == (at + 32 + i) as usize,
        forall|i: int| 0 <= i < 62 ==> r.witness_low[i] == (at + 64 + i) as usize,
        forall|i: int| 0 <= i < 62 ==> r.witness_high[i] == (at + 126 + i) as usize,
{
    FieldOpCols {
        result: run_from32(at),
        carry: run_from32(at + 32),
        witness_low: run_from62(at + 64),
        witness_high: run_from62(at + 126),
    }
}

/// Thirty-two columns as a polynomial.
pub fn limb_columns(cols: &[usize; 32]) -> (r: Vec<Expr>)
    ensures
        r@ == limb_cols(*cols),
{
    let mut r: Vec<Expr> = Vec::new();
    let mut i: usize = 0;
    while i < 32
        invariant
            i <= 32,
            r@ == limb_cols(*cols).subrange(0, i as int),
        decreases 32 - i,
    {
        r.push(Expr::Local(cols[i]));
        i = i + 1;
        assert(r@ =~= limb_cols(*cols).subrange(0, i as int));
    }
    assert(limb_cols(*cols).subrange(0, 32) =~= limb_cols(*cols));
    r
}

/// Constant limbs as a polynomial.
pub fn constant_limbs(limbs: &[u8; 32]) -> (r: Vec<Expr>)
    ensures
        r@ == limb_consts(limbs@),
{
    let mut r: Vec<Expr> = Vec::new();
    let mut i: usize = 0;
    while i < 32
        invariant
            i <= 32,
            r@ == limb_consts(limbs@).subrange(0, i as int),
        decreases 32 - i,
    {
        r.push(Expr::Const(limbs[i] as u32));
        i = i + 1;
        assert(r@ =~= limb_consts(limbs@).subrange(0, i as int));
    }
    assert(limb_consts(limbs@).subrange(0, 32) =~= limb_consts(limbs@));
    r
}

/// The limbs of the modulus of a field, as a polynomial.
pub fn modulus_polynomial(kind: FieldKind) -> (r: Vec<Expr>)
    ensures
        r@ == modulus_poly(kind),
{
    let m = kind.modulus_bytes();
    let mut r: Vec<Expr> = Vec::new();
    let mut i: usize = 0;
    while i < 32
        invariant
            i <= 32,
            m@ == kind.modulus_limbs(),
            r@ == modulus_poly(kind).subrange(0, i as int),
        decreases 32 - i,
    {
        r.push(Expr::Const(m[i] as u32));
        i = i + 1;
        assert(r@ =~= modulus_poly(kind).subrange(0, i as int));
    }
    assert(modulus_poly(kind).subrange(0, 32) =~= modulus_poly(kind));
    r
}

fn coefficient(p: &Vec<Expr>, k: usize) -> (r: Expr)
    ensures
        r == poly_at(p@, k as int),
{
    if k < p.len() {
        p[k].duplicate()
    } else {
        Expr::Const(0)
    }
}

fn convolution(a: &Vec<Expr>, b: &Vec<Expr>, k: usize) -> (r: Expr)
    ensures
        r == conv_expr(a@, b@, k as int, 32),
{
    let mut acc = Expr::Const(0);
    let mut i: usize = 0;
    while i < 32
        invariant
            i <= 32,
            acc == conv_expr(a@, b@, k as int, i as nat),
        decreases 32 - i,
    {
        let other = if i <= k {
            coefficient(b, k - i)
        } else {
            Expr::Const(0)
        };
        acc = e_add(acc, e_mul(coefficient(a, i), other));
        i = i + 1;
    }
    acc
}

fn witness_limb(cols: &FieldOpCols<usize>, kind: FieldKind, j: usize) -> (r: Expr)
    ensures
        r == witness_expr(*cols, kind, j as int),
{
    if j < 62 {
        e_sub(
            e_add(
                Expr::Local(cols.witness_low[j]),
                e_mul(Expr::Local(cols.witness_high[j]), Expr::Const(256)),
            ),
            Expr::Const(kind.witness_offset()),
        )
    } else {
        Expr::Const(0)
    }
}

impl AirBuilder {
    /// Declares the constraints of the operation `a op b` in the field
    /// `kind`, with the columns `cols`.
    pub fn eval_field_op(
        &mut self,
        a: &Vec<Expr>,
        b: &Vec<Expr>,
        cols: &FieldOpCols<usize>,
        op: FieldOperation,
        kind: FieldKind,
    )
        ensures
            final(self).constraints@ == old(self).constraints@ + field_op_constraints(
                a@,
                b@,
                *cols,
                op,
                kind,
            ),
            final(self).sends == old(self).sends,
            final(self).receives == old(self).receives,
    {
        let result = limb_columns(&cols.result);
        let carry = limb_columns(&cols.carry);
        let modulus = modulus_polynomial(kind);
        let is_backwards = match op {
            FieldOperation::Sub | FieldOperation::Div => true,
            _ => false,
        };
        let is_product = match op {
            FieldOperation::Mul | FieldOperation::Div => true,
            _ => false,
        };
        let mut k: usize = 0;
        while k < 63
            invariant
                k <= 63,
                result@ == limb_cols(cols.result),
                carry@ == limb_cols(cols.carry),
                modulus@ == modulus_poly(kind),
                is_backwards == backwards(op),
                is_product == multiplies(op),
                self.sends == old(self).sends,
                self.receives == old(self).receives,
                self.constraints@ == old(self).constraints@ + field_op_constraints(
                    a@,
                    b@,
                    *cols,
                    op,
                    kind,
                ).subrange(0, k as int),
            decreases 63 - k,
        {
            let p_op = if is_product {
                if is_backwards {
                    convolution(&result, b, k)
                } else {
                    convolution(a, b, k)
                }
            } else {
                if is_backwards {
                    e_add(coefficient(&result, k), coefficient(b, k))
                } else {
                    e_add(coefficient(a, k), coefficient(b, k))
                }
            };
            let p_result = if is_backwards {
                coefficient(a, k)
            } else {
                coefficient(&result, k)
            };
            let below = if k == 0 {
                Expr::Const(0)
            } else {
                witness_limb(cols, kind, k - 1)
            };
            let c = e_sub(
                e_sub(e_sub(p_op, p_result), convolution(&carry, &modulus, k)),
                e_sub(below, e_mul(witness_limb(cols, kind, k), Expr::Const(256))),
            );
            assert(c == field_op_constraint(a@, b@, *cols, op, kind, k as int));
            self.assert_zero(c);
            k = k + 1;
            assert(self.constraints@ =~= old(self).constraints@ + field_op_constraints(
                a@,
                b@,
                *cols,
                op,
                kind,
            ).subrange(0, k as int));
        }
        assert(field_op_constraints(a@, b@, *cols, op, kind).subrange(0, 63) =~= field_op_constraints(
            a@,
            b@,
            *cols,
            op,
            kind,
        ));
    }
}

} // verus!
