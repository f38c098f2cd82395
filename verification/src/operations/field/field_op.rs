//! One operation in the base field of a curve.
//!
//! The operands, the result and the carry are numbers of thirty-two
//! limbs. That `a * b = result + carry * modulus` holds between the numbers
//! is shown between the polynomials of their limbs: the difference of the
//! two sides vanishes at the base of the limbs, so it is a multiple of `x -
//! 256`, and the quotient is the witness.

use crate::air::{felts_view, lemma_concat_assoc, lemma_felts_view_push};
use crate::field::{fadd, fmul, fsub, Felt, P};
use crate::operations::field::params::{FieldKind, NUM_LIMBS, NUM_WITNESS_LIMBS};
use crate::utils::bigint::{
    biguint_add, biguint_div, biguint_modpow, biguint_mul, biguint_rem, biguint_sub, bytes32_of,
    le_nat, lemma_bytes32_of, lemma_limbs_of, limbs_of, pow256, to_fixed, to_limbs, to_vec,
};
use vstd::arithmetic::power::pow;
use vstd::prelude::*;

verus! {

/// The number of columns of `FieldOpCols`.
pub const NUM_FIELD_OP_COLS: usize = 188;

/// The operations of a field.
#[derive(Clone, Copy, Debug, PartialEq, Eq, Structural)]
pub enum FieldOperation {
    Add,
    Mul,
    Sub,
    Div,
}

/// A set of columns to compute `FieldOperation(a, b)` where a, b are field
/// elements.
#[derive(Debug, Clone, Copy)]
pub struct FieldOpCols<T> {
    /// The result of `a op b`, where a, b are field elements.
    pub result: [T; 32],
    pub carry: [T; 32],
    pub witness_low: [T; 62],
    pub witness_high: [T; 62],
}

/// The sum over the first `n` limbs of `a` of the products with the limbs
/// of `b` that meet them at place `k`.
pub open spec fn conv(a: Seq<u8>, b: Seq<u8>, k: int, n: nat) -> int
    decreases n,
{
    if n == 0 {
        0
    } else {
        conv(a, b, k, (n - 1) as nat) + (if 0 <= k - (n - 1) < 32 {
            a[n - 1] as int * b[k - (n - 1)] as int
        } else {
            0
        })
    }
}

/// Coefficient `k` of the polynomial of the operation: of the product of
/// the two polynomials, or of their sum.
pub open spec fn op_coeff(is_mul: bool, a: Seq<u8>, b: Seq<u8>, k: int) -> int {
    if is_mul {
        conv(a, b, k, 32)
    } else if k < 32 {
        a[k] as int + b[k] as int
    } else {
        0
    }
}

/// Coefficient `k` of what is taken away: the result, and the product of
/// carry and modulus.
pub open spec fn taken_coeff(r: Seq<u8>, c: Seq<u8>, m: Seq<u8>, k: int) -> int {
    (if k < 32 {
        r[k] as int
    } else {
        0
    }) + conv(c, m, k, 32)
}

/// Coefficient `k` of the polynomial that vanishes at the base of the
/// limbs, in the base field of the machine.
pub open spec fn vanishing(
    is_mul: bool,
    a: Seq<u8>,
    b: Seq<u8>,
    r: Seq<u8>,
    c: Seq<u8>,
    m: Seq<u8>,
    k: int,
) -> int {
    fsub(op_coeff(is_mul, a, b, k), taken_coeff(r, c, m, k))
}

/// Coefficient `k` of the quotient of the polynomial `v` by `x - 256`, in
/// the base field of the machine.
pub open spec fn quotient(v: Seq<int>, k: int) -> int
    decreases 62 - k,
{
    if k >= 61 {
        v[62]
    } else {
        fadd(v[k + 1], fmul(256, quotient(v, k + 1)))
    }
}

/// The limbs that an operation of a field works on and gives.
pub struct OpLimbs {
    pub a: Seq<u8>,
    pub b: Seq<u8>,
    pub result: Seq<u8>,
    pub carry: Seq<u8>,
}

/// The polynomial that vanishes at the base of the limbs.
pub open spec fn vanishing_poly(is_mul: bool, l: OpLimbs, m: Seq<u8>) -> Seq<int> {
    Seq::new(63, |k: int| vanishing(is_mul, l.a, l.b, l.result, l.carry, m, k))
}

/// Limb `k` of the witness, moved up by the offset of the field.
pub open spec fn shifted_witness(is_mul: bool, l: OpLimbs, kind: FieldKind, k: int) -> int {
    fadd(quotient(vanishing_poly(is_mul, l, kind.modulus_limbs()), k), kind.offset())
}

/// The columns of the witness: the low bytes of its limbs, then the high
/// bytes.
pub open spec fn witness_cols(is_mul: bool, l: OpLimbs, kind: FieldKind) -> Seq<int> {
    Seq::new(62, |k: int| shifted_witness(is_mul, l, kind, k) % 256) + Seq::new(
        62,
        |k: int| (shifted_witness(is_mul, l, kind, k) / 256) % 256,
    )
}

/// The limbs of a number, as integers.
pub open spec fn ints(l: Seq<u8>) -> Seq<int> {
    Seq::new(l.len(), |i: int| l[i] as int)
}

/// The result of the sum or the product of `a` and `b` in the field, and
/// its carry: the multiple of the modulus that was taken away.
pub open spec fn inner_limbs(is_mul: bool, a: Seq<u8>, b: Seq<u8>, kind: FieldKind) -> OpLimbs {
    let full = if is_mul {
        le_nat(a) * le_nat(b)
    } else {
        le_nat(a) + le_nat(b)
    };
    OpLimbs {
        a,
        b,
        result: bytes32_of(full % kind.modulus()),
        carry: bytes32_of((full / kind.modulus()) % pow256(32)),
    }
}

/// The sum of the products of the limbs that meet at place `k`.
fn conv_at(a: &[u8; 32], b: &[u8; 32], k: usize) -> (r: u32)
    requires
        k < 63,
    ensures
        r == conv(a@, b@, k as int, 32),
        r <= 32 * 65025,
{
    let mut acc: u32 = 0;
    let mut i: usize = 0;
    while i < 32
        invariant
            i <= 32,
            k < 63,
            acc == conv(a@, b@, k as int, i as nat),
            acc <= i * 65025,
        decreases 32 - i,
    {
        if i <= k && k - i < 32 {
            assert((a[i as int] as int) * (b[k - i] as int) <= 65025) by (nonlinear_arith)
                requires
                    0 <= a[i as int] <= 255,
                    0 <= b[k - i] <= 255,
            ;
            acc = acc + (a[i] as u32) * (b[k - i] as u32);
        }
        i = i + 1;
    }
    acc
}

/// The coefficients of the polynomial that vanishes at the base of the
/// limbs.
fn vanishing_coefficients(
    is_mul: bool,
    a: &[u8; 32],
    b: &[u8; 32],
    r: &[u8; 32],
    c: &[u8; 32],
    m: &[u8; 32],
) -> (v: Vec<Felt>)
    ensures
        v@.len() == 63,
        felts_view(v@) == vanishing_poly(
            is_mul,
            OpLimbs { a: a@, b: b@, result: r@, carry: c@ },
            m@,
        ),
{
    let mut v: Vec<Felt> = Vec::new();
    let mut k: usize = 0;
    while k < 63
        invariant
            k <= 63,
            v@.len() == k,
            forall|j: int|
                0 <= j < k ==> (#[trigger] v@[j])@ == vanishing(is_mul, a@, b@, r@, c@, m@, j),
        decreases 63 - k,
    {
        let pos: u32 = if is_mul {
            conv_at(a, b, k)
        } else if k < 32 {
            (a[k] as u32) + (b[k] as u32)
        } else {
            0
        };
        let neg: u32 = (if k < 32 {
            r[k] as u32
        } else {
            0
        }) + conv_at(c, m, k);
        v.push(Felt::from_canonical_u32(pos).sub(Felt::from_canonical_u32(neg)));
        k = k + 1;
    }
    assert(felts_view(v@) =~= vanishing_poly(
        is_mul,
        OpLimbs { a: a@, b: b@, result: r@, carry: c@ },
        m@,
    ));
    v
}

/// The limbs of the quotient of a polynomial by `x - 256`, each moved up
/// by `offset`.
fn shifted_quotient(v: &Vec<Felt>, offset: u32) -> (w: Vec<Felt>)
    requires
        v@.len() == 63,
        offset < P,
    ensures
        w@.len() == 62,
        forall|k: int|
            0 <= k < 62 ==> (#[trigger] w@[k])@ == fadd(quotient(felts_view(v@), k), offset as int),
{
    let base = Felt::from_canonical_u32(256);
    let shift = Felt::from_canonical_u32(offset);
    let mut q: Vec<Felt> = Vec::new();
    let mut i: usize = 0;
    while i < 62
        invariant
            i <= 62,
            q@.len() == i,
        decreases 62 - i,
    {
        q.push(Felt::zero());
        i = i + 1;
    }
    let mut k: usize = 62;
    while k > 0
        invariant
            k <= 62,
            v@.len() == 63,
            q@.len() == 62,
            base@ == 256,
            forall|j: int| k <= j < 62 ==> (#[trigger] q@[j])@ == quotient(felts_view(v@), j),
        decreases k,
    {
        k = k - 1;
        if k == 61 {
            q[k] = v[62];
        } else {
            let next = q[k + 1];
            q[k] = v[k + 1].add(base.mul(next));
        }
    }
    let mut w: Vec<Felt> = Vec::new();
    let mut i: usize = 0;
    while i < 62
        invariant
            i <= 62,
            q@.len() == 62,
            w@.len() == i,
            shift@ == offset,
            forall|j: int| 0 <= j < 62 ==> (#[trigger] q@[j])@ == quotient(felts_view(v@), j),
            forall|j: int|
                0 <= j < i ==> (#[trigger] w@[j])@ == fadd(
                    quotient(felts_view(v@), j),
                    offset as int,
                ),
        decreases 62 - i,
    {
        w.push(q[i].add(shift));
        i = i + 1;
    }
    w
}

/// Appends the limbs of a number to a row.
pub fn push_limbs(row: &mut Vec<Felt>, l: &[u8; 32])
    ensures
        felts_view(final(row)@) == felts_view(old(row)@) + ints(l@),
{
    let mut i: usize = 0;
    while i < 32
        invariant
            i <= 32,
            felts_view(row@) == felts_view(old(row)@) + ints(l@).subrange(0, i as int),
        decreases 32 - i,
    {
        let ghost before = row@;
        let f = Felt::from_canonical_u8(l[i]);
        row.push(f);
        i = i + 1;
        proof {
            lemma_felts_view_push(before, f);
            assert(felts_view(row@) =~= felts_view(old(row)@) + ints(l@).subrange(0, i as int));
        }
    }
    assert(ints(l@).subrange(0, 32) =~= ints(l@));
}

/// Appends the low bytes of the limbs of the witness, then the high bytes.
fn push_witness(row: &mut Vec<Felt>, w: &Vec<Felt>)
    requires
        w@.len() == 62,
    ensures
        felts_view(final(row)@) == felts_view(old(row)@) + Seq::new(
            62,
            |k: int| w@[k]@ % 256,
        ) + Seq::new(62, |k: int| (w@[k]@ / 256) % 256),
{
    let ghost r0 = felts_view(row@);
    let ghost low = Seq::new(62, |k: int| w@[k]@ % 256);
    let ghost high = Seq::new(62, |k: int| (w@[k]@ / 256) % 256);
    let mut i: usize = 0;
    while i < 62
        invariant
            i <= 62,
            w@.len() == 62,
            low == Seq::new(62, |k: int| w@[k]@ % 256),
            felts_view(row@) == r0 + low.subrange(0, i as int),
        decreases 62 - i,
    {
        let ghost before = row@;
        let x = w[i].as_canonical_u32();
        let f = Felt::from_canonical_u32(x % 256);
        row.push(f);
        i = i + 1;
        proof {
            lemma_felts_view_push(before, f);
            assert(felts_view(row@) =~= r0 + low.subrange(0, i as int));
        }
    }
    assert(low.subrange(0, 62) =~= low);
    let ghost r1 = felts_view(row@);
    let mut i: usize = 0;
    while i < 62
        invariant
            i <= 62,
            w@.len() == 62,
            high == Seq::new(62, |k: int| (w@[k]@ / 256) % 256),
            felts_view(row@) == r1 + high.subrange(0, i as int),
        decreases 62 - i,
    {
        let ghost before = row@;
        let x = w[i].as_canonical_u32();
        let f = Felt::from_canonical_u32((x / 256) % 256);
        row.push(f);
        i = i + 1;
        proof {
            lemma_felts_view_push(before, f);
            assert(felts_view(row@) =~= r1 + high.subrange(0, i as int));
        }
    }
    assert(high.subrange(0, 62) =~= high);
}

/// The columns of an operation but its result: the carry and the witness.
pub open spec fn carry_and_witness_cols(is_mul: bool, l: OpLimbs, kind: FieldKind) -> Seq<int> {
    ints(l.carry) + witness_cols(is_mul, l, kind)
}

/// Computes the result and the carry of the sum or the product of `a` and
/// `b` in the field, and appends the carry and the witness to the row.
pub fn populate_carry_and_witness(
    row: &mut Vec<Felt>,
    a: &[u8; 32],
    b: &[u8; 32],
    is_mul: bool,
    kind: FieldKind,
) -> (result: [u8; 32])
    ensures
        result@ == inner_limbs(is_mul, a@, b@, kind).result,
        le_nat(result@) == (if is_mul {
            le_nat(a@) * le_nat(b@)
        } else {
            le_nat(a@) + le_nat(b@)
        }) % kind.modulus(),
        felts_view(final(row)@) == felts_view(old(row)@) + carry_and_witness_cols(
            is_mul,
            inner_limbs(is_mul, a@, b@, kind),
            kind,
        ),
        final(row)@.len() == old(row)@.len() + 156,
{
    proof {
        kind.lemma_modulus_positive();
    }
    let m = kind.modulus_bytes();
    let modulus = to_vec(&m);
    let av = to_vec(a);
    let bv = to_vec(b);
    let full = if is_mul {
        biguint_mul(&av, &bv)
    } else {
        biguint_add(&av, &bv)
    };
    let reduced = biguint_rem(&full, &modulus);
    proof {
        crate::utils::bigint::lemma_le_nat_bound(m@);
    }
    let result = to_fixed(&reduced);
    let carry_number = biguint_div(&full, &modulus);
    let carry = to_limbs(&carry_number);
    proof {
        lemma_bytes32_of(result@);
        lemma_limbs_of(carry_number@);
    }
    let ghost l = inner_limbs(is_mul, a@, b@, kind);
    assert(l == (OpLimbs { a: a@, b: b@, result: result@, carry: carry@ }));
    let v = vanishing_coefficients(is_mul, a, b, &result, &carry, &m);
    let w = shifted_quotient(&v, kind.witness_offset());
    let ghost r0 = felts_view(row@);
    push_limbs(row, &carry);
    push_witness(row, &w);
    proof {
        let low = Seq::new(62, |k: int| w@[k]@ % 256);
        let high = Seq::new(62, |k: int| (w@[k]@ / 256) % 256);
        assert(low + high =~= witness_cols(is_mul, l, kind));
        lemma_concat_assoc(r0 + ints(carry@), low, high);
        lemma_concat_assoc(r0, ints(carry@), low + high);
        assert(felts_view(row@).len() == row@.len());
        assert(felts_view(old(row)@).len() == old(row)@.len());
        assert((ints(carry@) + (low + high)).len() == 156);
    }
    result
}

/// The result of an operation of the field on two numbers. The quotient
/// by zero is zero.
pub open spec fn op_result(op: FieldOperation, a: nat, b: nat, kind: FieldKind) -> nat {
    let m = kind.modulus();
    match op {
        FieldOperation::Add => (a + b) % m,
        FieldOperation::Mul => (a * b) % m,
        FieldOperation::Sub => ((a + m - b % m) as nat) % m,
        FieldOperation::Div => (a * ((pow(b as int, (m - 2) as nat) % (m as int)) as nat)) % m,
    }
}

/// The columns of an operation of the field: the limbs of the result,
/// then the carry and the witness of the sum or the product that shows the
/// result right. A difference is shown right by adding the subtrahend to
/// it, a quotient by multiplying it with the divisor.
pub open spec fn field_op_cols(op: FieldOperation, a: Seq<u8>, b: Seq<u8>, kind: FieldKind) -> Seq<
    int,
> {
    let result = bytes32_of(op_result(op, le_nat(a), le_nat(b), kind));
    match op {
        FieldOperation::Add => ints(result) + carry_and_witness_cols(
            false,
            inner_limbs(false, a, b, kind),
            kind,
        ),
        FieldOperation::Mul => ints(result) + carry_and_witness_cols(
            true,
            inner_limbs(true, a, b, kind),
            kind,
        ),
        FieldOperation::Sub => ints(result) + carry_and_witness_cols(
            false,
            inner_limbs(false, result, b, kind),
            kind,
        ),
        FieldOperation::Div => ints(result) + carry_and_witness_cols(
            true,
            inner_limbs(true, result, b, kind),
            kind,
        ),
    }
}

impl FieldOpCols<Felt> {
    /// Appends the columns of `a op b` to the row and gives the limbs of
    /// the result.
    pub fn populate(
        row: &mut Vec<Felt>,
        a: &[u8; 32],
        b: &[u8; 32],
        op: FieldOperation,
        kind: FieldKind,
    ) -> (result: [u8; 32])
        ensures
            le_nat(result@) == op_result(op, le_nat(a@), le_nat(b@), kind),
            felts_view(final(row)@) == felts_view(old(row)@) + field_op_cols(op, a@, b@, kind),
            final(row)@.len() == old(row)@.len() + NUM_FIELD_OP_COLS,
    {
        proof {
            kind.lemma_modulus_positive();
            crate::utils::bigint::lemma_le_nat_bound(kind.modulus_limbs());
        }
        let ghost r0 = felts_view(row@);
        assert(r0.len() == row@.len());
        let m = kind.modulus_bytes();
        let modulus = to_vec(&m);
        match op {
            FieldOperation::Add | FieldOperation::Mul => {
                let is_mul = op == FieldOperation::Mul;
                let mut rest: Vec<Felt> = Vec::new();
                let result = populate_carry_and_witness(&mut rest, a, b, is_mul, kind);
                push_limbs(row, &result);
                assert(felts_view(row@).len() == row@.len() && ints(result@).len() == 32);
                append_all(row, &rest);
                proof {
                    lemma_bytes32_of(result@);
                    assert(felts_view(rest@) =~= carry_and_witness_cols(
                        is_mul,
                        inner_limbs(is_mul, a@, b@, kind),
                        kind,
                    ));
                }
                result
            },
            FieldOperation::Sub => {
                let b_reduced = biguint_rem(&to_vec(b), &modulus);
                let lifted = biguint_add(&to_vec(a), &modulus);
                let difference = biguint_rem(&biguint_sub(&lifted, &b_reduced), &modulus);
                let result = to_fixed(&difference);
                push_limbs(row, &result);
                let mut rest: Vec<Felt> = Vec::new();
                let _ = populate_carry_and_witness(&mut rest, &result, b, false, kind);
                assert(felts_view(row@).len() == row@.len() && ints(result@).len() == 32);
                append_all(row, &rest);
                proof {
                    lemma_bytes32_of(result@);
                    assert(felts_view(rest@) =~= carry_and_witness_cols(
                        false,
                        inner_limbs(false, result@, b@, kind),
                        kind,
                    ));
                }
                result
            },
            FieldOperation::Div => {
                let two: Vec<u8> = vec![2u8];
                proof {
                    reveal_with_fuel(le_nat, 3);
                    assert(two@.drop_first() =~= Seq::<u8>::empty());
                    assert(le_nat(two@) == 2);
                    crate::utils::bigint::lemma_high_byte_bound(kind.modulus_limbs(), 31);
                    crate::utils::bigint::lemma_pow256_monotone(1, 31);
                    assert(crate::utils::bigint::pow256(1) == 256) by {
                        reveal_with_fuel(crate::utils::bigint::pow256, 3);
                    }
                }
                let exponent = biguint_sub(&modulus, &two);
                let inverse = biguint_modpow(&to_vec(b), &exponent, &modulus);
                let quotient = biguint_rem(&biguint_mul(&to_vec(a), &inverse), &modulus);
                let result = to_fixed(&quotient);
                push_limbs(row, &result);
                let mut rest: Vec<Felt> = Vec::new();
                let _ = populate_carry_and_witness(&mut rest, &result, b, true, kind);
                assert(felts_view(row@).len() == row@.len() && ints(result@).len() == 32);
                append_all(row, &rest);
                proof {
                    lemma_bytes32_of(result@);
                    assert(felts_view(rest@) =~= carry_and_witness_cols(
                        true,
                        inner_limbs(true, result@, b@, kind),
                        kind,
                    ));
                }
                result
            },
        }
    }
}

/// Appends the elements of `more` to a row.
pub fn append_all(row: &mut Vec<Felt>, more: &Vec<Felt>)
    ensures
        felts_view(final(row)@) == felts_view(old(row)@) + felts_view(more@),
        final(row)@ == old(row)@ + more@,
{
    let mut i: usize = 0;
    while i < more.len()
        invariant
            i <= more@.len(),
            row@ == old(row)@ + more@.subrange(0, i as int),
        decreases more@.len() - i,
    {
        row.push(more[i]);
        i = i + 1;
        assert(row@ =~= old(row)@ + more@.subrange(0, i as int));
    }
    assert(more@.subrange(0, more@.len() as int) =~= more@);
    assert(felts_view(row@) =~= felts_view(old(row)@) + felts_view(more@));
}

} // verus!
