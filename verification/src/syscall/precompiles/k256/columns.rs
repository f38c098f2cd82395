//! The columns of the decompression of a point of secp256k1, and what
//! they declare: from `x`, the chain of operations of the field that ends
//! in a root `y` of `x^3 + 7`, and that the `y` written to memory is the
//! root or its negative as the parity asks.

use crate::air::{
    e_add, e_mul, e_sub, guarded_equalities, lemma_concat_assoc, s_add, s_bool, s_col, s_const,
    s_mul, s_sub, AirBuilder, Expr, InteractionSpec,
};
use crate::memory::air::{
    access_col_map, access_col_map_spec, read_as_access, read_layout, read_layout_spec, read_map,
    slice_constraints, slice_receives, slice_sends,
};
use crate::memory::columns::{MemoryReadCols, MemoryReadWriteCols};
use crate::operations::field::field_air::{
    constant_limbs, field_op_constraints, field_op_layout, field_op_layout_spec, limb_cols,
    limb_columns, limb_consts,
};
use crate::operations::field::field_op::{FieldOpCols, FieldOperation};
use crate::operations::field::field_sqrt::{sqrt_constraints, FieldSqrtCols};
use crate::operations::field::params::FieldKind;
use crate::syscall::precompiles::edwards::columns::{constant_poly, constant_polynomial};
use vstd::prelude::*;

verus! {

/// The number of columns of `K256DecompressCols`.
pub const NUM_K256_DECOMPRESS_COLS: usize = 1128;

/// The limbs of the constant `b = 7` of the curve.
pub const B_LIMBS: [u8; 32] = [
    7, 0, 0, 0, 0, 0, 0, 0, 0, 0, 0, 0, 0, 0, 0, 0, 0, 0, 0, 0, 0, 0, 0, 0, 0, 0, 0, 0, 0, 0, 0, 0,
];

/// A set of columns to compute `K256Decompress` given a pointer to a 16
/// word slice formatted as such: the first byte of the slice is the parity
/// wanted of `y`; the second half of the slice is `x`.
///
/// After `K256Decompress`, the first 32 bytes of the slice are overwritten
/// with the decompressed `y`.
#[derive(Debug, Clone)]
pub struct K256DecompressCols<T> {
    pub is_real: T,
    pub shard: T,
    pub clk: T,
    pub ptr: T,
    pub x_access: [MemoryReadCols<T>; 8],
    pub y_access: [MemoryReadWriteCols<T>; 8],
    pub x_2: FieldOpCols<T>,
    pub x_3: FieldOpCols<T>,
    pub x_3_plus_b: FieldOpCols<T>,
    pub y: FieldSqrtCols<T>,
    pub neg_y: FieldOpCols<T>,
    pub y_least_bits: [T; 8],
}

/// The number that the first `n` bits stand for, the least significant
/// first.
pub open spec fn bits_sum(bits: [usize; 8], n: nat) -> Expr
    decreases n,
{
    if n == 0 {
        s_const(0)
    } else if n == 1 {
        s_mul(s_col(bits[0]), s_const(1))
    } else {
        s_add(
            bits_sum(bits, (n - 1) as nat),
            s_mul(s_col(bits[n - 1]), s_const(vstd::arithmetic::power2::pow2((n - 1) as nat) as u32)),
        )
    }
}

impl K256DecompressCols<usize> {
    /// Where the columns stand in a row.
    pub open spec fn layout_spec() -> Self {
        K256DecompressCols {
            is_real: 0,
            shard: 1,
            clk: 2,
            ptr: 3,
            x_access: [
                read_layout_spec(4),
                read_layout_spec(13),
                read_layout_spec(22),
                read_layout_spec(31),
                read_layout_spec(40),
                read_layout_spec(49),
                read_layout_spec(58),
                read_layout_spec(67),
            ],
            y_access: [
                access_col_map_spec(76),
                access_col_map_spec(89),
                access_col_map_spec(102),
                access_col_map_spec(115),
                access_col_map_spec(128),
                access_col_map_spec(141),
                access_col_map_spec(154),
                access_col_map_spec(167),
            ],
            x_2: field_op_layout_spec(180),
            x_3: field_op_layout_spec(368),
            x_3_plus_b: field_op_layout_spec(556),
            y: FieldSqrtCols { multiplication: field_op_layout_spec(744) },
            neg_y: field_op_layout_spec(932),
            y_least_bits: [1120, 1121, 1122, 1123, 1124, 1125, 1126, 1127],
        }
    }

    /// Where the columns stand in a row.
    pub fn layout() -> (r: Self)
        ensures
            r == Self::layout_spec(),
    {
        K256DecompressCols {
            is_real: 0,
            shard: 1,
            clk: 2,
            ptr: 3,
            x_access: [
                read_layout(4),
                read_layout(13),
                read_layout(22),
                read_layout(31),
                read_layout(40),
                read_layout(49),
                read_layout(58),
                read_layout(67),
            ],
            y_access: [
                access_col_map(76),
                access_col_map(89),
                access_col_map(102),
                access_col_map(115),
                access_col_map(128),
                access_col_map(141),
                access_col_map(154),
                access_col_map(167),
            ],
            x_2: field_op_layout(180),
            x_3: field_op_layout(368),
            x_3_plus_b: field_op_layout(556),
            y: FieldSqrtCols { multiplication: field_op_layout(744) },
            neg_y: field_op_layout(932),
            y_least_bits: [1120, 1121, 1122, 1123, 1124, 1125, 1126, 1127],
        }
    }

    /// The columns of the accesses to `x`.
    pub open spec fn x_maps(self) -> Seq<MemoryReadWriteCols<usize>> {
        Seq::new(8, |i: int| read_map(self.x_access[i]))
    }

    /// The columns of the accesses to `y`.
    pub open spec fn y_maps(self) -> Seq<MemoryReadWriteCols<usize>> {
        Seq::new(8, |i: int| self.y_access[i])
    }

    /// The limbs of the `x` read from memory.
    pub open spec fn x_limbs(self) -> Seq<Expr> {
        Seq::new(32, |i: int| s_col(self.x_access[i / 4].access.value.0[i % 4]))
    }

    /// The limbs of the `y` written to memory.
    pub open spec fn y_limbs(self) -> Seq<Expr> {
        Seq::new(32, |i: int| s_col(self.y_access[i / 4].access.value.0[i % 4]))
    }

    /// The parity wanted of `y`: the first byte of what the slice held.
    pub open spec fn should_be_odd(self) -> Expr {
        s_col(self.y_access[0].prev_value.0[0])
    }

    /// That `y` is a root of `x^3 + 7`, and that the columns of `neg_y`
    /// hold its negative.
    pub open spec fn field_constraints(self) -> Seq<Expr> {
        let k = FieldKind::Secp256k1;
        field_op_constraints(self.x_limbs(), self.x_limbs(), self.x_2, FieldOperation::Mul, k)
            + field_op_constraints(
            limb_cols(self.x_2.result),
            self.x_limbs(),
            self.x_3,
            FieldOperation::Mul,
            k,
        ) + field_op_constraints(
            limb_cols(self.x_3.result),
            limb_consts(B_LIMBS@),
            self.x_3_plus_b,
            FieldOperation::Add,
            k,
        ) + sqrt_constraints(limb_cols(self.x_3_plus_b.result), self.y, k) + field_op_constraints(
            constant_poly(0),
            limb_cols(self.y.multiplication.result),
            self.neg_y,
            FieldOperation::Sub,
            k,
        )
    }

    /// That, on the rows that are real, the eight columns of the bits are
    /// bits and stand for the least byte of the root.
    pub open spec fn bit_constraints(self) -> Seq<Expr> {
        Seq::new(8, |i: int| s_mul(s_col(self.is_real), s_bool(s_col(self.y_least_bits[i]))))
            + seq![
            s_mul(
                s_col(self.is_real),
                s_sub(bits_sum(self.y_least_bits, 8), s_col(self.y.multiplication.result[0])),
            ),
        ]
    }

    /// That the `y` written is the root where its parity is the one
    /// wanted, and the negative of the root where it is not.
    pub open spec fn choice_constraints(self) -> Seq<Expr> {
        let y_is_odd = s_col(self.y_least_bits[0]);
        guarded_equalities(
            s_col(self.is_real),
            s_sub(y_is_odd, s_sub(s_const(1), self.should_be_odd())),
            limb_cols(self.y.multiplication.result),
            self.y_limbs(),
        ) + guarded_equalities(
            s_col(self.is_real),
            s_sub(y_is_odd, self.should_be_odd()),
            limb_cols(self.neg_y.result),
            self.y_limbs(),
        )
    }

    /// The constraints of the accesses: `x` is read from the second half
    /// of the slice, `y` is written to the first.
    pub open spec fn memory_constraints(self) -> Seq<Expr> {
        slice_constraints(self.shard, self.clk, self.x_maps(), self.is_real, 8)
            + slice_constraints(self.shard, self.clk, self.y_maps(), self.is_real, 8)
    }

    /// Everything that the columns declare to be zero.
    pub open spec fn constraints(self) -> Seq<Expr> {
        seq![s_bool(self.should_be_odd())] + self.field_constraints() + self.bit_constraints()
            + self.choice_constraints() + self.memory_constraints()
    }

    /// What a row sends: for every access, the range checks of the
    /// difference of the times and what the address held before.
    pub open spec fn sends(self) -> Seq<InteractionSpec> {
        slice_sends(self.x_maps(), self.ptr, 32, self.is_real, 8) + slice_sends(
            self.y_maps(),
            self.ptr,
            0,
            self.is_real,
            8,
        )
    }

    /// What a row receives: for every access, what the address holds after
    /// it.
    pub open spec fn receives(self) -> Seq<InteractionSpec> {
        slice_receives(self.shard, self.clk, self.x_maps(), self.ptr, 32, self.is_real, 8)
            + slice_receives(self.shard, self.clk, self.y_maps(), self.ptr, 0, self.is_real, 8)
    }

    fn x_access_maps(&self) -> (r: Vec<MemoryReadWriteCols<usize>>)
        ensures
            r@ == self.x_maps(),
    {
        let mut r: Vec<MemoryReadWriteCols<usize>> = Vec::new();
        let mut i: usize = 0;
        while i < 8
            invariant
                i <= 8,
                r@ == self.x_maps().subrange(0, i as int),
            decreases 8 - i,
        {
            r.push(read_as_access(&self.x_access[i]));
            i = i + 1;
            assert(r@ =~= self.x_maps().subrange(0, i as int));
        }
        assert(self.x_maps().subrange(0, 8) =~= self.x_maps());
        r
    }

    fn y_access_maps(&self) -> (r: Vec<MemoryReadWriteCols<usize>>)
        ensures
            r@ == self.y_maps(),
    {
        let mut r: Vec<MemoryReadWriteCols<usize>> = Vec::new();
        let mut i: usize = 0;
        while i < 8
            invariant
                i <= 8,
                r@ == self.y_maps().subrange(0, i as int),
            decreases 8 - i,
        {
            r.push(self.y_access[i]);
            i = i + 1;
            assert(r@ =~= self.y_maps().subrange(0, i as int));
        }
        assert(self.y_maps().subrange(0, 8) =~= self.y_maps());
        r
    }

    fn limbs_of_x(&self) -> (r: Vec<Expr>)
        ensures
            r@ == self.x_limbs(),
    {
        let mut r: Vec<Expr> = Vec::new();
        let mut i: usize = 0;
        while i < 32
            invariant
                i <= 32,
                r@ == self.x_limbs().subrange(0, i as int),
            decreases 32 - i,
        {
            r.push(Expr::Local(self.x_access[i / 4].access.value.0[i % 4]));
            i = i + 1;
            assert(r@ =~= self.x_limbs().subrange(0, i as int));
        }
        assert(self.x_limbs().subrange(0, 32) =~= self.x_limbs());
        r
    }

    fn limbs_of_y(&self) -> (r: Vec<Expr>)
        ensures
            r@ == self.y_limbs(),
    {
        let mut r: Vec<Expr> = Vec::new();
        let mut i: usize = 0;
        while i < 32
            invariant
                i <= 32,
                r@ == self.y_limbs().subrange(0, i as int),
            decreases 32 - i,
        {
            r.push(Expr::Local(self.y_access[i / 4].access.value.0[i % 4]));
            i = i + 1;
            assert(r@ =~= self.y_limbs().subrange(0, i as int));
        }
        assert(self.y_limbs().subrange(0, 32) =~= self.y_limbs());
        r
    }

    fn eval_field_ops(&self, builder: &mut AirBuilder)
        ensures
            final(builder).constraints@ == old(builder).constraints@ + self.field_constraints(),
            final(builder).sends == old(builder).sends,
            final(builder).receives == old(builder).receives,
    {
        let k = FieldKind::Secp256k1;
        let ghost c0 = builder.constraints@;
        let x = self.limbs_of_x();
        let zero = constant_polynomial(0);
        let b_const = constant_limbs(&B_LIMBS);
        let x_2 = limb_columns(&self.x_2.result);
        let x_3 = limb_columns(&self.x_3.result);
        let x_3_plus_b = limb_columns(&self.x_3_plus_b.result);
        let y = limb_columns(&self.y.multiplication.result);
        builder.eval_field_op(&x, &x, &self.x_2, FieldOperation::Mul, k);
        let ghost mut acc = field_op_constraints(x@, x@, self.x_2, FieldOperation::Mul, k);
        builder.eval_field_op(&x_2, &x, &self.x_3, FieldOperation::Mul, k);
        proof {
            let piece = field_op_constraints(x_2@, x@, self.x_3, FieldOperation::Mul, k);
            lemma_concat_assoc(c0, acc, piece);
            acc = acc + piece;
        }
        builder.eval_field_op(&x_3, &b_const, &self.x_3_plus_b, FieldOperation::Add, k);
        proof {
            let piece = field_op_constraints(
                x_3@,
                b_const@,
                self.x_3_plus_b,
                FieldOperation::Add,
                k,
            );
            lemma_concat_assoc(c0, acc, piece);
            acc = acc + piece;
        }
        self.y.eval(builder, &x_3_plus_b, k);
        proof {
            let piece = sqrt_constraints(x_3_plus_b@, self.y, k);
            lemma_concat_assoc(c0, acc, piece);
            acc = acc + piece;
        }
        builder.eval_field_op(&zero, &y, &self.neg_y, FieldOperation::Sub, k);
        proof {
            let piece = field_op_constraints(zero@, y@, self.neg_y, FieldOperation::Sub, k);
            lemma_concat_assoc(c0, acc, piece);
            acc = acc + piece;
            assert(acc == self.field_constraints());
        }
    }

    fn recomputed_byte(&self) -> (r: Expr)
        ensures
            r == bits_sum(self.y_least_bits, 8),
    {
        proof {
            vstd::arithmetic::power2::lemma2_to64();
            reveal_with_fuel(bits_sum, 9);
        }
        let b = &self.y_least_bits;
        let mut r = e_mul(Expr::Local(b[0]), Expr::Const(1));
        r = e_add(r, e_mul(Expr::Local(b[1]), Expr::Const(2)));
        r = e_add(r, e_mul(Expr::Local(b[2]), Expr::Const(4)));
        r = e_add(r, e_mul(Expr::Local(b[3]), Expr::Const(8)));
        r = e_add(r, e_mul(Expr::Local(b[4]), Expr::Const(16)));
        r = e_add(r, e_mul(Expr::Local(b[5]), Expr::Const(32)));
        r = e_add(r, e_mul(Expr::Local(b[6]), Expr::Const(64)));
        r = e_add(r, e_mul(Expr::Local(b[7]), Expr::Const(128)));
        r
    }

    fn eval_bits(&self, builder: &mut AirBuilder)
        ensures
            final(builder).constraints@ == old(builder).constraints@ + self.bit_constraints(),
            final(builder).sends == old(builder).sends,
            final(builder).receives == old(builder).receives,
    {
        let ghost c0 = builder.constraints@;
        let ghost bools = Seq::new(
            8,
            |i: int| s_mul(s_col(self.is_real), s_bool(s_col(self.y_least_bits[i]))),
        );
        let mut i: usize = 0;
        while i < 8
            invariant
                i <= 8,
                bools == Seq::new(
                    8,
                    |i: int| s_mul(s_col(self.is_real), s_bool(s_col(self.y_least_bits[i]))),
                ),
                builder.constraints@ == c0 + bools.subrange(0, i as int),
                builder.sends == old(builder).sends,
                builder.receives == old(builder).receives,
            decreases 8 - i,
        {
            let bit = self.y_least_bits[i];
            builder.assert_zero(
                e_mul(
                    Expr::Local(self.is_real),
                    e_mul(Expr::Local(bit), e_sub(Expr::Local(bit), Expr::Const(1))),
                ),
            );
            i = i + 1;
            assert(builder.constraints@ =~= c0 + bools.subrange(0, i as int));
        }
        assert(bools.subrange(0, 8) =~= bools);
        let recomputed = self.recomputed_byte();
        let y_least_byte = Expr::Local(self.y.multiplication.result[0]);
        builder.assert_zero(e_mul(Expr::Local(self.is_real), e_sub(recomputed, y_least_byte)));
        assert(builder.constraints@ =~= c0 + self.bit_constraints());
    }

    fn eval_choice(&self, builder: &mut AirBuilder)
        ensures
            final(builder).constraints@ == old(builder).constraints@ + self.choice_constraints(),
            final(builder).sends == old(builder).sends,
            final(builder).receives == old(builder).receives,
    {
        let ghost c0 = builder.constraints@;
        let y_limbs = self.limbs_of_y();
        let neg_y = limb_columns(&self.neg_y.result);
        let y = limb_columns(&self.y.multiplication.result);
        let is_real = Expr::Local(self.is_real);
        let should_be_odd = self.y_access[0].prev_value.0[0];
        let y_is_odd = self.y_least_bits[0];
        let same = e_sub(
            Expr::Local(y_is_odd),
            e_sub(Expr::Const(1), Expr::Local(should_be_odd)),
        );
        let other = e_sub(Expr::Local(y_is_odd), Expr::Local(should_be_odd));
        builder.assert_all_eq_when(&is_real, &same, &y, &y_limbs);
        builder.assert_all_eq_when(&is_real, &other, &neg_y, &y_limbs);
        proof {
            lemma_concat_assoc(
                c0,
                guarded_equalities(is_real, same, y@, y_limbs@),
                guarded_equalities(is_real, other, neg_y@, y_limbs@),
            );
        }
    }

    fn eval_memory(&self, builder: &mut AirBuilder)
        ensures
            final(builder).constraints@ == old(builder).constraints@ + self.memory_constraints(),
            final(builder).sends_view() == old(builder).sends_view() + self.sends(),
            final(builder).receives_view() == old(builder).receives_view() + self.receives(),
    {
        let xs = self.x_access_maps();
        let ys = self.y_access_maps();
        builder.constraint_memory_access_slice(
            self.shard,
            self.clk,
            self.ptr,
            32,
            &xs,
            self.is_real,
        );
        builder.constraint_memory_access_slice(self.shard, self.clk, self.ptr, 0, &ys, self.is_real);
        proof {
            lemma_concat_assoc(
                old(builder).constraints@,
                slice_constraints(self.shard, self.clk, xs@, self.is_real, 8),
                slice_constraints(self.shard, self.clk, ys@, self.is_real, 8),
            );
            lemma_concat_assoc(
                old(builder).sends_view(),
                slice_sends(xs@, self.ptr, 32, self.is_real, 8),
                slice_sends(ys@, self.ptr, 0, self.is_real, 8),
            );
            lemma_concat_assoc(
                old(builder).receives_view(),
                slice_receives(self.shard, self.clk, xs@, self.ptr, 32, self.is_real, 8),
                slice_receives(self.shard, self.clk, ys@, self.ptr, 0, self.is_real, 8),
            );
        }
    }

    /// Declares what the columns of a decompression hold: the parity
    /// wanted is a bit; the operations of the field lead from `x` to the
    /// root; the bits are those of the least byte of the root; the `y`
    /// written is the root or its negative, as the parity asks; and the
    /// accesses to memory are in order.
    pub fn eval(&self, builder: &mut AirBuilder)
        ensures
            final(builder).constraints@ == old(builder).constraints@ + self.constraints(),
            final(builder).sends_view() == old(builder).sends_view() + self.sends(),
            final(builder).receives_view() == old(builder).receives_view() + self.receives(),
    {
        let ghost c0 = builder.constraints@;
        builder.assert_bool(self.y_access[0].prev_value.0[0]);
        let ghost mut acc = seq![s_bool(self.should_be_odd())];
        assert(builder.constraints@ =~= c0 + acc);
        self.eval_field_ops(builder);
        proof {
            lemma_concat_assoc(c0, acc, self.field_constraints());
            acc = acc + self.field_constraints();
        }
        self.eval_bits(builder);
        proof {
            lemma_concat_assoc(c0, acc, self.bit_constraints());
            acc = acc + self.bit_constraints();
        }
        self.eval_choice(builder);
        proof {
            lemma_concat_assoc(c0, acc, self.choice_constraints());
            acc = acc + self.choice_constraints();
        }
        self.eval_memory(builder);
        proof {
            lemma_concat_assoc(c0, acc, self.memory_constraints());
        }
    }
}

} // verus!
