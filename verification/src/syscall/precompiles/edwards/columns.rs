//! The columns of the decompression of a point of ed25519, and what they
//! declare: from `y`, the chain of operations of the field that ends in
//! `x`, and that the `x` written to memory is the root or its negative as
//! the sign asks.

use crate::air::{
    guarded_equalities, lemma_concat_assoc, s_bool, s_col, s_const, s_sub, syscall_interaction,
    AirBuilder, Expr, InteractionSpec,
};
use crate::memory::air::{
    read_as_access, read_layout, read_layout_spec, read_map, slice_constraints, slice_receives,
    slice_sends, write_as_access, write_layout, write_layout_spec, write_map,
};
use crate::memory::columns::{MemoryReadCols, MemoryReadWriteCols, MemoryWriteCols};
use crate::operations::field::field_air::{
    constant_limbs, field_op_constraints, field_op_layout, field_op_layout_spec, limb_cols,
    limb_columns, limb_consts,
};
use crate::operations::field::field_op::{FieldOpCols, FieldOperation};
use crate::operations::field::field_sqrt::{sqrt_constraints, FieldSqrtCols};
use crate::operations::field::params::FieldKind;
use crate::syscall::SyscallCode;
use crate::utils::ec::edwards::ed25519::D_BYTES;
use vstd::prelude::*;

verus! {

/// The number of columns of `EdDecompressCols`.
pub const NUM_ED_DECOMPRESS_COLS: usize = 1497;

/// A set of columns to compute `EdDecompress` given a pointer to a 16 word
/// slice formatted as such: the 31st byte of the slice is the sign bit. The
/// second half of the slice is the 255-bit compressed Y (without sign bit).
///
/// After `EdDecompress`, the first 32 bytes of the slice are overwritten
/// with the decompressed X.
#[derive(Debug, Clone)]
pub struct EdDecompressCols<T> {
    pub is_real: T,
    pub shard: T,
    pub clk: T,
    pub ptr: T,
    pub sign: T,
    pub x_access: [MemoryWriteCols<T>; 8],
    pub y_access: [MemoryReadCols<T>; 8],
    pub yy: FieldOpCols<T>,
    pub u: FieldOpCols<T>,
    pub dyy: FieldOpCols<T>,
    pub v: FieldOpCols<T>,
    pub u_div_v: FieldOpCols<T>,
    pub x: FieldSqrtCols<T>,
    pub neg_x: FieldOpCols<T>,
}

/// The polynomial that is the constant `c`.
pub open spec fn constant_poly(c: u32) -> Seq<Expr> {
    seq![s_const(c)]
}

/// The polynomial that is the constant `c`.
pub fn constant_polynomial(c: u32) -> (r: Vec<Expr>)
    ensures
        r@ == constant_poly(c),
{
    let mut r: Vec<Expr> = Vec::new();
    r.push(Expr::Const(c));
    assert(r@ =~= constant_poly(c));
    r
}

impl EdDecompressCols<usize> {
    /// Where the columns stand in a row.
    pub open spec fn layout_spec() -> Self {
        EdDecompressCols {
            is_real: 0,
            shard: 1,
            clk: 2,
            ptr: 3,
            sign: 4,
            x_access: [
                write_layout_spec(5),
                write_layout_spec(18),
                write_layout_spec(31),
                write_layout_spec(44),
                write_layout_spec(57),
                write_layout_spec(70),
                write_layout_spec(83),
                write_layout_spec(96),
            ],
            y_access: [
                read_layout_spec(109),
                read_layout_spec(118),
                read_layout_spec(127),
                read_layout_spec(136),
                read_layout_spec(145),
                read_layout_spec(154),
                read_layout_spec(163),
                read_layout_spec(172),
            ],
            yy: field_op_layout_spec(181),
            u: field_op_layout_spec(369),
            dyy: field_op_layout_spec(557),
            v: field_op_layout_spec(745),
            u_div_v: field_op_layout_spec(933),
            x: FieldSqrtCols { multiplication: field_op_layout_spec(1121) },
            neg_x: field_op_layout_spec(1309),
        }
    }

    /// Where the columns stand in a row.
    pub fn layout() -> (r: Self)
        ensures
            r == Self::layout_spec(),
    {
        EdDecompressCols {
            is_real: 0,
            shard: 1,
            clk: 2,
            ptr: 3,
            sign: 4,
            x_access: [
                write_layout(5),
                write_layout(18),
                write_layout(31),
                write_layout(44),
                write_layout(57),
                write_layout(70),
                write_layout(83),
                write_layout(96),
            ],
            y_access: [
                read_layout(109),
                read_layout(118),
                read_layout(127),
                read_layout(136),
                read_layout(145),
                read_layout(154),
                read_layout(163),
                read_layout(172),
            ],
            yy: field_op_layout(181),
            u: field_op_layout(369),
            dyy: field_op_layout(557),
            v: field_op_layout(745),
            u_div_v: field_op_layout(933),
            x: FieldSqrtCols { multiplication: field_op_layout(1121) },
            neg_x: field_op_layout(1309),
        }
    }

    /// The columns of the accesses to `x`.
    pub open spec fn x_maps(self) -> Seq<MemoryReadWriteCols<usize>> {
        Seq::new(8, |i: int| write_map(self.x_access[i]))
    }

    /// The columns of the accesses to `y`.
    pub open spec fn y_maps(self) -> Seq<MemoryReadWriteCols<usize>> {
        Seq::new(8, |i: int| read_map(self.y_access[i]))
    }

    /// The limbs of the `x` written to memory.
    pub open spec fn x_limbs(self) -> Seq<Expr> {
        Seq::new(32, |i: int| s_col(self.x_access[i / 4].access.value.0[i % 4]))
    }

    /// The limbs of the `y` read from memory.
    pub open spec fn y_limbs(self) -> Seq<Expr> {
        Seq::new(32, |i: int| s_col(self.y_access[i / 4].access.value.0[i % 4]))
    }

    /// That `x` is a root of `(y^2 - 1) / (d y^2 + 1)`, and that
    /// the columns of `neg_x` hold its negative.
    pub open spec fn field_constraints(self) -> Seq<Expr> {
        let k = FieldKind::Ed25519;
        let one = constant_poly(1);
        let yy = limb_cols(self.yy.result);
        field_op_constraints(self.y_limbs(), self.y_limbs(), self.yy, FieldOperation::Mul, k)
            + field_op_constraints(yy, one, self.u, FieldOperation::Sub, k)
            + field_op_constraints(limb_consts(D_BYTES@), yy, self.dyy, FieldOperation::Mul, k)
            + field_op_constraints(
            one,
            limb_cols(self.dyy.result),
            self.v,
            FieldOperation::Add,
            k,
        ) + field_op_constraints(
            limb_cols(self.u.result),
            limb_cols(self.v.result),
            self.u_div_v,
            FieldOperation::Div,
            k,
        ) + sqrt_constraints(limb_cols(self.u_div_v.result), self.x, k) + field_op_constraints(
            constant_poly(0),
            limb_cols(self.x.multiplication.result),
            self.neg_x,
            FieldOperation::Sub,
            k,
        )
    }

    /// That the `x` written is the negative of the root where the sign is
    /// set, and the root where it is not.
    pub open spec fn choice_constraints(self) -> Seq<Expr> {
        guarded_equalities(
            s_col(self.is_real),
            s_col(self.sign),
            limb_cols(self.neg_x.result),
            self.x_limbs(),
        ) + guarded_equalities(
            s_col(self.is_real),
            s_sub(s_const(1), s_col(self.sign)),
            limb_cols(self.x.multiplication.result),
            self.x_limbs(),
        )
    }

    /// The constraints of the accesses: `x` is written to the first half
    /// of the slice, `y` is read from the second.
    pub open spec fn memory_constraints(self) -> Seq<Expr> {
        slice_constraints(self.shard, self.clk, self.x_maps(), self.is_real, 8)
            + slice_constraints(self.shard, self.clk, self.y_maps(), self.is_real, 8)
    }

    /// Everything that the columns declare to be zero.
    pub open spec fn constraints(self) -> Seq<Expr> {
        seq![s_bool(s_col(self.sign))] + self.field_constraints() + self.memory_constraints()
            + self.choice_constraints()
    }

    /// What a row sends: for every access, the range checks of the
    /// difference of the times and what the address held before.
    pub open spec fn sends(self) -> Seq<InteractionSpec> {
        slice_sends(self.x_maps(), self.ptr, 0, self.is_real, 8) + slice_sends(
            self.y_maps(),
            self.ptr,
            32,
            self.is_real,
            8,
        )
    }

    /// What a row receives: for every access, what the address holds after
    /// it; and the call itself.
    pub open spec fn receives(self) -> Seq<InteractionSpec> {
        slice_receives(self.shard, self.clk, self.x_maps(), self.ptr, 0, self.is_real, 8)
            + slice_receives(self.shard, self.clk, self.y_maps(), self.ptr, 32, self.is_real, 8)
            + seq![
            syscall_interaction(
                s_col(self.shard),
                s_col(self.clk),
                s_const(SyscallCode::ED_DECOMPRESS.id_spec()),
                s_col(self.ptr),
                s_col(self.sign),
                s_col(self.is_real),
            ),
        ]
    }

    fn x_access_maps(&self) -> (r: Vec<MemoryReadWriteCols<usize>>)
        ensures
            r@ == self.x_maps(),
    {
        let mut r: Vec<MemoryReadWriteCols<usize>> = Vec::new();
        let mut i: usize = 0;
        while i < 8
            invariant
                i <= 8,
                r@ == self.x_maps().subrange(0, i as int),
            decreases 8 - i,
        {
            r.push(write_as_access(&self.x_access[i]));
            i = i + 1;
            assert(r@ =~= self.x_maps().subrange(0, i as int));
        }
        assert(self.x_maps().subrange(0, 8) =~= self.x_maps());
        r
    }

    fn y_access_maps(&self) -> (r: Vec<MemoryReadWriteCols<usize>>)
        ensures
            r@ == self.y_maps(),
    {
        let mut r: Vec<MemoryReadWriteCols<usize>> = Vec::new();
        let mut i: usize = 0;
        while i < 8
            invariant
                i <= 8,
                r@ == self.y_maps().subrange(0, i as int),
            decreases 8 - i,
        {
            r.push(read_as_access(&self.y_access[i]));
            i = i + 1;
            assert(r@ =~= self.y_maps().subrange(0, i as int));
        }
        assert(self.y_maps().subrange(0, 8) =~= self.y_maps());
        r
    }

    fn limbs_of_x(&self) -> (r: Vec<Expr>)
        ensures
            r@ == self.x_limbs(),
    {
        let mut r: Vec<Expr> = Vec::new();
        let mut i: usize = 0;
        while i < 32
            invariant
                i <= 32,
                r@ == self.x_limbs().subrange(0, i as int),
            decreases 32 - i,
        {
            r.push(Expr::Local(self.x_access[i / 4].access.value.0[i % 4]));
            i = i + 1;
            assert(r@ =~= self.x_limbs().subrange(0, i as int));
        }
        assert(self.x_limbs().subrange(0, 32) =~= self.x_limbs());
        r
    }

    fn limbs_of_y(&self) -> (r: Vec<Expr>)
        ensures
            r@ == self.y_limbs(),
    {
        let mut r: Vec<Expr> = Vec::new();
        let mut i: usize = 0;
        while i < 32
            invariant
                i <= 32,
                r@ == self.y_limbs().subrange(0, i as int),
            decreases 32 - i,
        {
            r.push(Expr::Local(self.y_access[i / 4].access.value.0[i % 4]));
            i = i + 1;
            assert(r@ =~= self.y_limbs().subrange(0, i as int));
        }
        assert(self.y_limbs().subrange(0, 32) =~= self.y_limbs());
        r
    }

    fn eval_field_ops(&self, builder: &mut AirBuilder)
        ensures
            final(builder).constraints@ == old(builder).constraints@ + self.field_constraints(),
            final(builder).sends == old(builder).sends,
            final(builder).receives == old(builder).receives,
    {
        let k = FieldKind::Ed25519;
        let ghost c0 = builder.constraints@;
        let y = self.limbs_of_y();
        let one = constant_polynomial(1);
        let zero = constant_polynomial(0);
        let d_const = constant_limbs(&D_BYTES);
        let yy = limb_columns(&self.yy.result);
        let dyy = limb_columns(&self.dyy.result);
        let u = limb_columns(&self.u.result);
        let v = limb_columns(&self.v.result);
        let u_div_v = limb_columns(&self.u_div_v.result);
        let x = limb_columns(&self.x.multiplication.result);
        builder.eval_field_op(&y, &y, &self.yy, FieldOperation::Mul, k);
        let ghost mut acc = field_op_constraints(y@, y@, self.yy, FieldOperation::Mul, k);
        builder.eval_field_op(&yy, &one, &self.u, FieldOperation::Sub, k);
        proof {
            let piece = field_op_constraints(yy@, one@, self.u, FieldOperation::Sub, k);
            lemma_concat_assoc(c0, acc, piece);
            acc = acc + piece;
        }
        builder.eval_field_op(&d_const, &yy, &self.dyy, FieldOperation::Mul, k);
        proof {
            let piece = field_op_constraints(d_const@, yy@, self.dyy, FieldOperation::Mul, k);
            lemma_concat_assoc(c0, acc, piece);
            acc = acc + piece;
        }
        builder.eval_field_op(&one, &dyy, &self.v, FieldOperation::Add, k);
        proof {
            let piece = field_op_constraints(one@, dyy@, self.v, FieldOperation::Add, k);
            lemma_concat_assoc(c0, acc, piece);
            acc = acc + piece;
        }
        builder.eval_field_op(&u, &v, &self.u_div_v, FieldOperation::Div, k);
        proof {
            let piece = field_op_constraints(u@, v@, self.u_div_v, FieldOperation::Div, k);
            lemma_concat_assoc(c0, acc, piece);
            acc = acc + piece;
        }
        self.x.eval(builder, &u_div_v, k);
        proof {
            let piece = sqrt_constraints(u_div_v@, self.x, k);
            lemma_concat_assoc(c0, acc, piece);
            acc = acc + piece;
        }
        builder.eval_field_op(&zero, &x, &self.neg_x, FieldOperation::Sub, k);
        proof {
            let piece = field_op_constraints(zero@, x@, self.neg_x, FieldOperation::Sub, k);
            lemma_concat_assoc(c0, acc, piece);
            acc = acc + piece;
            assert(acc == self.field_constraints());
        }
    }

    fn eval_choice(&self, builder: &mut AirBuilder)
        ensures
            final(builder).constraints@ == old(builder).constraints@ + self.choice_constraints(),
            final(builder).sends == old(builder).sends,
            final(builder).receives == old(builder).receives,
    {
        let ghost c0 = builder.constraints@;
        let x_limbs = self.limbs_of_x();
        let neg_x = limb_columns(&self.neg_x.result);
        let x = limb_columns(&self.x.multiplication.result);
        let is_real = Expr::Local(self.is_real);
        let sign = Expr::Local(self.sign);
        let not_sign = crate::air::e_sub(Expr::Const(1), Expr::Local(self.sign));
        builder.assert_all_eq_when(&is_real, &sign, &neg_x, &x_limbs);
        builder.assert_all_eq_when(&is_real, &not_sign, &x, &x_limbs);
        proof {
            lemma_concat_assoc(
                c0,
                guarded_equalities(is_real, sign, neg_x@, x_limbs@),
                guarded_equalities(is_real, not_sign, x@, x_limbs@),
            );
        }
    }

    fn eval_memory(&self, builder: &mut AirBuilder)
        ensures
            final(builder).constraints@ == old(builder).constraints@ + self.memory_constraints(),
            final(builder).sends_view() == old(builder).sends_view() + self.sends(),
            final(builder).receives_view() == old(builder).receives_view() + slice_receives(
                self.shard,
                self.clk,
                self.x_maps(),
                self.ptr,
                0,
                self.is_real,
                8,
            ) + slice_receives(
                self.shard,
                self.clk,
                self.y_maps(),
                self.ptr,
                32,
                self.is_real,
                8,
            ),
    {
        let xs = self.x_access_maps();
        let ys = self.y_access_maps();
        builder.constraint_memory_access_slice(
            self.shard,
            self.clk,
            self.ptr,
            0,
            &xs,
            self.is_real,
        );
        builder.constraint_memory_access_slice(
            self.shard,
            self.clk,
            self.ptr,
            32,
            &ys,
            self.is_real,
        );
        proof {
            lemma_concat_assoc(
                old(builder).constraints@,
                slice_constraints(self.shard, self.clk, xs@, self.is_real, 8),
                slice_constraints(self.shard, self.clk, ys@, self.is_real, 8),
            );
            lemma_concat_assoc(
                old(builder).sends_view(),
                slice_sends(xs@, self.ptr, 0, self.is_real, 8),
                slice_sends(ys@, self.ptr, 32, self.is_real, 8),
            );
        }
    }

    /// Declares what the columns of a decompression hold: the sign is a
    /// bit; the operations of the field lead from `y` to the root; the
    /// accesses to memory are in order; the `x` written is the root or its
    /// negative, as the sign asks; and the row answers one call.
    pub fn eval(&self, builder: &mut AirBuilder)
        ensures
            final(builder).constraints@ == old(builder).constraints@ + self.constraints(),
            final(builder).sends_view() == old(builder).sends_view() + self.sends(),
            final(builder).receives_view() == old(builder).receives_view() + self.receives(),
    {
        let ghost c0 = builder.constraints@;
        let ghost r0 = builder.receives_view();
        builder.assert_bool(self.sign);
        let ghost mut acc = seq![s_bool(s_col(self.sign))];
        assert(builder.constraints@ =~= c0 + acc);
        self.eval_field_ops(builder);
        proof {
            lemma_concat_assoc(c0, acc, self.field_constraints());
            acc = acc + self.field_constraints();
        }
        self.eval_memory(builder);
        proof {
            lemma_concat_assoc(c0, acc, self.memory_constraints());
            acc = acc + self.memory_constraints();
        }
        self.eval_choice(builder);
        proof {
            lemma_concat_assoc(c0, acc, self.choice_constraints());
            acc = acc + self.choice_constraints();
        }
        let ghost r1 = builder.receives_view();
        builder.receive_syscall(
            Expr::Local(self.shard),
            Expr::Local(self.clk),
            Expr::Const(SyscallCode::ED_DECOMPRESS.syscall_id()),
            Expr::Local(self.ptr),
            Expr::Local(self.sign),
            Expr::Local(self.is_real),
        );
        proof {
            let call = syscall_interaction(
                s_col(self.shard),
                s_col(self.clk),
                s_const(SyscallCode::ED_DECOMPRESS.id_spec()),
                s_col(self.ptr),
                s_col(self.sign),
                s_col(self.is_real),
            );
            assert(builder.receives_view() =~= r1 + seq![call]);
            let both = slice_receives(
                self.shard,
                self.clk,
                self.x_maps(),
                self.ptr,
                0,
                self.is_real,
                8,
            ) + slice_receives(
                self.shard,
                self.clk,
                self.y_maps(),
                self.ptr,
                32,
                self.is_real,
                8,
            );
            lemma_concat_assoc(r0, both, seq![call]);
        }
    }
}

} // verus!
