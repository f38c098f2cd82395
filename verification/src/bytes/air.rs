//! What the table of bytes declares: it receives every lookup, as often
//! as its multiplicity says.

use crate::air::{
    byte_interaction, e_mul, e_sub, lemma_eval_ops, s_const, s_mul, s_sub, AirBuilder, Expr,
    InteractionSpec, Point,
};
use crate::bytes::columns::byte_preprocessed_col_map;
use crate::bytes::event::ByteOpcode;
use crate::bytes::ByteChip;
use vstd::prelude::*;

verus! {

/// A preprocessed column of the current row, as an expression.
pub open spec fn s_prep(i: usize) -> Expr {
    Expr::PrepLocal(i)
}

/// The first result of an operation, as the table holds it.
pub open spec fn result_column(i: int) -> Expr {
    if i == 0 {
        s_prep(2)
    } else if i == 1 {
        s_prep(3)
    } else if i == 2 {
        s_prep(4)
    } else if i == 3 {
        s_prep(5)
    } else if i == 4 {
        s_const(0)
    } else if i == 5 {
        s_prep(6)
    } else if i == 6 {
        s_prep(8)
    } else if i == 7 {
        s_prep(9)
    } else {
        s_prep(10)
    }
}

/// What the table receives for the operation at place `i`.
pub open spec fn byte_receive(i: int) -> InteractionSpec {
    byte_interaction(
        s_const(i as u32),
        result_column(i),
        if i == 5 {
            s_prep(7)
        } else {
            s_const(0)
        },
        if i == 8 {
            s_const(0)
        } else {
            s_prep(0)
        },
        if i == 7 || i == 8 {
            s_const(0)
        } else {
            s_prep(1)
        },
        Expr::Local(i as usize),
    )
}

/// What the table receives: every operation, as often as its multiplicity
/// says.
pub open spec fn byte_receives() -> Seq<InteractionSpec> {
    Seq::new(9, |i: int| byte_receive(i))
}

/// The constraints of the chip: one expression of degree three, which
/// vanishes on every row.
pub open spec fn byte_constraints() -> Seq<Expr> {
    seq![
        s_sub(
            s_mul(s_mul(s_prep(0), s_prep(0)), s_prep(0)),
            s_mul(s_mul(s_prep(0), s_prep(0)), s_prep(0)),
        ),
    ]
}

impl ByteChip {
    /// Declares the constraints and the interactions of the chip.
    pub fn eval(&self, builder: &mut AirBuilder)
        ensures
            final(builder).constraints@ == old(builder).constraints@ + byte_constraints(),
            final(builder).sends == old(builder).sends,
            final(builder).receives_view() == old(builder).receives_view() + byte_receives(),
    {
        let local = byte_preprocessed_col_map();
        let ops = ByteOpcode::all();

        // Send all the lookups for each operation.
        let mut i: usize = 0;
        while i < ops.len()
            invariant
                i <= 9,
                ops@.len() == 9,
                forall|j: int| 0 <= j < 9 ==> (#[trigger] ops@[j]).index_spec() == j,
                forall|j: int| 0 <= j < 9 ==> ops@[j] == ByteOpcode::at(j),
                local == byte_preprocessed_col_map_spec(),
                builder.constraints == old(builder).constraints,
                builder.sends == old(builder).sends,
                builder.receives_view() == old(builder).receives_view() + Seq::new(
                    i as nat,
                    |k: int| byte_receive(k),
                ),
            decreases 9 - i,
        {
            let opcode = ops[i];
            let field_op = Expr::Const(opcode.index() as u32);
            let mult = Expr::Local(i);
            let ghost before = builder.receives_view();
            match opcode {
                ByteOpcode::AND => builder.receive_byte_pair(
                    field_op,
                    Expr::PrepLocal(local.and),
                    Expr::Const(0),
                    Expr::PrepLocal(local.b),
                    Expr::PrepLocal(local.c),
                    mult,
                ),
                ByteOpcode::OR => builder.receive_byte_pair(
                    field_op,
                    Expr::PrepLocal(local.or),
                    Expr::Const(0),
                    Expr::PrepLocal(local.b),
                    Expr::PrepLocal(local.c),
                    mult,
                ),
                ByteOpcode::XOR => builder.receive_byte_pair(
                    field_op,
                    Expr::PrepLocal(local.xor),
                    Expr::Const(0),
                    Expr::PrepLocal(local.b),
                    Expr::PrepLocal(local.c),
                    mult,
                ),
                ByteOpcode::SLL => builder.receive_byte_pair(
                    field_op,
                    Expr::PrepLocal(local.sll),
                    Expr::Const(0),
                    Expr::PrepLocal(local.b),
                    Expr::PrepLocal(local.c),
                    mult,
                ),
                ByteOpcode::U8Range => builder.receive_byte_pair(
                    field_op,
                    Expr::Const(0),
                    Expr::Const(0),
                    Expr::PrepLocal(local.b),
                    Expr::PrepLocal(local.c),
                    mult,
                ),
                ByteOpcode::ShrCarry => builder.receive_byte_pair(
                    field_op,
                    Expr::PrepLocal(local.shr),
                    Expr::PrepLocal(local.shr_carry),
                    Expr::PrepLocal(local.b),
                    Expr::PrepLocal(local.c),
                    mult,
                ),
                ByteOpcode::LTU => builder.receive_byte_pair(
                    field_op,
                    Expr::PrepLocal(local.ltu),
                    Expr::Const(0),
                    Expr::PrepLocal(local.b),
                    Expr::PrepLocal(local.c),
                    mult,
                ),
                ByteOpcode::MSB => builder.receive_byte_pair(
                    field_op,
                    Expr::PrepLocal(local.msb),
                    Expr::Const(0),
                    Expr::PrepLocal(local.b),
                    Expr::Const(0),
                    mult,
                ),
                ByteOpcode::U16Range => builder.receive_byte_pair(
                    field_op,
                    Expr::PrepLocal(local.value_u16),
                    Expr::Const(0),
                    Expr::Const(0),
                    Expr::Const(0),
                    mult,
                ),
            }
            proof {
                assert(opcode.index_spec() == i);
                assert(builder.receives_view() == before.push(byte_receive(i as int)));
                assert(builder.receives_view() =~= old(builder).receives_view() + Seq::new(
                    (i + 1) as nat,
                    |k: int| byte_receive(k),
                ));
            }
            i = i + 1;
        }

        // A constraint of degree three.
        let b = local.b;
        builder.assert_zero(
            e_sub(
                e_mul(e_mul(Expr::PrepLocal(b), Expr::PrepLocal(b)), Expr::PrepLocal(b)),
                e_mul(e_mul(Expr::PrepLocal(b), Expr::PrepLocal(b)), Expr::PrepLocal(b)),
            ),
        );
        proof {
            assert(builder.constraints@ =~= old(builder).constraints@ + byte_constraints());
            assert(builder.receives_view() =~= old(builder).receives_view() + byte_receives());
        }
    }
}

/// Where each preprocessed column stands in a row.
pub open spec fn byte_preprocessed_col_map_spec() -> crate::bytes::columns::BytePreprocessedCols<
    usize,
> {
    crate::bytes::columns::BytePreprocessedCols::<usize> {
        b: 0usize,
        c: 1usize,
        and: 2usize,
        or: 3usize,
        xor: 4usize,
        sll: 5usize,
        shr: 6usize,
        shr_carry: 7usize,
        ltu: 8usize,
        msb: 9usize,
        value_u16: 10usize,
    }
}

/// On every row, the constraint of the chip vanishes.
pub proof fn lemma_rows_satisfy_constraints(pt: Point<int>, i: int)
    requires
        0 <= i < byte_constraints().len(),
    ensures
        byte_constraints()[i].eval_base(pt) == 0,
{
    let t = s_mul(s_mul(s_prep(0), s_prep(0)), s_prep(0));
    lemma_eval_ops(t, t, pt);
}

} // verus!
