//! The chip of the shifts.
//!
//! A row holds the operands and the result of one shift, byte by byte, and
//! one flag for each of the three operations. The chip receives the
//! operation from the bus of arithmetic, under the opcode that its flags
//! select.

use crate::air::{
    alu_interaction, e_add, e_mul, e_sub, felts_view, lemma_eval_leaf, lemma_eval_ops, s_add,
    s_col, s_const, s_mul, s_sub, AirBuilder, Expr, InteractionSpec, Point,
};
use crate::events::AluEvent;
use crate::field::Felt;
use crate::program::Opcode;
use crate::record::ExecutionRecord;
use crate::trace::{append_row, padded_height, padded_trace, zeros, Trace};
use crate::word::{le_bytes, limbs_view, Word};
use vstd::prelude::*;

verus! {

/// The number of main trace columns for `ShiftChip`.
pub const NUM_SHIFT_COLS: usize = 15;

/// The column layout for the chip.
#[derive(Clone, Copy)]
pub struct ShiftCols<T> {
    /// The output operand.
    pub a: Word<T>,
    /// The first input operand.
    pub b: Word<T>,
    /// The second input operand.
    pub c: Word<T>,
    /// Selector flags for the operation to perform.
    pub is_sll: T,
    pub is_srl: T,
    pub is_sra: T,
}

/// A chip that implements bitwise operations for the opcodes SLL, SLLI,
/// SRL, SRLI, SRA, and SRAI.
pub struct ShiftChip;

/// Where each column of `ShiftCols` stands in a row.
pub fn shift_col_map() -> (r: ShiftCols<usize>)
    ensures
        r == (ShiftCols::<usize> {
            a: Word([0usize, 1usize, 2usize, 3usize]),
            b: Word([4usize, 5usize, 6usize, 7usize]),
            c: Word([8usize, 9usize, 10usize, 11usize]),
            is_sll: 12usize,
            is_srl: 13usize,
            is_sra: 14usize,
        }),
{
    ShiftCols {
        a: Word([0, 1, 2, 3]),
        b: Word([4, 5, 6, 7]),
        c: Word([8, 9, 10, 11]),
        is_sll: 12,
        is_srl: 13,
        is_sra: 14,
    }
}

/// One if the two opcodes are the same, zero if not.
pub open spec fn flag(op: Opcode, of: Opcode) -> int {
    if op == of {
        1
    } else {
        0
    }
}

/// The row that stands for an event.
pub open spec fn shift_row(e: AluEvent) -> Seq<int> {
    le_bytes(e.a as int) + le_bytes(e.b as int) + le_bytes(e.c as int) + seq![
        flag(e.opcode, Opcode::SLL),
        flag(e.opcode, Opcode::SRL),
        flag(e.opcode, Opcode::SRA),
    ]
}

/// The opcode that the flags of a row select.
pub open spec fn selected_opcode() -> Expr {
    s_add(
        s_add(s_mul(s_col(12), s_const(5)), s_mul(s_col(13), s_const(6))),
        s_mul(s_col(14), s_const(7)),
    )
}

/// The sum of the flags of a row.
pub open spec fn selected() -> Expr {
    s_add(s_add(s_col(12), s_col(13)), s_col(14))
}

/// The constraints of the chip: one expression of degree three, which
/// vanishes on every row.
pub open spec fn shift_constraints() -> Seq<Expr> {
    seq![
        s_sub(
            s_mul(s_mul(s_col(0), s_col(4)), s_col(8)),
            s_mul(s_mul(s_col(0), s_col(4)), s_col(8)),
        ),
    ]
}

/// What the chip receives: the operation, under the opcode selected, on
/// the rows where a flag is set.
pub open spec fn shift_receives() -> Seq<InteractionSpec> {
    seq![
        alu_interaction(selected_opcode(), [0, 1, 2, 3], [4, 5, 6, 7], [8, 9, 10, 11], selected()),
    ]
}

impl ShiftCols<Felt> {
    /// The values of the columns, in the order of the row.
    pub open spec fn row_view(&self) -> Seq<int> {
        limbs_view(self.a) + limbs_view(self.b) + limbs_view(self.c) + seq![
            self.is_sll@,
            self.is_srl@,
            self.is_sra@,
        ]
    }

    /// The columns for one event.
    pub fn populate(event: &AluEvent) -> (r: ShiftCols<Felt>)
        ensures
            r.row_view() == shift_row(*event),
    {
        let r = ShiftCols {
            a: Word::<Felt>::from_u32(event.a),
            b: Word::<Felt>::from_u32(event.b),
            c: Word::<Felt>::from_u32(event.c),
            is_sll: Felt::from_bool(event.opcode == Opcode::SLL),
            is_srl: Felt::from_bool(event.opcode == Opcode::SRL),
            is_sra: Felt::from_bool(event.opcode == Opcode::SRA),
        };
        assert(r.row_view() =~= shift_row(*event));
        r
    }

    /// The columns as a row.
    pub fn to_row(&self) -> (r: Vec<Felt>)
        ensures
            felts_view(r@) == self.row_view(),
            r@.len() == NUM_SHIFT_COLS,
    {
        let mut r: Vec<Felt> = Vec::new();
        r.push(self.a.0[0]);
        r.push(self.a.0[1]);
        r.push(self.a.0[2]);
        r.push(self.a.0[3]);
        r.push(self.b.0[0]);
        r.push(self.b.0[1]);
        r.push(self.b.0[2]);
        r.push(self.b.0[3]);
        r.push(self.c.0[0]);
        r.push(self.c.0[1]);
        r.push(self.c.0[2]);
        r.push(self.c.0[3]);
        r.push(self.is_sll);
        r.push(self.is_srl);
        r.push(self.is_sra);
        assert(felts_view(r@) =~= self.row_view());
        r
    }
}

impl ShiftChip {
    pub fn new() -> (r: Self)
        ensures
            r == ShiftChip,
    {
        ShiftChip
    }

    /// The name of the chip.
    pub fn name(&self) -> (r: String)
        ensures
            r@ == "Shift"@,
    {
        "Shift".to_string()
    }

    /// The number of columns of the main trace.
    pub fn width(&self) -> (r: usize)
        ensures
            r == NUM_SHIFT_COLS,
    {
        NUM_SHIFT_COLS
    }

    /// Whether the shard needs the table of this chip at all.
    pub fn included(&self, shard: &ExecutionRecord) -> (r: bool)
        ensures
            r == (shard.shift_events@.len() > 0),
    {
        shard.shift_events.len() > 0
    }

    /// The trace of the chip for a shard: one row per shift event, in the
    /// order of the events, then rows of zeros up to the padded height.
    pub fn generate_trace(&self, input: &ExecutionRecord, output: &mut ExecutionRecord) -> (trace:
        Trace)
        requires
            padded_height(input.shift_events@.len()) * NUM_SHIFT_COLS <= usize::MAX,
        ensures
            trace.width == NUM_SHIFT_COLS,
            trace.values@.len() == padded_height(input.shift_events@.len()) * NUM_SHIFT_COLS,
            forall|i: int|
                0 <= i < input.shift_events@.len() ==> #[trigger] trace.row(i) == shift_row(
                    input.shift_events@[i],
                ),
            forall|i: int|
                input.shift_events@.len() <= i < padded_height(input.shift_events@.len())
                    ==> #[trigger] trace.row(i) == zeros(15),
            *final(output) == *old(output),
    {
        let n = input.shift_events.len();
        let mut values: Vec<Felt> = Vec::new();
        let mut i: usize = 0;
        while i < n
            invariant
                i <= n,
                n == input.shift_events@.len(),
                values@.len() == i * 15,
                forall|k: int|
                    0 <= k < i ==> felts_view(#[trigger] values@.subrange(k * 15, (k + 1) * 15))
                        == shift_row(input.shift_events@[k]),
            decreases n - i,
        {
            let cols = ShiftCols::<Felt>::populate(&input.shift_events[i]);
            let row = cols.to_row();
            append_row(&mut values, &row, NUM_SHIFT_COLS, i);
            i = i + 1;
        }
        padded_trace(values, NUM_SHIFT_COLS, n)
    }

    /// Declares the constraints and the interactions of the chip.
    pub fn eval(&self, builder: &mut AirBuilder)
        ensures
            final(builder).constraints@ == old(builder).constraints@ + shift_constraints(),
            final(builder).sends == old(builder).sends,
            final(builder).receives_view() == old(builder).receives_view() + shift_receives(),
    {
        let local = shift_col_map();
        let abc = e_mul(
            e_mul(Expr::Local(local.a.0[0]), Expr::Local(local.b.0[0])),
            Expr::Local(local.c.0[0]),
        );
        let abc2 = e_mul(
            e_mul(Expr::Local(local.a.0[0]), Expr::Local(local.b.0[0])),
            Expr::Local(local.c.0[0]),
        );
        builder.assert_zero(e_sub(abc, abc2));

        // Receive the arguments.
        let opcode = e_add(
            e_add(
                e_mul(Expr::Local(local.is_sll), Expr::Const(5)),
                e_mul(Expr::Local(local.is_srl), Expr::Const(6)),
            ),
            e_mul(Expr::Local(local.is_sra), Expr::Const(7)),
        );
        let multiplicity = e_add(
            e_add(Expr::Local(local.is_sll), Expr::Local(local.is_srl)),
            Expr::Local(local.is_sra),
        );
        builder.receive_alu(opcode, &local.a.0, &local.b.0, &local.c.0, multiplicity);
        proof {
            assert(builder.constraints@ =~= old(builder).constraints@ + shift_constraints());
            assert(builder.receives_view() =~= old(builder).receives_view() + shift_receives());
        }
    }
}

/// On every row, the constraint of the chip vanishes.
pub proof fn lemma_rows_satisfy_constraints(pt: Point<int>, i: int)
    requires
        0 <= i < shift_constraints().len(),
    ensures
        shift_constraints()[i].eval_base(pt) == 0,
{
    let t = s_mul(s_mul(s_col(0), s_col(4)), s_col(8));
    lemma_eval_ops(t, t, pt);
}

/// On the row of a shift event, the chip receives the event once, under
/// the opcode of the event.
pub proof fn lemma_row_receives_event(e: AluEvent, pt: Point<int>)
    requires
        pt.main_local == shift_row(e),
        e.opcode == Opcode::SLL || e.opcode == Opcode::SRL || e.opcode == Opcode::SRA,
    ensures
        selected_opcode().eval_base(pt) == e.opcode.code(),
        selected().eval_base(pt) == 1,
{
    let row = shift_row(e);
    assert(row[12] == flag(e.opcode, Opcode::SLL));
    assert(row[13] == flag(e.opcode, Opcode::SRL));
    assert(row[14] == flag(e.opcode, Opcode::SRA));
    lemma_eval_leaf(12, 5, pt);
    lemma_eval_leaf(13, 6, pt);
    lemma_eval_leaf(14, 7, pt);
    lemma_eval_ops(s_col(12), s_const(5), pt);
    lemma_eval_ops(s_col(13), s_const(6), pt);
    lemma_eval_ops(s_col(14), s_const(7), pt);
    lemma_eval_ops(s_mul(s_col(12), s_const(5)), s_mul(s_col(13), s_const(6)), pt);
    lemma_eval_ops(
        s_add(s_mul(s_col(12), s_const(5)), s_mul(s_col(13), s_const(6))),
        s_mul(s_col(14), s_const(7)),
        pt,
    );
    lemma_eval_ops(s_col(12), s_col(13), pt);
    lemma_eval_ops(s_add(s_col(12), s_col(13)), s_col(14), pt);
    assert(0 * 5 == 0 && 0 * 6 == 0 && 0 * 7 == 0);
}

} // verus!
