//! The chip of subtraction.
//!
//! A row holds the operands and the result byte by byte, and the borrow out
//! of each of the three low bytes. Limb by limb, `b - c - a` less the
//! borrow that came in is zero or minus 256, and the borrow that goes out
//! says which.

use crate::air::{
    alu_interaction, e_add, e_mul, e_sub, felts_view, lemma_eval_leaf, lemma_eval_ops, s_add,
    s_bool, s_col, s_const, s_mul, s_sub, word_range_interactions, AirBuilder, Expr,
    InteractionSpec, Point,
};
use crate::bytes::{lemma_occurrences_concat, occurrences, word_range_checks, ByteLookupEvent};
use crate::events::AluEvent;
use crate::field::{fadd, fmul, fsub, Felt, P};
use crate::record::ExecutionRecord;
use crate::trace::{lemma_padded_height, pad_to_power_of_two, padded_height, zeros, Trace};
use crate::word::{
    bytes_view, le_bytes, le_value, lemma_decompose_recompose, lemma_recompose_decompose,
    limbs_view, u32_to_le_bytes, Word,
};
use vstd::prelude::*;

verus! {

/// The number of main trace columns for `SubChip`.
pub const NUM_SUB_COLS: usize = 16;

/// A chip that implements subtraction for the opcode SUB.
#[derive(Default)]
pub struct SubChip;

/// The column layout for the chip.
#[derive(Clone, Copy)]
pub struct SubCols<T> {
    /// The output operand.
    pub a: Word<T>,
    /// The first input operand.
    pub b: Word<T>,
    /// The second input operand.
    pub c: Word<T>,
    /// The borrow out of each of the three low limbs.
    pub carry: [T; 3],
    /// Selector to know whether this row is enabled.
    pub is_real: T,
}

/// Where each column of `SubCols` stands in a row.
pub open spec fn sub_col_map_spec() -> SubCols<usize> {
    SubCols {
        a: Word([0, 1, 2, 3]),
        b: Word([4, 5, 6, 7]),
        c: Word([8, 9, 10, 11]),
        carry: [12, 13, 14],
        is_real: 15,
    }
}

/// Where each column of `SubCols` stands in a row.
pub fn sub_col_map() -> (r: SubCols<usize>)
    ensures
        r == sub_col_map_spec(),
{
    SubCols {
        a: Word([0, 1, 2, 3]),
        b: Word([4, 5, 6, 7]),
        c: Word([8, 9, 10, 11]),
        carry: [12, 13, 14],
        is_real: 15,
    }
}

/// One if a borrow goes out of a limb: the limb of `b` is less than the
/// limb of `c` and the borrow that came in.
pub open spec fn borrow(b: int, c: int, carry_in: int) -> int {
    if b < c + carry_in {
        1
    } else {
        0
    }
}

/// The three borrows of the subtraction `b - c`, from the low limb up.
pub open spec fn borrows(b: int, c: int) -> Seq<int> {
    let bb = le_bytes(b);
    let cc = le_bytes(c);
    let k0 = borrow(bb[0], cc[0], 0);
    let k1 = borrow(bb[1], cc[1], k0);
    let k2 = borrow(bb[2], cc[2], k1);
    seq![k0, k1, k2]
}

/// The row that stands for an event.
pub open spec fn sub_row(e: AluEvent) -> Seq<int> {
    le_bytes(e.a as int) + le_bytes(e.b as int) + le_bytes(e.c as int) + borrows(
        e.b as int,
        e.c as int,
    ) + seq![1int]
}

/// The lookups that the row of an event rests on: the range checks of its
/// three words.
pub open spec fn event_lookups(e: AluEvent) -> Seq<ByteLookupEvent> {
    word_range_checks(le_bytes(e.a as int)) + word_range_checks(le_bytes(e.b as int))
        + word_range_checks(le_bytes(e.c as int))
}

/// The lookups that the rows of the events rest on, event by event.
pub open spec fn sub_lookups(es: Seq<AluEvent>) -> Seq<ByteLookupEvent>
    decreases es.len(),
{
    if es.len() == 0 {
        Seq::empty()
    } else {
        sub_lookups(es.drop_last()) + event_lookups(es.last())
    }
}

/// `b_i - c_i - a_i`, less the borrow that came into limb `i`.
pub open spec fn overflow_expr(i: int) -> Expr {
    let d = s_sub(s_sub(s_col((4 + i) as usize), s_col((8 + i) as usize)), s_col(i as usize));
    if i == 0 {
        d
    } else {
        s_sub(d, s_col((11 + i) as usize))
    }
}

/// `overflow_i + 256`.
pub open spec fn overflow_plus_base(i: int) -> Expr {
    s_add(overflow_expr(i), s_const(256))
}

/// The expression that is trivially zero and has degree three.
pub open spec fn degree_three_expr() -> Expr {
    s_sub(s_mul(s_mul(s_col(0), s_col(4)), s_col(8)), s_mul(s_mul(s_col(0), s_col(4)), s_col(8)))
}

/// The constraints of the chip: each expression vanishes on every row.
pub open spec fn sub_constraints() -> Seq<Expr> {
    seq![
        s_mul(overflow_expr(0), overflow_plus_base(0)),
        s_mul(overflow_expr(1), overflow_plus_base(1)),
        s_mul(overflow_expr(2), overflow_plus_base(2)),
        s_mul(overflow_expr(3), overflow_plus_base(3)),
        s_mul(s_col(12), overflow_plus_base(0)),
        s_mul(s_col(13), overflow_plus_base(1)),
        s_mul(s_col(14), overflow_plus_base(2)),
        s_mul(s_sub(s_col(12), s_const(1)), overflow_expr(0)),
        s_mul(s_sub(s_col(13), s_const(1)), overflow_expr(1)),
        s_mul(s_sub(s_col(14), s_const(1)), overflow_expr(2)),
        s_bool(s_col(12)),
        s_bool(s_col(13)),
        s_bool(s_col(14)),
        degree_three_expr(),
    ]
}

/// What the chip sends: the range checks of the limbs of `a`, `b` and `c`,
/// on the rows that are real.
pub open spec fn sub_sends() -> Seq<InteractionSpec> {
    word_range_interactions([0, 1, 2, 3], s_col(15)) + word_range_interactions(
        [4, 5, 6, 7],
        s_col(15),
    ) + word_range_interactions([8, 9, 10, 11], s_col(15))
}

/// What the chip receives: the operation, with opcode `SUB`, on the rows
/// that are real.
pub open spec fn sub_receives() -> Seq<InteractionSpec> {
    seq![alu_interaction(s_const(1), [0, 1, 2, 3], [4, 5, 6, 7], [8, 9, 10, 11], s_col(15))]
}

fn overflow(i: usize) -> (r: Expr)
    requires
        i < 4,
    ensures
        r == overflow_expr(i as int),
{
    let d = e_sub(e_sub(Expr::Local(4 + i), Expr::Local(8 + i)), Expr::Local(i));
    if i == 0 {
        d
    } else {
        e_sub(d, Expr::Local(11 + i))
    }
}

fn overflow_with_base(i: usize) -> (r: Expr)
    requires
        i < 4,
    ensures
        r == overflow_plus_base(i as int),
{
    e_add(overflow(i), Expr::Const(256))
}

impl SubCols<Felt> {
    /// The columns for one event.
    pub fn populate(event: &AluEvent) -> (r: SubCols<Felt>)
        ensures
            r.row_view() == sub_row(*event),
    {
        let b = u32_to_le_bytes(event.b);
        let c = u32_to_le_bytes(event.c);
        let mut carry = [Felt::zero(), Felt::zero(), Felt::zero()];
        let mut k0: u16 = 0;
        if b[0] < c[0] {
            k0 = 1;
            carry[0] = Felt::one();
        }
        let mut k1: u16 = 0;
        if (b[1] as u16) < (c[1] as u16) + k0 {
            k1 = 1;
            carry[1] = Felt::one();
        }
        if (b[2] as u16) < (c[2] as u16) + k1 {
            carry[2] = Felt::one();
        }
        let r = SubCols {
            a: Word::<Felt>::from_u32(event.a),
            b: Word::<Felt>::from_u32(event.b),
            c: Word::<Felt>::from_u32(event.c),
            carry,
            is_real: Felt::one(),
        };
        proof {
            assert(seq![r.carry[0]@, r.carry[1]@, r.carry[2]@] =~= borrows(
                event.b as int,
                event.c as int,
            ));
            assert(r.row_view() =~= sub_row(*event));
        }
        r
    }

    /// The values of the columns, in the order of the row.
    pub open spec fn row_view(&self) -> Seq<int> {
        limbs_view(self.a) + limbs_view(self.b) + limbs_view(self.c) + seq![
            self.carry[0]@,
            self.carry[1]@,
            self.carry[2]@,
        ] + seq![self.is_real@]
    }

    /// Appends the columns to `values`, in the order of the row.
    pub fn write_to(&self, values: &mut Vec<Felt>)
        ensures
            final(values)@ == old(values)@ + Seq::new(16, |i: int| final(values)@[old(values)@.len() + i]),
            final(values)@.len() == old(values)@.len() + 16,
            felts_view(final(values)@.subrange(old(values)@.len() as int, final(values)@.len() as int))
                == self.row_view(),
    {
        values.push(self.a.0[0]);
        values.push(self.a.0[1]);
        values.push(self.a.0[2]);
        values.push(self.a.0[3]);
        values.push(self.b.0[0]);
        values.push(self.b.0[1]);
        values.push(self.b.0[2]);
        values.push(self.b.0[3]);
        values.push(self.c.0[0]);
        values.push(self.c.0[1]);
        values.push(self.c.0[2]);
        values.push(self.c.0[3]);
        values.push(self.carry[0]);
        values.push(self.carry[1]);
        values.push(self.carry[2]);
        values.push(self.is_real);
        proof {
            let n = old(values)@.len() as int;
            assert(values@ =~= old(values)@ + Seq::new(16, |i: int| values@[n + i]));
            assert(felts_view(values@.subrange(n, values@.len() as int)) =~= self.row_view());
        }
    }
}

impl SubChip {
    /// The name of the chip.
    pub fn name(&self) -> (r: String)
        ensures
            r@ == "Sub"@,
    {
        "Sub".to_string()
    }

    /// The number of columns of the main trace.
    pub fn width(&self) -> (r: usize)
        ensures
            r == NUM_SUB_COLS,
    {
        NUM_SUB_COLS
    }

    /// Whether the shard needs the table of this chip at all.
    pub fn included(&self, shard: &ExecutionRecord) -> (r: bool)
        ensures
            r == (shard.sub_events@.len() > 0),
    {
        shard.sub_events.len() > 0
    }

    /// The trace of the chip for a shard: one row per subtraction event, in
    /// the order of the events, then rows of zeros up to the padded height.
    /// The range checks of every word of every row are counted in `output`.
    pub fn generate_trace(&self, input: &ExecutionRecord, output: &mut ExecutionRecord) -> (trace:
        Trace)
        requires
            old(output).has_room(6 * input.sub_events@.len()),
            padded_height(input.sub_events@.len()) * NUM_SUB_COLS <= usize::MAX,
        ensures
            trace.width == NUM_SUB_COLS,
            trace.values@.len() == padded_height(input.sub_events@.len()) * NUM_SUB_COLS,
            forall|i: int|
                0 <= i < input.sub_events@.len() ==> #[trigger] trace.row(i) == sub_row(
                    input.sub_events@[i],
                ),
            forall|i: int|
                input.sub_events@.len() <= i < padded_height(input.sub_events@.len())
                    ==> #[trigger] trace.row(i) == zeros(16),
            final(output).same_events(old(output)),
            final(output).counts_grew_by(old(output), sub_lookups(input.sub_events@)),
    {
        let n = input.sub_events.len();
        let mut values: Vec<Felt> = Vec::new();
        let mut i: usize = 0;
        proof {
            lemma_padded_height(n as nat);
        }
        while i < n
            invariant
                i <= n,
                n == input.sub_events@.len(),
                n * 16 <= usize::MAX,
                old(output).has_room((6 * n) as nat),
                values@.len() == i * 16,
                forall|k: int|
                    0 <= k < i ==> felts_view(#[trigger] values@.subrange(k * 16, (k + 1) * 16))
                        == sub_row(input.sub_events@[k]),
                output.same_events(old(output)),
                output.counts_grew_by(
                    old(output),
                    sub_lookups(input.sub_events@.subrange(0, i as int)),
                ),
                sub_lookups(input.sub_events@.subrange(0, i as int)).len() == 6 * i,
            decreases n - i,
        {
            let event = &input.sub_events[i];
            let ghost done = input.sub_events@.subrange(0, i as int);
            let ghost before = values@;
            let cols = SubCols::<Felt>::populate(event);
            cols.write_to(&mut values);
            let a = u32_to_le_bytes(event.a);
            let b = u32_to_le_bytes(event.b);
            let c = u32_to_le_bytes(event.c);
            let ghost out0 = *output;
            let ghost la = word_range_checks(le_bytes(event.a as int));
            let ghost lb = word_range_checks(le_bytes(event.b as int));
            let ghost lc = word_range_checks(le_bytes(event.c as int));
            proof {
                lemma_has_room_after(old(output), &out0, sub_lookups(done), (6 * n) as nat, 6);
            }
            output.add_u8_range_checks(&a);
            let ghost out1 = *output;
            proof {
                lemma_grew_twice(old(output), &out0, &out1, sub_lookups(done), la);
                lemma_has_room_after(old(output), &out1, sub_lookups(done) + la, (6 * n) as nat, 4);
            }
            output.add_u8_range_checks(&b);
            let ghost out2 = *output;
            proof {
                lemma_grew_twice(old(output), &out1, &out2, sub_lookups(done) + la, lb);
                lemma_has_room_after(
                    old(output),
                    &out2,
                    sub_lookups(done) + la + lb,
                    (6 * n) as nat,
                    2,
                );
            }
            output.add_u8_range_checks(&c);
            proof {
                lemma_grew_twice(old(output), &out2, output, sub_lookups(done) + la + lb, lc);
                let next = input.sub_events@.subrange(0, i + 1);
                assert(next.drop_last() =~= done);
                assert(next.last() == *event);
                assert(sub_lookups(next) =~= sub_lookups(done) + la + lb + lc);
                assert forall|k: int| 0 <= k < i + 1 implies felts_view(
                    #[trigger] values@.subrange(k * 16, (k + 1) * 16),
                ) == sub_row(input.sub_events@[k]) by {
                    if k < i {
                        assert(values@.subrange(k * 16, (k + 1) * 16) =~= before.subrange(
                            k * 16,
                            (k + 1) * 16,
                        ));
                    }
                }
            }
            i = i + 1;
        }
        let ghost content = values@;
        assert(input.sub_events@.subrange(0, n as int) =~= input.sub_events@);
        pad_to_power_of_two(&mut values, NUM_SUB_COLS, n);
        let trace = Trace { values, width: NUM_SUB_COLS };
        proof {
            let h = padded_height(n as nat);
            assert forall|k: int| 0 <= k < n implies #[trigger] trace.row(k) == sub_row(
                input.sub_events@[k],
            ) by {
                assert(trace.values@.subrange(k * 16, (k + 1) * 16) =~= content.subrange(
                    k * 16,
                    (k + 1) * 16,
                )) by {
                    let prefix = trace.values@.subrange(0, content.len() as int);
                    assert(prefix == content);
                    assert(trace.values@.subrange(k * 16, (k + 1) * 16) =~= prefix.subrange(
                        k * 16,
                        (k + 1) * 16,
                    ));
                }
            }
            assert forall|k: int| n <= k < h implies #[trigger] trace.row(k) == zeros(16) by {
                let r = trace.values@.subrange(k * 16, (k + 1) * 16);
                assert forall|j: int| 0 <= j < 16 implies (#[trigger] r[j])@ == 0 by {
                    assert(r[j] == trace.values@[k * 16 + j]);
                }
                assert(trace.row(k) =~= zeros(16));
            }
        }
        trace
    }

    /// Declares the constraints and the interactions of the chip.
    pub fn eval(&self, builder: &mut AirBuilder)
        ensures
            final(builder).constraints@ == old(builder).constraints@ + sub_constraints(),
            final(builder).sends_view() == old(builder).sends_view() + sub_sends(),
            final(builder).receives_view() == old(builder).receives_view() + sub_receives(),
    {
        let local = sub_col_map();
        // For each limb, the difference between the carried result and the
        // non-carried result is either zero or minus the base.
        builder.assert_zero(e_mul(overflow(0), overflow_with_base(0)));
        builder.assert_zero(e_mul(overflow(1), overflow_with_base(1)));
        builder.assert_zero(e_mul(overflow(2), overflow_with_base(2)));
        builder.assert_zero(e_mul(overflow(3), overflow_with_base(3)));
        // If the carry is one, then the overflow must be the base.
        builder.assert_zero(e_mul(Expr::Local(local.carry[0]), overflow_with_base(0)));
        builder.assert_zero(e_mul(Expr::Local(local.carry[1]), overflow_with_base(1)));
        builder.assert_zero(e_mul(Expr::Local(local.carry[2]), overflow_with_base(2)));
        // If the carry is not one, then the overflow must be zero.
        builder.assert_zero(
            e_mul(e_sub(Expr::Local(local.carry[0]), Expr::Const(1)), overflow(0)),
        );
        builder.assert_zero(
            e_mul(e_sub(Expr::Local(local.carry[1]), Expr::Const(1)), overflow(1)),
        );
        builder.assert_zero(
            e_mul(e_sub(Expr::Local(local.carry[2]), Expr::Const(1)), overflow(2)),
        );
        // The carry is either zero or one.
        builder.assert_bool(local.carry[0]);
        builder.assert_bool(local.carry[1]);
        builder.assert_bool(local.carry[2]);
        // Range check.
        builder.slice_range_check_u8(&local.a.0, local.is_real);
        builder.slice_range_check_u8(&local.b.0, local.is_real);
        builder.slice_range_check_u8(&local.c.0, local.is_real);
        // A constraint of degree three, so that the quotient has the degree
        // that every chip of the machine has.
        let abc = e_mul(
            e_mul(Expr::Local(local.a.0[0]), Expr::Local(local.b.0[0])),
            Expr::Local(local.c.0[0]),
        );
        let abc2 = e_mul(
            e_mul(Expr::Local(local.a.0[0]), Expr::Local(local.b.0[0])),
            Expr::Local(local.c.0[0]),
        );
        builder.assert_zero(e_sub(abc, abc2));
        // Receive the arguments.
        builder.receive_alu(
            Expr::Const(1),
            &local.a.0,
            &local.b.0,
            &local.c.0,
            Expr::Local(local.is_real),
        );
        proof {
            assert(builder.constraints@ =~= old(builder).constraints@ + sub_constraints());
            assert(builder.sends_view() =~= old(builder).sends_view() + sub_sends());
            assert(builder.receives_view() =~= old(builder).receives_view() + sub_receives());
        }
    }
}

/// If the counts of `mid` are those of `start` and `done`, and `start` has
/// room for `total`, then `mid` has room for what is left of `total`.
pub proof fn lemma_has_room_after(
    start: &ExecutionRecord,
    mid: &ExecutionRecord,
    done: Seq<ByteLookupEvent>,
    total: nat,
    left: nat,
)
    requires
        start.has_room(total),
        mid.counts_grew_by(start, done),
        done.len() + left <= total,
    ensures
        mid.has_room(left),
{
    assert forall|e: ByteLookupEvent| #[trigger] mid.byte_count(e) + left <= usize::MAX by {
        crate::record::lemma_occurrences_bound(done, e);
        assert(start.byte_count(e) + total <= usize::MAX);
    }
}

/// Growth of the counts composes.
pub proof fn lemma_grew_twice(
    start: &ExecutionRecord,
    mid: &ExecutionRecord,
    end: &ExecutionRecord,
    first: Seq<ByteLookupEvent>,
    second: Seq<ByteLookupEvent>,
)
    requires
        mid.counts_grew_by(start, first),
        end.counts_grew_by(mid, second),
    ensures
        end.counts_grew_by(start, first + second),
{
    assert forall|e: ByteLookupEvent| #[trigger]
        end.byte_count(e) == start.byte_count(e) + occurrences(first + second, e) by {
        lemma_occurrences_concat(first, second, e);
        assert(end.byte_count(e) == mid.byte_count(e) + occurrences(second, e));
        assert(mid.byte_count(e) == start.byte_count(e) + occurrences(first, e));
    }
}

/// The result of `b - c` on 32 bits.
pub open spec fn wrapping_sub_spec(b: u32, c: u32) -> int {
    (b as int - c as int) % 0x1_0000_0000
}

/// Every borrow is zero or one.
pub proof fn lemma_borrows_are_bits(b: u32, c: u32)
    ensures
        forall|i: int| 0 <= i < 3 ==> {
            ||| #[trigger] borrows(b as int, c as int)[i] == 0
            ||| borrows(b as int, c as int)[i] == 1
        },
{
}

/// Subtraction limb by limb, on the limbs themselves.
proof fn lemma_borrow_arith(a: Seq<int>, b: Seq<int>, c: Seq<int>)
    requires
        a.len() == 4,
        b.len() == 4,
        c.len() == 4,
        forall|i: int| 0 <= i < 4 ==> 0 <= #[trigger] a[i] < 256,
        forall|i: int| 0 <= i < 4 ==> 0 <= #[trigger] b[i] < 256,
        forall|i: int| 0 <= i < 4 ==> 0 <= #[trigger] c[i] < 256,
        le_value(a) == (le_value(b) - le_value(c)) % 0x1_0000_0000,
    ensures
        ({
            let k0 = borrow(b[0], c[0], 0);
            let k1 = borrow(b[1], c[1], k0);
            let k2 = borrow(b[2], c[2], k1);
            &&& b[0] - c[0] - a[0] == -256 * k0
            &&& b[1] - c[1] - a[1] - k0 == -256 * k1
            &&& b[2] - c[2] - a[2] - k1 == -256 * k2
            &&& (b[3] - c[3] - a[3] - k2 == 0 || b[3] - c[3] - a[3] - k2 == -256)
        }),
{
    let k0 = borrow(b[0], c[0], 0);
    let k1 = borrow(b[1], c[1], k0);
    let k2 = borrow(b[2], c[2], k1);
    let k3 = borrow(b[3], c[3], k2);
    let d0 = b[0] - c[0] + 256 * k0;
    let d1 = b[1] - c[1] - k0 + 256 * k1;
    let d2 = b[2] - c[2] - k1 + 256 * k2;
    let d3 = b[3] - c[3] - k2 + 256 * k3;
    assert(0 <= a[0] < 256 && 0 <= a[1] < 256 && 0 <= a[2] < 256 && 0 <= a[3] < 256);
    assert(0 <= b[0] < 256 && 0 <= b[1] < 256 && 0 <= b[2] < 256 && 0 <= b[3] < 256);
    assert(0 <= c[0] < 256 && 0 <= c[1] < 256 && 0 <= c[2] < 256 && 0 <= c[3] < 256);
    lemma_recompose_decompose(d0, d1, d2, d3);
    lemma_recompose_decompose(a[0], a[1], a[2], a[3]);
    let v = le_value(seq![d0, d1, d2, d3]);
    let x = le_value(b) - le_value(c);
    assert(v == 0x1_0000_0000 * k3 + x);
    vstd::arithmetic::div_mod::lemma_mod_multiples_vanish(k3, x, 0x1_0000_0000);
    vstd::arithmetic::div_mod::lemma_small_mod(v as nat, 0x1_0000_0000);
    assert(v == le_value(a));
    assert(seq![a[0], a[1], a[2], a[3]] =~= a);
    assert(le_bytes(v) == seq![d0, d1, d2, d3]);
    assert(le_bytes(v) == a);
    assert(a[0] == d0 && a[1] == d1 && a[2] == d2 && a[3] == d3);
}

/// Subtraction limb by limb: where `a` is `b - c` on 32 bits, each limb of
/// `b`, less the limb of `c`, the limb of `a` and the borrow that came in,
/// is minus 256 times the borrow that goes out.
pub proof fn lemma_borrow_chain(a: u32, b: u32, c: u32)
    requires
        a as int == wrapping_sub_spec(b, c),
    ensures
        ({
            let aa = le_bytes(a as int);
            let bb = le_bytes(b as int);
            let cc = le_bytes(c as int);
            let k = borrows(b as int, c as int);
            &&& bb[0] - cc[0] - aa[0] == -256 * k[0]
            &&& bb[1] - cc[1] - aa[1] - k[0] == -256 * k[1]
            &&& bb[2] - cc[2] - aa[2] - k[1] == -256 * k[2]
            &&& (bb[3] - cc[3] - aa[3] - k[2] == 0 || bb[3] - cc[3] - aa[3] - k[2] == -256)
        }),
{
    lemma_decompose_recompose(a);
    lemma_decompose_recompose(b);
    lemma_decompose_recompose(c);
    lemma_borrow_arith(le_bytes(a as int), le_bytes(b as int), le_bytes(c as int));
}

/// The value of the overflow of a limb, in the field: zero where no borrow
/// goes out, minus 256 where one does.
proof fn lemma_limb_overflow(b: int, c: int, a: int, kin: int, kout: int)
    requires
        0 <= a < 256,
        0 <= b < 256,
        0 <= c < 256,
        kin == 0 || kin == 1,
        kout == 0 || kout == 1,
        b - c - a - kin == -256 * kout,
    ensures
        fsub(fsub(fsub(b, c), a), kin) == (if kout == 1 {
            P - 256
        } else {
            0
        }),
        kin == 0 ==> fsub(fsub(b, c), a) == (if kout == 1 {
            P - 256
        } else {
            0
        }),
{
}

/// What the overflow of each limb evaluates to on the row of an event.
proof fn lemma_overflow_on_row(e: AluEvent, pt: Point<int>, j: int)
    requires
        pt.main_local == sub_row(e),
        0 <= j < 4,
    ensures
        ({
            let aa = le_bytes(e.a as int);
            let bb = le_bytes(e.b as int);
            let cc = le_bytes(e.c as int);
            let k = borrows(e.b as int, e.c as int);
            overflow_expr(j).eval_base(pt) == (if j == 0 {
                fsub(fsub(bb[0], cc[0]), aa[0])
            } else {
                fsub(fsub(fsub(bb[j], cc[j]), aa[j]), k[j - 1])
            })
        }),
        overflow_plus_base(j).eval_base(pt) == fadd(overflow_expr(j).eval_base(pt), 256),
{
    let row = sub_row(e);
    let bi = s_col((4 + j) as usize);
    let ci = s_col((8 + j) as usize);
    let ai = s_col(j as usize);
    lemma_eval_leaf((4 + j) as usize, 256, pt);
    lemma_eval_leaf((8 + j) as usize, 256, pt);
    lemma_eval_leaf(j as usize, 256, pt);
    lemma_eval_ops(bi, ci, pt);
    lemma_eval_ops(s_sub(bi, ci), ai, pt);
    if j > 0 {
        lemma_eval_leaf((11 + j) as usize, 256, pt);
        lemma_eval_ops(s_sub(s_sub(bi, ci), ai), s_col((11 + j) as usize), pt);
    }
    lemma_eval_ops(overflow_expr(j), s_const(256), pt);
}

/// On the row of a subtraction whose result is right, the overflow of
/// each limb is zero, or minus 256 where a borrow goes out.
proof fn lemma_overflow_values(e: AluEvent, pt: Point<int>, j: int)
    requires
        e.a as int == wrapping_sub_spec(e.b, e.c),
        pt.main_local == sub_row(e),
        0 <= j < 4,
    ensures
        ({
            let o = overflow_expr(j).eval_base(pt);
            let ob = overflow_plus_base(j).eval_base(pt);
            let k = borrows(e.b as int, e.c as int);
            &&& o == 0 || o == P - 256
            &&& o == P - 256 ==> ob == 0
            &&& j < 3 ==> (k[j] == 0 || k[j] == 1)
            &&& j < 3 ==> pt.main_local[12 + j] == k[j]
            &&& j < 3 && k[j] == 1 ==> o == P - 256
            &&& j < 3 && k[j] == 0 ==> o == 0
        }),
{
    lemma_borrow_chain(e.a, e.b, e.c);
    lemma_decompose_recompose(e.a);
    lemma_decompose_recompose(e.b);
    lemma_decompose_recompose(e.c);
    let aa = le_bytes(e.a as int);
    let bb = le_bytes(e.b as int);
    let cc = le_bytes(e.c as int);
    let k = borrows(e.b as int, e.c as int);
    assert(0 <= aa[j] < 256 && 0 <= bb[j] < 256 && 0 <= cc[j] < 256);
    lemma_overflow_on_row(e, pt, j);
    if j == 0 {
        lemma_limb_overflow(bb[0], cc[0], aa[0], 0, k[0]);
    } else if j < 3 {
        lemma_limb_overflow(bb[j], cc[j], aa[j], k[j - 1], k[j]);
    } else {
        let kout: int = if bb[3] - cc[3] - aa[3] - k[2] == 0 {
            0
        } else {
            1
        };
        lemma_limb_overflow(bb[3], cc[3], aa[3], k[2], kout);
    }
}

/// On the row of a subtraction whose result is right, every constraint of
/// the chip vanishes.
pub proof fn lemma_real_rows_satisfy_constraints(e: AluEvent, pt: Point<int>, i: int)
    requires
        e.a as int == wrapping_sub_spec(e.b, e.c),
        pt.main_local == sub_row(e),
        0 <= i < sub_constraints().len(),
    ensures
        sub_constraints()[i].eval_base(pt) == 0,
{
    if i < 4 {
        lemma_overflow_values(e, pt, i);
        lemma_eval_ops(overflow_expr(i), overflow_plus_base(i), pt);
        lemma_product_with_zero(
            overflow_expr(i).eval_base(pt),
            overflow_plus_base(i).eval_base(pt),
        );
    } else if i < 7 {
        let j = i - 4;
        lemma_overflow_values(e, pt, j);
        let kc = s_col((12 + j) as usize);
        lemma_eval_leaf((12 + j) as usize, 1, pt);
        lemma_eval_ops(kc, overflow_plus_base(j), pt);
        lemma_product_with_zero(kc.eval_base(pt), overflow_plus_base(j).eval_base(pt));
    } else if i < 10 {
        let j = i - 7;
        lemma_overflow_values(e, pt, j);
        let kc = s_col((12 + j) as usize);
        lemma_eval_leaf((12 + j) as usize, 1, pt);
        lemma_eval_ops(kc, s_const(1), pt);
        lemma_eval_ops(s_sub(kc, s_const(1)), overflow_expr(j), pt);
        lemma_product_with_zero(
            s_sub(kc, s_const(1)).eval_base(pt),
            overflow_expr(j).eval_base(pt),
        );
    } else if i < 13 {
        let j = i - 10;
        lemma_overflow_values(e, pt, j);
        let kc = s_col((12 + j) as usize);
        lemma_eval_leaf((12 + j) as usize, 1, pt);
        lemma_eval_ops(kc, s_const(1), pt);
        lemma_eval_ops(kc, s_sub(kc, s_const(1)), pt);
        lemma_product_with_zero(kc.eval_base(pt), s_sub(kc, s_const(1)).eval_base(pt));
    } else {
        lemma_degree_three_vanishes(pt);
    }
}

/// The constraint of degree three vanishes on every row.
proof fn lemma_degree_three_vanishes(pt: Point<int>)
    ensures
        degree_three_expr().eval_base(pt) == 0,
{
    let t = s_mul(s_mul(s_col(0), s_col(4)), s_col(8));
    lemma_eval_ops(t, t, pt);
}

/// A product with a factor zero is zero in the field.
pub proof fn lemma_product_with_zero(x: int, y: int)
    ensures
        x == 0 || y == 0 ==> fmul(x, y) == 0,
{
    if x == 0 {
        assert(x * y == 0) by (nonlinear_arith)
            requires
                x == 0,
        ;
    } else if y == 0 {
        assert(x * y == 0) by (nonlinear_arith)
            requires
                y == 0,
        ;
    }
}

/// On a row of zeros, every constraint of the chip vanishes: padding never
/// trips an assertion.
pub proof fn lemma_padding_rows_satisfy_constraints(pt: Point<int>, i: int)
    requires
        pt.main_local == zeros(16),
        0 <= i < sub_constraints().len(),
    ensures
        sub_constraints()[i].eval_base(pt) == 0,
{
    let p = P as int;
    if i < 10 {
        let j = if i < 4 {
            i
        } else if i < 7 {
            i - 4
        } else {
            i - 7
        };
        let bi = s_col((4 + j) as usize);
        let ci = s_col((8 + j) as usize);
        let ai = s_col(j as usize);
        lemma_eval_leaf((4 + j) as usize, 256, pt);
        lemma_eval_leaf((8 + j) as usize, 256, pt);
        lemma_eval_leaf(j as usize, 256, pt);
        lemma_eval_ops(bi, ci, pt);
        lemma_eval_ops(s_sub(bi, ci), ai, pt);
        if j > 0 {
            lemma_eval_leaf((11 + j) as usize, 256, pt);
            lemma_eval_ops(s_sub(s_sub(bi, ci), ai), s_col((11 + j) as usize), pt);
        }
        lemma_eval_ops(overflow_expr(j), s_const(256), pt);
        let o = overflow_expr(j).eval_base(pt);
        let ob = overflow_plus_base(j).eval_base(pt);
        assert(o == 0);
        if i < 4 {
            lemma_eval_ops(overflow_expr(j), overflow_plus_base(j), pt);
            lemma_product_with_zero(o, ob);
        } else if i < 7 {
            let kc = s_col((12 + j) as usize);
            lemma_eval_leaf((12 + j) as usize, 1, pt);
            lemma_eval_ops(kc, overflow_plus_base(j), pt);
            lemma_product_with_zero(0, ob);
        } else {
            let kc = s_col((12 + j) as usize);
            lemma_eval_leaf((12 + j) as usize, 1, pt);
            lemma_eval_ops(kc, s_const(1), pt);
            lemma_eval_ops(s_sub(kc, s_const(1)), overflow_expr(j), pt);
            lemma_product_with_zero(s_sub(kc, s_const(1)).eval_base(pt), 0);
        }
    } else if i < 13 {
        let j = i - 10;
        let kc = s_col((12 + j) as usize);
        lemma_eval_leaf((12 + j) as usize, 1, pt);
        lemma_eval_ops(kc, s_const(1), pt);
        lemma_eval_ops(kc, s_sub(kc, s_const(1)), pt);
        lemma_product_with_zero(0, s_sub(kc, s_const(1)).eval_base(pt));
    } else {
        lemma_degree_three_vanishes(pt);
    }
}

/// Every event rests on six lookups.
pub proof fn lemma_sub_lookups_len(es: Seq<AluEvent>)
    ensures
        sub_lookups(es).len() == 6 * es.len(),
    decreases es.len(),
{
    if es.len() > 0 {
        lemma_sub_lookups_len(es.drop_last());
        assert(event_lookups(es.last()).len() == 6);
    }
}

} // verus!
