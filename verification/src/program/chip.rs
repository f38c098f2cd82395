//! The chip of the program: one row for every instruction, with the
//! number of times that the instruction was executed in the shard. The
//! steps of the machine look their instructions up here.

use crate::air::{
    e_mul, e_sub, felts_view, lemma_eval_ops, s_col, s_mul, s_sub, AirBuilder, Expr, Interaction,
    InteractionKind, InteractionSpec, Point,
};
use crate::cpu::columns::instruction::{instruction_row, NUM_INSTRUCTION_COLS};
use crate::cpu::columns::opcode::{selector_row, NUM_OPCODE_SELECTOR_COLS};
use crate::cpu::columns::{InstructionCols, OpcodeSelectorCols};
use crate::events::CpuEvent;
use crate::field::{Felt, P};
use crate::program::model::{Instruction, Program};
use crate::record::ExecutionRecord;
use crate::trace::{append_row, padded_height, padded_trace, zeros, Trace};
use std::collections::HashMap;
use vstd::prelude::*;

verus! {

/// The number of main trace columns for `ProgramChip`.
pub const NUM_PROGRAM_COLS: usize = 37;

/// The column layout for the chip.
#[derive(Clone, Copy)]
pub struct ProgramCols<T> {
    pub pc: T,
    pub instruction: InstructionCols<T>,
    pub selectors: OpcodeSelectorCols<T>,
    pub multiplicity: T,
}

/// A chip that holds the program and counts how often each instruction
/// was fetched.
#[derive(Default)]
pub struct ProgramChip;

/// How many of the steps were made at the program counter `pc`.
pub open spec fn fetches(events: Seq<CpuEvent>, pc: u32) -> nat
    decreases events.len(),
{
    if events.len() == 0 {
        0
    } else {
        fetches(events.drop_last(), pc) + (if events.last().pc == pc {
            1nat
        } else {
            0nat
        })
    }
}

/// No program counter was fetched more often than there were steps.
pub proof fn lemma_fetches_bound(events: Seq<CpuEvent>, pc: u32)
    ensures
        fetches(events, pc) <= events.len(),
    decreases events.len(),
{
    if events.len() > 0 {
        lemma_fetches_bound(events.drop_last(), pc);
    }
}

/// The address of instruction `i` of a program.
pub open spec fn pc_of(p: &Program, i: int) -> int {
    p.pc_base + 4 * i
}

/// The row of instruction `i` of the program of a shard.
pub open spec fn program_row(record: &ExecutionRecord, i: int) -> Seq<int> {
    seq![pc_of(&*record.program, i)] + instruction_row(record.program.instructions@[i])
        + selector_row(record.program.instructions@[i]) + seq![
        fetches(record.cpu_events@, pc_of(&*record.program, i) as u32) as int,
    ]
}

/// The shard fits the table: every address of the program and every
/// count of fetches is a canonical field element.
pub open spec fn table_fits(record: &ExecutionRecord) -> bool {
    &&& record.program.pc_base + 4 * record.program.instructions@.len() < P
    &&& record.cpu_events@.len() < P
}

/// The constraints of the chip: one expression of degree three, which
/// vanishes on every row.
pub open spec fn program_constraints() -> Seq<Expr> {
    seq![
        s_sub(
            s_mul(s_mul(s_col(0), s_col(0)), s_col(0)),
            s_mul(s_mul(s_col(0), s_col(0)), s_col(0)),
        ),
    ]
}

/// What the chip receives: the program counter, the instruction and its
/// selectors, as often as the instruction was fetched.
pub open spec fn program_receives() -> Seq<InteractionSpec> {
    seq![
        InteractionSpec {
            values: Seq::new(36, |i: int| s_col(i as usize)),
            multiplicity: s_col(36),
            kind: InteractionKind::Program,
        },
    ]
}

impl ProgramChip {
    pub fn new() -> (r: Self)
        ensures
            r == ProgramChip,
    {
        ProgramChip
    }

    /// The name of the chip.
    pub fn name(&self) -> (r: String)
        ensures
            r@ == "Program"@,
    {
        "Program".to_string()
    }

    /// The number of columns of the main trace.
    pub fn width(&self) -> (r: usize)
        ensures
            r == NUM_PROGRAM_COLS,
    {
        NUM_PROGRAM_COLS
    }

    /// Every shard needs the table of the program.
    pub fn included(&self, shard: &ExecutionRecord) -> (r: bool)
        ensures
            r,
    {
        true
    }

    /// The trace of the chip for a shard: one row per instruction of the
    /// program, in the order of the program, then rows of zeros up to the
    /// padded height. A row holds how often the shard fetched its
    /// instruction.
    pub fn generate_trace(&self, input: &ExecutionRecord, output: &mut ExecutionRecord) -> (trace:
        Trace)
        requires
            table_fits(input),
            padded_height(input.program.instructions@.len()) * NUM_PROGRAM_COLS <= usize::MAX,
        ensures
            trace.width == NUM_PROGRAM_COLS,
            trace.values@.len() == padded_height(input.program.instructions@.len())
                * NUM_PROGRAM_COLS,
            forall|i: int|
                0 <= i < input.program.instructions@.len() ==> #[trigger] trace.row(i)
                    == program_row(input, i),
            forall|i: int|
                input.program.instructions@.len() <= i < padded_height(
                    input.program.instructions@.len(),
                ) ==> #[trigger] trace.row(i) == zeros(37),
            *final(output) == *old(output),
    {
        // Collect the number of times each instruction is called from the
        // cpu events, as a map from the program counter to the count.
        let mut instruction_counts: HashMap<u32, usize> = HashMap::new();
        let mut k: usize = 0;
        while k < input.cpu_events.len()
            invariant
                k <= input.cpu_events@.len(),
                forall|pc: u32|
                    instruction_counts@.contains_key(pc) ==> #[trigger] instruction_counts@[pc]
                        == fetches(input.cpu_events@.subrange(0, k as int), pc),
                forall|pc: u32|
                    !instruction_counts@.contains_key(pc) ==> #[trigger] fetches(
                        input.cpu_events@.subrange(0, k as int),
                        pc,
                    ) == 0,
            decreases input.cpu_events@.len() - k,
        {
            let pc = input.cpu_events[k].pc;
            let ghost done = input.cpu_events@.subrange(0, k as int);
            let ghost next = input.cpu_events@.subrange(0, k + 1);
            proof {
                assert(next.drop_last() =~= done);
                lemma_fetches_bound(done, pc);
            }
            let count: usize = match instruction_counts.get(&pc) {
                Some(c) => *c,
                None => 0,
            };
            let ghost before = instruction_counts@;
            instruction_counts.insert(pc, count + 1);
            proof {
                assert forall|q: u32| instruction_counts@.contains_key(q) implies (
                #[trigger] instruction_counts@[q]) == fetches(next, q) by {
                    if q != pc {
                        assert(before.contains_key(q));
                        assert(before[q] == fetches(done, q));
                    }
                }
                assert forall|q: u32| !instruction_counts@.contains_key(q) implies (
                #[trigger] fetches(next, q)) == 0 by {
                    assert(!before.contains_key(q));
                    assert(fetches(done, q) == 0);
                }
            }
            k = k + 1;
        }
        assert(input.cpu_events@.subrange(0, k as int) =~= input.cpu_events@);
        let n = input.program.instructions.len();
        let mut values: Vec<Felt> = Vec::new();
        let mut i: usize = 0;
        while i < n
            invariant
                i <= n,
                n == input.program.instructions@.len(),
                table_fits(input),
                values@.len() == i * 37,
                forall|pc: u32|
                    instruction_counts@.contains_key(pc) ==> #[trigger] instruction_counts@[pc]
                        == fetches(input.cpu_events@, pc),
                forall|pc: u32|
                    !instruction_counts@.contains_key(pc) ==> #[trigger] fetches(
                        input.cpu_events@,
                        pc,
                    ) == 0,
                forall|j: int|
                    0 <= j < i ==> felts_view(#[trigger] values@.subrange(j * 37, (j + 1) * 37))
                        == program_row(input, j),
            decreases n - i,
        {
            let instruction = input.program.instructions[i];
            let pc: u32 = input.program.pc_base + (i as u32) * 4;
            let count: usize = match instruction_counts.get(&pc) {
                Some(c) => *c,
                None => 0,
            };
            proof {
                lemma_fetches_bound(input.cpu_events@, pc);
            }
            let mut row: Vec<Felt> = Vec::new();
            row.push(Felt::from_canonical_u32(pc));
            let ghost r0 = felts_view(row@);
            assert(r0 =~= seq![pc as int]);
            InstructionCols::<Felt>::populate(instruction).write_to(&mut row);
            let ghost r1 = felts_view(row@);
            OpcodeSelectorCols::<Felt>::populate(instruction).write_to(&mut row);
            let ghost r2 = felts_view(row@);
            row.push(Felt::from_canonical_u32(count as u32));
            proof {
                assert(felts_view(row@) =~= r2 + seq![count as int]);
                assert(count == fetches(input.cpu_events@, pc));
                assert(pc as int == pc_of(&*input.program, i as int));
                assert(felts_view(row@) =~= program_row(input, i as int));
            }
            append_row(&mut values, &row, NUM_PROGRAM_COLS, i);
            i = i + 1;
        }
        padded_trace(values, NUM_PROGRAM_COLS, n)
    }

    /// Declares the constraints and the interactions of the chip.
    pub fn eval(&self, builder: &mut AirBuilder)
        ensures
            final(builder).constraints@ == old(builder).constraints@ + program_constraints(),
            final(builder).sends == old(builder).sends,
            final(builder).receives_view() == old(builder).receives_view() + program_receives(),
    {
        // A constraint of degree three.
        builder.assert_eq(
            e_mul(e_mul(Expr::Local(0), Expr::Local(0)), Expr::Local(0)),
            e_mul(e_mul(Expr::Local(0), Expr::Local(0)), Expr::Local(0)),
        );

        // Constrain the interaction with the table of the steps.
        let mut values: Vec<Expr> = Vec::new();
        let mut i: usize = 0;
        while i < 36
            invariant
                i <= 36,
                values@ == Seq::new(i as nat, |k: int| s_col(k as usize)),
            decreases 36 - i,
        {
            values.push(Expr::Local(i));
            i = i + 1;
            assert(values@ =~= Seq::new(i as nat, |k: int| s_col(k as usize)));
        }
        builder.receive(
            Interaction { values, multiplicity: Expr::Local(36), kind: InteractionKind::Program },
        );
        proof {
            assert(builder.constraints@ =~= old(builder).constraints@ + program_constraints());
            assert(builder.receives_view() =~= old(builder).receives_view() + program_receives());
        }
    }
}

/// On every row, the constraint of the chip vanishes.
pub proof fn lemma_rows_satisfy_constraints(pt: Point<int>, i: int)
    requires
        0 <= i < program_constraints().len(),
    ensures
        program_constraints()[i].eval_base(pt) == 0,
{
    let t = s_mul(s_mul(s_col(0), s_col(0)), s_col(0));
    lemma_eval_ops(t, t, pt);
}

/// Whether the shard fits the table.
pub fn table_fits_check(record: &ExecutionRecord) -> (r: bool)
    ensures
        r == table_fits(record),
{
    let n = record.program.instructions.len();
    if n >= P as usize || record.cpu_events.len() >= P as usize {
        return false;
    }
    record.program.pc_base as u64 + 4 * (n as u64) < P as u64
}

} // verus!
