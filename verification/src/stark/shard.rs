//! A shard against the whole machine: the trace of every chip is made,
//! and every constraint of the chip is checked on every row of it. The
//! table of bytes comes last and counts the lookups that the rows of the
//! other chips rest on.

use crate::air::{all_within, Expr};
use crate::bytes::air::byte_constraints;
use crate::bytes::event::{lemma_occurrences_concat, occurrences};
use crate::bytes::trace::{counts_fit, multiplicity, multiplicity_row};
use crate::bytes::{lookup_of, ByteChip, ByteLookupEvent, ByteOpcode};
use crate::field::P;
use crate::program::Opcode;
use crate::record::{lemma_occurrences_bound, ExecutionRecord};
use crate::runtime::{alu_bucket, alu_event_right, alu_events_right, op_bucket, Runtime};
use crate::alu::sub::{
    lemma_padding_rows_satisfy_constraints, lemma_real_rows_satisfy_constraints, overflow_expr,
    sub_constraints, wrapping_sub_spec, SubChip, NUM_SUB_COLS,
};
use crate::stark::debug::{
    check_rows, fails_at, holds_on, row_point, ConstraintFailure, RowsError,
};
use crate::trace::padded_height;
use crate::stark::machine::{trace_rows, TableAir};
use crate::stark::riscv::RiscvAir;
use crate::syscall::precompiles::edwards::trace::lemma_ed_lookups_len;
use crate::syscall::precompiles::k256::trace::lemma_k256_lookups_len;
use vstd::prelude::*;

verus! {

/// Why a shard was not accepted; every reason names the chip.
#[derive(Debug)]
pub enum DebugError {
    /// The shard does not fit the table of the chip, or the chip names a
    /// column that its traces do not have.
    Shape(String),
    /// The chip has no trace of the shard.
    NoTrace(String),
    /// A constraint of the chip does not vanish on a row of its trace.
    Violation(String, ConstraintFailure),
}

/// The table of a chip is right: the shard fits it, there is a trace, and
/// every constraint of the chip vanishes on every row of the trace.
pub open spec fn table_accepted(air: &TableAir, input: &ExecutionRecord) -> bool {
    &&& air.fits(input)
    &&& air.has_rows(input)
    &&& all_within(
        air.constraints_spec(),
        air.preprocessed_width_spec() as int,
        air.width_spec() as int,
    )
    &&& holds_on(air.constraints_spec(), air.preprocessed_rows(), air.rows(input))
}

/// A chip accepts a shard where the shard has no rows for it or its table
/// is right.
pub open spec fn chip_accepted(air: &TableAir, input: &ExecutionRecord) -> bool {
    air.included_spec(input) ==> table_accepted(air, input)
}

/// The lookups of bytes that the rows of the first `n` chips rest on.
pub open spec fn lookups_before(record: &ExecutionRecord, n: nat) -> Seq<ByteLookupEvent>
    decreases n,
{
    if n == 0 {
        Seq::empty()
    } else {
        lookups_before(record, (n - 1) as nat) + TableAir::all_spec()[n - 1].lookups(record)
    }
}

/// The lookups of bytes that the rows of a shard rest on.
pub open spec fn shard_lookups(record: &ExecutionRecord) -> Seq<ByteLookupEvent> {
    lookups_before(record, 7)
}

/// How often the lookups hold the operation `op` on the pair of bytes of a
/// row of the table. The lookups of the most significant bit are counted
/// on the rows whose second byte is 255.
pub open spec fn byte_multiplicity(lookups: Seq<ByteLookupEvent>, op: ByteOpcode, b: u8, c: u8) -> int {
    if op == ByteOpcode::MSB && c != 255 {
        0
    } else {
        occurrences(lookups, lookup_of(op, b, c)) as int
    }
}

/// The rows of the table of bytes that counts `lookups`.
pub open spec fn byte_rows(lookups: Seq<ByteLookupEvent>) -> Seq<Seq<int>> {
    Seq::new(
        65536,
        |i: int|
            Seq::new(
                9,
                |j: int| byte_multiplicity(lookups, ByteOpcode::at(j), (i / 256) as u8, (i % 256) as u8),
            ),
    )
}

/// The machine accepts a shard: its lookups are few enough for every
/// count to be a field element; every chip but the table of bytes accepts
/// it; and the constraints of the table of bytes vanish on the table that
/// counts the lookups of the shard.
pub open spec fn shard_accepted(record: &ExecutionRecord) -> bool {
    &&& shard_lookups(record).len() < P
    &&& forall|i: int| 0 <= i < 7 ==> chip_accepted(&#[trigger] TableAir::all_spec()[i], record)
    &&& all_within(byte_constraints(), 11, 9)
    &&& holds_on(
        byte_constraints(),
        TableAir::ByteLookup(ByteChip).preprocessed_rows(),
        byte_rows(shard_lookups(record)),
    )
}

/// The lookups of a shard come from the two decompressions and from the
/// subtraction.
pub proof fn lemma_shard_lookups_len(record: &ExecutionRecord)
    ensures
        shard_lookups(record).len() == 32 * record.ed_decompress_events@.len() + 32
            * record.k256_decompress_events@.len() + 6 * record.sub_events@.len(),
{
    reveal_with_fuel(lookups_before, 8);
    lemma_ed_lookups_len(record.ed_decompress_events@);
    lemma_k256_lookups_len(record.k256_decompress_events@);
    crate::alu::sub::lemma_sub_lookups_len(record.sub_events@);
}

/// The lookups grow with the chips.
pub proof fn lemma_lookups_before_grow(record: &ExecutionRecord, i: nat, j: nat)
    requires
        i <= j,
    ensures
        lookups_before(record, i).len() <= lookups_before(record, j).len(),
    decreases j,
{
    if i < j {
        lemma_lookups_before_grow(record, i, (j - 1) as nat);
    }
}

/// A chip without rows in a shard rests on no lookups.
pub proof fn lemma_no_rows_no_lookups(air: &TableAir, record: &ExecutionRecord)
    requires
        !air.included_spec(record),
        !(air is ByteLookup),
    ensures
        air.lookups(record) == Seq::<ByteLookupEvent>::empty(),
{
}

/// Whether the lookups of a shard are fewer than the modulus.
fn lookups_fit(record: &ExecutionRecord) -> (r: bool)
    ensures
        r == (shard_lookups(record).len() < P),
{
    proof {
        lemma_shard_lookups_len(record);
    }
    let n_ed = record.ed_decompress_events.len();
    let n_k256 = record.k256_decompress_events.len();
    let n_sub = record.sub_events.len();
    if n_ed >= P as usize || n_k256 >= P as usize || n_sub >= P as usize {
        return false;
    }
    32 * (n_ed as u64) + 32 * (n_k256 as u64) + 6 * (n_sub as u64) < P as u64
}

/// Makes the trace of a chip and checks the constraints of the chip on
/// it.
fn check_table(air: &TableAir, input: &ExecutionRecord, output: &mut ExecutionRecord) -> (r:
    Result<(), DebugError>)
    requires
        air.fits(input),
        old(output).has_room(air.lookups(input).len()),
    ensures
        r is Ok <==> table_accepted(air, input),
        r is Ok ==> final(output).same_events(old(output)) && final(output).counts_grew_by(
            old(output),
            air.lookups(input),
        ),
        match r {
            Ok(()) => true,
            Err(DebugError::Shape(name)) => name@ == air.name_spec(),
            Err(DebugError::NoTrace(name)) => name@ == air.name_spec() && !air.has_rows(input),
            Err(DebugError::Violation(name, f)) => name@ == air.name_spec() && f.row
                < air.rows(input).len() && f.constraint < air.constraints_spec().len()
                && fails_at(
                air.constraints_spec(),
                air.preprocessed_rows(),
                air.rows(input),
                f.row as int,
                f.constraint as int,
            ),
        },
{
    let main = match air.generate_trace(input, output) {
        Some(t) => t,
        None => {
            return Err(DebugError::NoTrace(air.name()));
        },
    };
    let prep = air.generate_preprocessed_trace();
    let chip = air.chip();
    proof {
        assert(trace_rows(&main).len() == main.height());
        if prep is Some {
            let p = prep->Some_0;
            assert(trace_rows(&p).len() == p.height());
        }
    }
    match check_rows(&chip, &prep, &main) {
        Ok(()) => Ok(()),
        Err(RowsError::Shape) => Err(DebugError::Shape(air.name())),
        Err(RowsError::Violation(f)) => Err(DebugError::Violation(air.name(), f)),
    }
}

/// Checks a chip other than the table of bytes on a shard.
fn debug_chip(air: &TableAir, input: &ExecutionRecord, output: &mut ExecutionRecord) -> (r:
    Result<(), DebugError>)
    requires
        !(air is ByteLookup),
        old(output).has_room(air.lookups(input).len()),
    ensures
        r is Ok <==> chip_accepted(air, input),
        r is Ok ==> final(output).same_events(old(output)) && final(output).counts_grew_by(
            old(output),
            air.lookups(input),
        ),
        match r {
            Ok(()) => true,
            Err(DebugError::Shape(name)) => name@ == air.name_spec(),
            Err(DebugError::NoTrace(name)) => name@ == air.name_spec() && !air.has_rows(input),
            Err(DebugError::Violation(name, f)) => name@ == air.name_spec() && f.row
                < air.rows(input).len() && f.constraint < air.constraints_spec().len()
                && fails_at(
                air.constraints_spec(),
                air.preprocessed_rows(),
                air.rows(input),
                f.row as int,
                f.constraint as int,
            ),
        },
{
    if !air.included(input) {
        proof {
            lemma_no_rows_no_lookups(air, input);
            assert forall|e: ByteLookupEvent| #[trigger]
                output.byte_count(e) == output.byte_count(e) + occurrences(
                    air.lookups(input),
                    e,
                ) by {}
        }
        return Ok(());
    }
    if !air.fits_check(input) {
        return Err(DebugError::Shape(air.name()));
    }
    check_table(air, input, output)
}

/// The table of bytes of a record whose counts are those of `lookups` is
/// the table that counts `lookups`.
pub proof fn lemma_byte_rows(d: &ExecutionRecord, lookups: Seq<ByteLookupEvent>)
    requires
        forall|e: ByteLookupEvent| #[trigger] d.byte_count(e) == occurrences(lookups, e),
    ensures
        TableAir::ByteLookup(ByteChip).rows(d) == byte_rows(lookups),
{
    let a = TableAir::ByteLookup(ByteChip).rows(d);
    let b = byte_rows(lookups);
    assert forall|i: int| 0 <= i < 65536 implies #[trigger] a[i] == b[i] by {
        let x = (i / 256) as u8;
        let y = (i % 256) as u8;
        assert forall|j: int| 0 <= j < 9 implies #[trigger] a[i][j] == b[i][j] by {
            assert(multiplicity(d, ByteOpcode::at(j), x, y) == byte_multiplicity(
                lookups,
                ByteOpcode::at(j),
                x,
                y,
            ));
        }
        assert(a[i] =~= b[i]);
    }
    assert(a =~= b);
}

/// Checks a shard against the machine: the trace of every chip that has
/// rows in the shard is made, and every constraint of the chip is checked
/// on every row; last comes the table of bytes, which counts the lookups
/// of the other chips. The error names the first chip that did not accept
/// the shard.
pub fn debug_constraints(record: &ExecutionRecord) -> (r: Result<(), DebugError>)
    ensures
        r is Ok <==> shard_accepted(record),
        r matches Err(DebugError::NoTrace(name)) ==> exists|i: int|
            0 <= i < 7 && name@ == (#[trigger] TableAir::all_spec()[i]).name_spec()
                && !TableAir::all_spec()[i].has_rows(record),
        r matches Err(DebugError::Violation(name, f)) ==> exists|i: int|
            0 <= i < 8 && name@ == (#[trigger] TableAir::all_spec()[i]).name_spec()
                && f.constraint < TableAir::all_spec()[i].constraints_spec().len(),
{
    let chips = RiscvAir::tables();
    if !lookups_fit(record) {
        return Err(DebugError::Shape(chips[7].name()));
    }
    let mut deps = ExecutionRecord::new(record.index, record.program.clone());
    let ghost fresh = deps;
    let mut i: usize = 0;
    while i < 7
        invariant
            i <= 7,
            chips@ == TableAir::all_spec(),
            shard_lookups(record).len() < P,
            forall|e: ByteLookupEvent| #[trigger]
                deps.byte_count(e) == occurrences(lookups_before(record, i as nat), e),
            forall|j: int| 0 <= j < i ==> chip_accepted(&#[trigger] TableAir::all_spec()[j], record),
        decreases 7 - i,
    {
        let ghost before = lookups_before(record, i as nat);
        let ghost here = TableAir::all_spec()[i as int].lookups(record);
        proof {
            lemma_lookups_before_grow(record, (i + 1) as nat, 7);
            assert forall|e: ByteLookupEvent| #[trigger]
                deps.byte_count(e) + here.len() <= usize::MAX by {
                lemma_occurrences_bound(before, e);
            }
        }
        let ghost d0 = deps;
        match debug_chip(&chips[i], record, &mut deps) {
            Ok(()) => {},
            Err(e) => {
                proof {
                    assert(!chip_accepted(&TableAir::all_spec()[i as int], record));
                }
                return Err(e);
            },
        }
        proof {
            assert forall|e: ByteLookupEvent| #[trigger]
                deps.byte_count(e) == occurrences(lookups_before(record, (i + 1) as nat), e) by {
                lemma_occurrences_concat(before, here, e);
                assert(deps.byte_count(e) == d0.byte_count(e) + occurrences(here, e));
            }
        }
        i = i + 1;
    }
    let ghost lookups = shard_lookups(record);
    proof {
        assert forall|e: ByteLookupEvent| #[trigger] deps.byte_count(e) < P by {
            lemma_occurrences_bound(lookups, e);
        }
        lemma_byte_rows(&deps, lookups);
    }
    let mut scratch = ExecutionRecord::new(record.index, record.program.clone());
    check_table(&chips[7], &deps, &mut scratch)
}

/// Every column that a constraint of the subtraction names is one of the
/// sixteen of its trace.
pub proof fn lemma_sub_constraints_within()
    ensures
        all_within(sub_constraints(), 0, 16),
{
    reveal_with_fuel(Expr::within, 8);
    let cs = sub_constraints();
    assert forall|i: int| 0 <= i < cs.len() implies (#[trigger] cs[i]).within(0, 16) by {
        assert(overflow_expr(0).within(0, 16));
        assert(overflow_expr(1).within(0, 16));
        assert(overflow_expr(2).within(0, 16));
        assert(overflow_expr(3).within(0, 16));
        if i == 0 {
        } else if i == 1 {
        } else if i == 2 {
        } else if i == 3 {
        } else if i == 4 {
        } else if i == 5 {
        } else if i == 6 {
        } else if i == 7 {
        } else if i == 8 {
        } else if i == 9 {
        } else if i == 10 {
        } else if i == 11 {
        } else if i == 12 {
        } else {
        }
    }
}

/// The chip of the subtraction accepts every shard whose subtractions are
/// right: on the row of an event whose result is the difference on 32 bits,
/// and on the rows that fill the trace up, every constraint vanishes.
pub proof fn lemma_right_subtractions_are_accepted(record: &ExecutionRecord)
    requires
        forall|i: int|
            0 <= i < record.sub_events@.len() ==> (#[trigger] record.sub_events@[i]).a as int
                == wrapping_sub_spec(record.sub_events@[i].b, record.sub_events@[i].c),
        padded_height(record.sub_events@.len()) * NUM_SUB_COLS <= usize::MAX,
    ensures
        chip_accepted(&TableAir::Sub(SubChip), record),
{
    lemma_sub_constraints_within();
    let air = TableAir::Sub(SubChip);
    let rows = air.rows(record);
    let prep = air.preprocessed_rows();
    let cs = sub_constraints();
    let n = record.sub_events@.len();
    crate::trace::lemma_padded_height(n);
    assert forall|r: int, k: int| 0 <= r < rows.len() && 0 <= k < cs.len() implies !#[trigger] fails_at(
        cs,
        prep,
        rows,
        r,
        k,
    ) by {
        let pt = row_point(prep, rows, r);
        if r < n {
            lemma_real_rows_satisfy_constraints(record.sub_events@[r], pt, k);
        } else {
            lemma_padding_rows_satisfy_constraints(pt, k);
        }
    }
}

/// From the engine to the constraints: the chip of the subtraction
/// accepts every shard of a run, so far as the trace of the shard is no
/// longer than a vector can be. The engine records for every subtraction
/// the difference on 32 bits, and on the row of such an event every
/// constraint of the chip vanishes.
pub proof fn lemma_runs_subtract_right(rt: &Runtime, n: int)
    requires
        rt.shards_wf(),
        0 <= n < rt.shards@.len(),
        padded_height(rt.shards@[n].sub_events@.len()) * NUM_SUB_COLS <= usize::MAX,
    ensures
        chip_accepted(&TableAir::Sub(SubChip), &rt.shards@[n]),
{
    let record = &rt.shards@[n];
    rt.lemma_shards_hold_right_events(n);
    reveal(alu_events_right);
    assert forall|i: int| 0 <= i < record.sub_events@.len() implies (
    #[trigger] record.sub_events@[i]).a as int == wrapping_sub_spec(
        record.sub_events@[i].b,
        record.sub_events@[i].c,
    ) by {
        let e = alu_bucket(record, Opcode::SUB)[i];
        assert(alu_event_right(e));
        assert(op_bucket(e.opcode) == op_bucket(Opcode::SUB));
        assert(e.opcode == Opcode::SUB);
    }
    lemma_right_subtractions_are_accepted(record);
}

} // verus!
