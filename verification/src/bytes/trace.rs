//! The traces of the table of bytes: the preprocessed table of results,
//! and the multiplicities of a shard.

use crate::air::felts_view;
use crate::bytes::columns::{NUM_BYTE_MULT_COLS, NUM_BYTE_PREPROCESSED_COLS};
use crate::bytes::event::{ByteLookupEvent, ByteOpcode, NUM_BYTE_OPS};
use crate::bytes::{byte_op, byte_result, lookup_for, lookup_of, ByteChip, NUM_BYTE_ROWS};
use crate::field::{Felt, P};
use crate::record::ExecutionRecord;
use crate::trace::{append_row, Trace};
use vstd::prelude::*;

verus! {

/// The preprocessed row of a pair of bytes.
pub open spec fn preprocessed_row(b: u8, c: u8) -> Seq<int> {
    seq![
        b as int,
        c as int,
        byte_result(ByteOpcode::AND, b, c).0 as int,
        byte_result(ByteOpcode::OR, b, c).0 as int,
        byte_result(ByteOpcode::XOR, b, c).0 as int,
        byte_result(ByteOpcode::SLL, b, c).0 as int,
        byte_result(ByteOpcode::ShrCarry, b, c).0 as int,
        byte_result(ByteOpcode::ShrCarry, b, c).1 as int,
        byte_result(ByteOpcode::LTU, b, c).0 as int,
        byte_result(ByteOpcode::MSB, b, c).0 as int,
        byte_result(ByteOpcode::U16Range, b, c).0 as int,
    ]
}

/// How often the shard looked an operation up on the pair of bytes of a
/// row. The lookups of the most significant bit are counted on the rows
/// whose second byte is 255.
pub open spec fn multiplicity(record: &ExecutionRecord, op: ByteOpcode, b: u8, c: u8) -> int {
    if op == ByteOpcode::MSB && c != 255 {
        0
    } else {
        record.byte_count(lookup_of(op, b, c)) as int
    }
}

/// The row of multiplicities of a pair of bytes.
pub open spec fn multiplicity_row(record: &ExecutionRecord, b: u8, c: u8) -> Seq<int> {
    Seq::new(9, |i: int| multiplicity(record, ByteOpcode::at(i), b, c))
}

/// Every count of the shard is a canonical field element.
pub open spec fn counts_fit(record: &ExecutionRecord) -> bool {
    forall|e: ByteLookupEvent| #[trigger] record.byte_count(e) < P
}

impl ByteChip {
    pub fn new() -> (r: Self)
        ensures
            r == ByteChip,
    {
        ByteChip
    }

    /// The name of the chip.
    pub fn name(&self) -> (r: String)
        ensures
            r@ == "Byte"@,
    {
        "Byte".to_string()
    }

    /// The number of columns of the main trace.
    pub fn width(&self) -> (r: usize)
        ensures
            r == NUM_BYTE_MULT_COLS,
    {
        NUM_BYTE_MULT_COLS
    }

    /// The number of columns of the preprocessed trace.
    pub fn preprocessed_width(&self) -> (r: usize)
        ensures
            r == NUM_BYTE_PREPROCESSED_COLS,
    {
        NUM_BYTE_PREPROCESSED_COLS
    }

    /// Whether the shard needs the table at all.
    pub fn included(&self, shard: &ExecutionRecord) -> (r: bool)
        ensures
            r == (shard.byte_lookups@.len() > 0),
    {
        shard.byte_lookups.len() > 0
    }

    /// The preprocessed table: row `256 b + c` holds the pair of bytes `b`
    /// and `c` and the results of all operations on it.
    pub fn generate_preprocessed_trace(&self) -> (trace: Trace)
        ensures
            trace.width == NUM_BYTE_PREPROCESSED_COLS,
            trace.values@.len() == NUM_BYTE_ROWS * NUM_BYTE_PREPROCESSED_COLS,
            forall|b: u8, c: u8| #[trigger]
                trace.row(256 * b + c) == preprocessed_row(b, c),
    {
        let mut values: Vec<Felt> = Vec::new();
        let mut r: usize = 0;
        while r < 65536
            invariant
                r <= 65536,
                values@.len() == r * 11,
                forall|k: int|
                    0 <= k < r ==> felts_view(#[trigger] values@.subrange(k * 11, (k + 1) * 11))
                        == preprocessed_row((k / 256) as u8, (k % 256) as u8),
            decreases 65536 - r,
        {
            let b: u8 = (r / 256) as u8;
            let c: u8 = (r % 256) as u8;
            let (shr, carry) = byte_op(ByteOpcode::ShrCarry, b, c);
            let mut row: Vec<Felt> = Vec::new();
            row.push(Felt::from_canonical_u8(b));
            row.push(Felt::from_canonical_u8(c));
            row.push(Felt::from_canonical_u32(byte_op(ByteOpcode::AND, b, c).0 as u32));
            row.push(Felt::from_canonical_u32(byte_op(ByteOpcode::OR, b, c).0 as u32));
            row.push(Felt::from_canonical_u32(byte_op(ByteOpcode::XOR, b, c).0 as u32));
            row.push(Felt::from_canonical_u32(byte_op(ByteOpcode::SLL, b, c).0 as u32));
            row.push(Felt::from_canonical_u32(shr as u32));
            row.push(Felt::from_canonical_u8(carry));
            row.push(Felt::from_canonical_u32(byte_op(ByteOpcode::LTU, b, c).0 as u32));
            row.push(Felt::from_canonical_u32(byte_op(ByteOpcode::MSB, b, c).0 as u32));
            row.push(Felt::from_canonical_u32(byte_op(ByteOpcode::U16Range, b, c).0 as u32));
            assert(felts_view(row@) =~= preprocessed_row(b, c));
            append_row(&mut values, &row, NUM_BYTE_PREPROCESSED_COLS, r);
            r = r + 1;
        }
        let trace = Trace { values, width: NUM_BYTE_PREPROCESSED_COLS };
        assert forall|b: u8, c: u8| #[trigger]
            trace.row(256 * b + c) == preprocessed_row(b, c) by {
            let k = 256 * b + c;
            assert((k / 256) as u8 == b && (k % 256) as u8 == c);
            assert(trace.values@.subrange(k * 11, (k + 1) * 11) == trace.values@.subrange(
                k * 11,
                (k + 1) * 11,
            ));
        }
        trace
    }

    /// The trace of the chip for a shard: row `256 b + c` holds, for each of
    /// the nine operations, how often the shard looked it up on the pair
    /// of bytes `b` and `c`.
    pub fn generate_trace(&self, input: &ExecutionRecord, output: &mut ExecutionRecord) -> (trace:
        Trace)
        requires
            counts_fit(input),
        ensures
            trace.width == NUM_BYTE_MULT_COLS,
            trace.values@.len() == NUM_BYTE_ROWS * NUM_BYTE_MULT_COLS,
            forall|b: u8, c: u8| #[trigger]
                trace.row(256 * b + c) == multiplicity_row(input, b, c),
            *final(output) == *old(output),
    {
        let ops = ByteOpcode::all();
        let mut values: Vec<Felt> = Vec::new();
        let mut r: usize = 0;
        while r < 65536
            invariant
                r <= 65536,
                counts_fit(input),
                ops@.len() == 9,
                forall|i: int| 0 <= i < 9 ==> ops@[i] == ByteOpcode::at(i),
                values@.len() == r * 9,
                forall|k: int|
                    0 <= k < r ==> felts_view(#[trigger] values@.subrange(k * 9, (k + 1) * 9))
                        == multiplicity_row(input, (k / 256) as u8, (k % 256) as u8),
            decreases 65536 - r,
        {
            let b: u8 = (r / 256) as u8;
            let c: u8 = (r % 256) as u8;
            let mut row: Vec<Felt> = Vec::new();
            let mut i: usize = 0;
            while i < 9
                invariant
                    i <= 9,
                    counts_fit(input),
                    ops@.len() == 9,
                    forall|j: int| 0 <= j < 9 ==> ops@[j] == ByteOpcode::at(j),
                    row@.len() == i,
                    forall|j: int|
                        0 <= j < i ==> (#[trigger] row@[j])@ == multiplicity(
                            input,
                            ByteOpcode::at(j),
                            b,
                            c,
                        ),
                decreases 9 - i,
            {
                let op = ops[i];
                let event = lookup_for(op, b, c);
                let count: usize = if op == ByteOpcode::MSB && c != 255 {
                    0
                } else {
                    match input.byte_lookups.get(&event.key()) {
                        Some(n) => *n,
                        None => 0,
                    }
                };
                assert(input.byte_count(event) < P);
                row.push(Felt::from_canonical_u32(count as u32));
                i = i + 1;
            }
            assert(felts_view(row@) =~= multiplicity_row(input, b, c));
            append_row(&mut values, &row, NUM_BYTE_MULT_COLS, r);
            r = r + 1;
        }
        let trace = Trace { values, width: NUM_BYTE_MULT_COLS };
        assert forall|b: u8, c: u8| #[trigger]
            trace.row(256 * b + c) == multiplicity_row(input, b, c) by {
            let k = 256 * b + c;
            assert((k / 256) as u8 == b && (k % 256) as u8 == c);
            assert(trace.values@.subrange(k * 9, (k + 1) * 9) == trace.values@.subrange(
                k * 9,
                (k + 1) * 9,
            ));
        }
        trace
    }
}

} // verus!
