//! Decompression of a point of ed25519: from its `y` coordinate and the
//! sign of `x`, the coordinate `x`.

use crate::events::{MemoryReadRecord, MemoryWriteRecord};
use crate::record::ExecutionRecord;
use crate::runtime::memory::{timed_reads, timed_writes};
use crate::runtime::{check_range, range_fault, ExecutionError, Machine, Runtime};
use crate::syscall::precompiles::sha256::compress::execute::{words_at, write_words};
use crate::syscall::SyscallCode;
use crate::utils::bigint::{bytes_to_words, bytes_to_words_le, le_nat, words_to_bytes, words_to_bytes_le};
use crate::utils::ec::edwards::ed25519::{decompress, decompress_spec};
use vstd::prelude::*;

verus! {

/// One decompression: the slice at `ptr` held the compressed `y` in its
/// second half; the first half was overwritten with the `x` found.
#[derive(Debug)]
pub struct EdDecompressEvent {
    pub shard: u32,
    pub clk: u32,
    pub ptr: u32,
    pub sign: bool,
    pub y_bytes: [u8; 32],
    pub decompressed_x_bytes: [u8; 32],
    pub x_memory_records: [MemoryWriteRecord; 8],
    pub y_memory_records: [MemoryReadRecord; 8],
}

/// The chip of the decompression.
#[derive(Default)]
pub struct EdDecompressChip;

/// The bytes of `y` with the bit of the sign cleared.
pub open spec fn without_sign_bit(y_bytes: Seq<u8>) -> Seq<u8> {
    y_bytes.update(31, (y_bytes[31] % 128) as u8)
}

/// The fault, if any, that the arguments of a decompression lead to, before
/// the root is looked for.
pub open spec fn ed_decompress_fault(ptr: u32, sign: u32) -> Option<ExecutionError> {
    if range_fault(ptr, 16) is Some {
        range_fault(ptr, 16)
    } else if sign > 1 {
        Some(ExecutionError::InvalidSyscallArguments(SyscallCode::ED_DECOMPRESS.id_spec()))
    } else {
        None
    }
}

/// The `y` that the slice at `ptr` holds: the eight words of its second
/// half, without the bit of the sign.
pub open spec fn y_at(values: Map<u32, u32>, ptr: u32) -> nat {
    le_nat(without_sign_bit(words_to_bytes(words_at(values, (ptr + 32) as u32, 8))))
}

impl EdDecompressChip {
    pub fn new() -> (r: Self)
        ensures
            r == EdDecompressChip,
    {
        EdDecompressChip
    }

    /// The clock ticks that the call takes beyond those of its instruction.
    pub fn num_extra_cycles(&self) -> (r: u32)
        ensures
            r == 0,
    {
        0
    }

    /// Decompresses the point whose `y` stands in the second half of the
    /// sixteen words at `arg1`, with the sign `sign`, and writes `x` into the
    /// first half. Where there is no such point, the call is refused.
    pub fn execute(&self, rt: &mut Runtime, arg1: u32, sign: u32) -> (r: Result<
        Option<u32>,
        ExecutionError,
    >)
        requires
            old(rt).state.memory.wf(),
        ensures
            match r {
                Ok(v) => {
                    let x = decompress_spec(y_at(old(rt).machine().values, arg1), sign != 0);
                    &&& v is None
                    &&& ed_decompress_fault(arg1, sign) is None
                    &&& x is Some
                    &&& final(rt).precompile_frame(old(rt), 0)
                    &&& final(rt).record == (ExecutionRecord {
                        ed_decompress_events: final(rt).record.ed_decompress_events,
                        ..old(rt).record
                    })
                    &&& final(rt).record.ed_decompress_events@.len() == old(rt).record.ed_decompress_events@.len() + 1
                    &&& ({
                        let e = final(rt).record.ed_decompress_events@.last();
                        &&& e.shard == old(rt).state.memory.shard
                        &&& e.clk == old(rt).state.clk
                        &&& e.ptr == arg1
                        &&& e.sign == (sign != 0)
                        &&& e.y_bytes@ == words_to_bytes(
                            words_at(old(rt).machine().values, (arg1 + 32) as u32, 8),
                        )
                        &&& le_nat(e.decompressed_x_bytes@) == x->0
                        &&& ({
                            let reads = timed_reads(
                                old(rt).state.memory.entries(),
                                (arg1 + 32) as u32,
                                old(rt).state.memory.shard,
                                old(rt).state.clk,
                                8,
                            );
                            &&& e.y_memory_records@ == reads.1
                            &&& (final(rt).state.memory.entries(), e.x_memory_records@)
                                == timed_writes(
                                reads.0,
                                arg1,
                                bytes_to_words(e.decompressed_x_bytes@),
                                old(rt).state.memory.shard,
                                old(rt).state.clk,
                                8,
                            )
                        })
                        &&& final(rt).machine().values == write_words(
                            old(rt).machine().values,
                            arg1,
                            bytes_to_words(e.decompressed_x_bytes@),
                            8,
                        )
                    })
                },
                Err(e) => {
                    if ed_decompress_fault(arg1, sign) is Some {
                        ed_decompress_fault(arg1, sign) == Some(e) && *final(rt) == *old(rt)
                    } else {
                        &&& final(rt).same_but_memory(old(rt))
                        &&& final(rt).machine() == old(rt).machine()
                        &&& final(rt).state.memory.entries() == timed_reads(
                            old(rt).state.memory.entries(),
                            (arg1 + 32) as u32,
                            old(rt).state.memory.shard,
                            old(rt).state.clk,
                            8,
                        ).0
                        &&& decompress_spec(y_at(old(rt).machine().values, arg1), sign != 0) is None
                        &&& e == ExecutionError::InvalidSyscallArguments(
                            SyscallCode::ED_DECOMPRESS.id_spec(),
                        )
                    }
                },
            },
    {
        let start_clk = rt.state.clk;
        let slice_ptr = arg1;
        match check_range(slice_ptr, 16) {
            Some(e) => {
                return Err(e);
            },
            None => {},
        }
        if sign > 1 {
            return Err(
                ExecutionError::InvalidSyscallArguments(SyscallCode::ED_DECOMPRESS.syscall_id()),
            );
        }
        let ghost values0 = rt.machine().values;
        let (y_memory_records, y_vec) = rt.mr_slice(slice_ptr + 32);
        let sign_bool = sign != 0;
        assert(y_vec@ =~= words_at(values0, (arg1 + 32) as u32, 8));
        let y_bytes = words_to_bytes_le(&y_vec);

        // The decompression works on `y` without the bit of the sign.
        let mut compressed_edwards_y = y_bytes;
        compressed_edwards_y[31] = compressed_edwards_y[31] % 128;
        assert(compressed_edwards_y@ =~= without_sign_bit(y_bytes@));

        // Compute actual decompressed X
        let decompressed_x_bytes = match decompress(&compressed_edwards_y, sign_bool) {
            Some(x) => x,
            None => {
                return Err(
                    ExecutionError::InvalidSyscallArguments(
                        SyscallCode::ED_DECOMPRESS.syscall_id(),
                    ),
                );
            },
        };
        let decompressed_x_words = bytes_to_words_le(&decompressed_x_bytes);

        // Write decompressed X into slice
        let x_memory_records = rt.mw_slice(slice_ptr, &decompressed_x_words);
        let shard = rt.current_shard();
        rt.record.ed_decompress_events.push(
            EdDecompressEvent {
                shard,
                clk: start_clk,
                ptr: slice_ptr,
                sign: sign_bool,
                y_bytes,
                decompressed_x_bytes,
                x_memory_records,
                y_memory_records,
            },
        );
        Ok(None)
    }
}

} // verus!
