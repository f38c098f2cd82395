//! Events: immutable records of the micro-operations that the engine
//! performed. An event is data; it is made once and never changed.

use crate::program::{Instruction, Opcode};
use vstd::prelude::*;

verus! {

/// An arithmetic or logic operation: `a` is the result of `opcode` on `b`
/// and `c`.
#[derive(Clone, Copy, Debug, PartialEq, Eq, Structural)]
pub struct AluEvent {
    pub clk: u32,
    pub opcode: Opcode,
    pub a: u32,
    pub b: u32,
    pub c: u32,
}

impl AluEvent {
    pub fn new(clk: u32, opcode: Opcode, a: u32, b: u32, c: u32) -> (r: AluEvent)
        ensures
            r == (AluEvent { clk, opcode, a, b, c }),
    {
        AluEvent { clk, opcode, a, b, c }
    }
}

/// What memory holds for one address: the value, and the shard and clock of
/// the access that left it there.
#[derive(Clone, Copy, Debug, PartialEq, Eq, Structural)]
pub struct MemoryRecord {
    pub value: u32,
    pub shard: u32,
    pub timestamp: u32,
}

/// A read: the value read, when it was read, and when the address was last
/// accessed before.
#[derive(Clone, Copy, Debug, PartialEq, Eq, Structural)]
pub struct MemoryReadRecord {
    pub value: u32,
    pub shard: u32,
    pub timestamp: u32,
    pub prev_shard: u32,
    pub prev_timestamp: u32,
}

/// A write: the value written, when it was written, and the value and time
/// that the address held before.
#[derive(Clone, Copy, Debug, PartialEq, Eq, Structural)]
pub struct MemoryWriteRecord {
    pub value: u32,
    pub shard: u32,
    pub timestamp: u32,
    pub prev_value: u32,
    pub prev_shard: u32,
    pub prev_timestamp: u32,
}

/// A read or a write.
#[derive(Clone, Copy, Debug, PartialEq, Eq, Structural)]
pub enum MemoryRecordEnum {
    Read(MemoryReadRecord),
    Write(MemoryWriteRecord),
}

/// The state of one address at a boundary of a shard.
#[derive(Clone, Copy, Debug, PartialEq, Eq, Structural)]
pub struct MemoryBoundaryEvent {
    pub addr: u32,
    pub value: u32,
    pub shard: u32,
    pub timestamp: u32,
}

/// One step of the machine: the instruction, the values of its operands and
/// the accesses that the step made.
#[derive(Clone, Copy, Debug)]
pub struct CpuEvent {
    pub shard: u32,
    pub clk: u32,
    pub pc: u32,
    pub next_pc: u32,
    pub instruction: Instruction,
    pub a: u32,
    pub a_record: Option<MemoryRecordEnum>,
    pub b: u32,
    pub b_record: Option<MemoryRecordEnum>,
    pub c: u32,
    pub c_record: Option<MemoryRecordEnum>,
    pub memory: Option<u32>,
    pub memory_record: Option<MemoryRecordEnum>,
}

/// One extension of a SHA-256 message schedule from 16 to 64 words.
#[derive(Debug)]
pub struct ShaExtendEvent {
    pub shard: u32,
    pub clk: u32,
    pub w_ptr: u32,
    pub w_i_minus_15_reads: Vec<MemoryReadRecord>,
    pub w_i_minus_2_reads: Vec<MemoryReadRecord>,
    pub w_i_minus_16_reads: Vec<MemoryReadRecord>,
    pub w_i_minus_7_reads: Vec<MemoryReadRecord>,
    pub w_i_writes: Vec<MemoryWriteRecord>,
}

/// One run of the SHA-256 compression function.
#[derive(Debug)]
pub struct ShaCompressEvent {
    pub shard: u32,
    pub clk: u32,
    pub w_ptr: u32,
    pub h_ptr: u32,
    pub w: Vec<u32>,
    pub h: [u32; 8],
    pub h_read_records: Vec<MemoryReadRecord>,
    pub w_i_read_records: Vec<MemoryReadRecord>,
    pub h_write_records: Vec<MemoryWriteRecord>,
}

/// One run of the inner loop of the BLAKE3 compression function. The reads
/// and writes are in the order in which they were made.
#[derive(Debug)]
pub struct Blake3CompressInnerEvent {
    pub shard: u32,
    pub clk: u32,
    pub state_ptr: u32,
    pub message_ptr: u32,
    pub message_reads: Vec<MemoryReadRecord>,
    pub state_writes: Vec<MemoryWriteRecord>,
}

} // verus!
