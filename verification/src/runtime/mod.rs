//! The execution engine: it interprets a program one instruction at a
//! time and records every micro-operation as an event.
//!
//! The machine state is owned by the engine alone. Whatever reads or
//! writes a register or a word of memory goes through the accessors here,
//! which leave a record of the access behind.

pub mod ecall;
pub mod execute;
pub mod io;
pub mod memory;
pub mod semantics;
pub mod step;

use crate::events::{
    AluEvent, CpuEvent, MemoryBoundaryEvent, MemoryReadRecord, MemoryRecordEnum,
    MemoryWriteRecord,
};
use crate::program::{Instruction, Opcode, Program};
use crate::record::ExecutionRecord;
use crate::runtime::memory::{timed_read, timed_reads, timed_write, timed_writes};
use crate::runtime::memory::{apply_op, MemOp, Memory};
use crate::runtime::semantics::{
    access_alignment, alu, alu_spec, branch_taken, branch_taken_spec, load, load_value, store,
    store_value, wrap,
};
use std::sync::Arc;
use vstd::prelude::*;

verus! {

/// The number of registers.
pub const NUM_REGISTERS: u32 = 32;

/// The clock ticks that one instruction takes.
pub const CYCLES_PER_INSTRUCTION: u32 = 4;

/// The number of steps that a shard holds where nothing else is asked for.
pub const DEFAULT_SHARD_SIZE: u32 = 524288;

/// Why a run was aborted. There is no recovery from any of these.
#[derive(Clone, Copy, Debug, PartialEq, Eq, Structural)]
pub enum ExecutionError {
    /// The instruction at this address is none that the machine executes.
    Unimplemented(u32),
    /// The instruction at this address is a breakpoint.
    Breakpoint(u32),
    /// A load or store at this address, which is not aligned as the
    /// operation requires.
    MisalignedAccess(u32),
    /// A load or store at this address, which no memory is mapped at.
    UnmappedAccess(u32),
    /// An operand names this register, which the machine does not have.
    InvalidRegister(u32),
    /// A call with this code, which no handler is registered for.
    UnsupportedSyscall(u32),
    /// A call whose arguments its handler does not accept.
    InvalidSyscallArguments(u32),
    /// A clock or the number of the shard left the range of its counter.
    ClockOverflow,
}

/// The state of the machine.
pub struct ExecutionState {
    /// The number of instructions executed so far.
    pub global_clk: u64,
    /// The clock within the current shard.
    pub clk: u32,
    /// The program counter.
    pub pc: u32,
    /// The registers and the memory.
    pub memory: Memory,
    /// The bytes that the program may read.
    pub input_stream: Vec<u8>,
    /// How many bytes of the input the program has read.
    pub input_stream_ptr: usize,
    /// The bytes that the program wrote.
    pub output_stream: Vec<u8>,
    /// How many bytes of the output were read back.
    pub output_stream_ptr: usize,
}

/// The engine.
pub struct Runtime {
    /// The program that runs.
    pub program: Arc<Program>,
    /// The state of the machine.
    pub state: ExecutionState,
    /// The events of the current shard.
    pub record: ExecutionRecord,
    /// The records of the shards that are complete, in order.
    pub shards: Vec<ExecutionRecord>,
    /// The number of steps after which a shard is complete.
    pub shard_size: u32,
}

/// What a program sees of the machine: the program counter; the word at
/// every address, the registers being the first thirty-two; the input and
/// how much of it was read; the output; and the digest of the public
/// values.
pub struct Machine {
    pub pc: u32,
    pub values: Map<u32, u32>,
    pub input: Seq<u8>,
    pub input_ptr: int,
    pub output: Seq<u8>,
    pub digest: Seq<u32>,
}

/// What an instruction leads to: the next state, or a fault.
pub enum Outcome {
    Next(Machine),
    Fault(ExecutionError),
}

/// The values after a write of `a` to register `rd`: the register zero
/// always holds zero.
pub open spec fn write_register(values: Map<u32, u32>, rd: u32, a: u32) -> Map<u32, u32> {
    values.insert(
        rd,
        if rd == 0 {
            0
        } else {
            a
        },
    )
}

/// The word that holds the byte at `addr`.
pub open spec fn aligned(addr: u32) -> u32 {
    (addr - addr % 4) as u32
}

/// The fault, if any, that a load or store at `addr` runs into.
pub open spec fn access_fault(op: Opcode, addr: u32) -> Option<ExecutionError> {
    if addr as int % access_alignment(op) != 0 {
        Some(ExecutionError::MisalignedAccess(addr))
    } else if aligned(addr) < NUM_REGISTERS {
        Some(ExecutionError::UnmappedAccess(addr))
    } else {
        None
    }
}

/// The fault, if any, of an access to `words` words from `ptr` on: the
/// words must be aligned, lie above the registers and end within the
/// address space.
pub open spec fn range_fault(ptr: u32, words: int) -> Option<ExecutionError> {
    if ptr % 4 != 0 {
        Some(ExecutionError::MisalignedAccess(ptr))
    } else if ptr < NUM_REGISTERS || ptr + 4 * words > 0x1_0000_0000 {
        Some(ExecutionError::UnmappedAccess(ptr))
    } else {
        None
    }
}

/// The fault, if any, of an access to `words` words from `ptr` on.
pub fn check_range(ptr: u32, words: u32) -> (r: Option<ExecutionError>)
    requires
        words <= 0x1000_0000,
    ensures
        r == range_fault(ptr, words as int),
{
    if ptr % 4 != 0 {
        Some(ExecutionError::MisalignedAccess(ptr))
    } else if ptr < NUM_REGISTERS || (ptr as u64) + 4 * (words as u64) > 0x1_0000_0000 {
        Some(ExecutionError::UnmappedAccess(ptr))
    } else {
        None
    }
}

/// The first of the registers named that the machine does not have.
pub open spec fn first_bad_register(regs: Seq<u32>) -> Option<u32>
    decreases regs.len(),
{
    if regs.len() == 0 {
        None
    } else if regs[0] >= NUM_REGISTERS {
        Some(regs[0])
    } else {
        first_bad_register(regs.drop_first())
    }
}

/// The registers that an instruction names, in the order in which they are
/// looked at.
pub open spec fn registers_named(i: Instruction) -> Seq<u32> {
    match i.opcode {
        Opcode::JAL | Opcode::AUIPC => seq![i.op_a],
        Opcode::JALR
        | Opcode::LB
        | Opcode::LH
        | Opcode::LW
        | Opcode::LBU
        | Opcode::LHU => seq![i.op_a, i.op_b],
        Opcode::SB
        | Opcode::SH
        | Opcode::SW
        | Opcode::BEQ
        | Opcode::BNE
        | Opcode::BLT
        | Opcode::BGE
        | Opcode::BLTU
        | Opcode::BGEU => seq![i.op_a, i.op_b],
        Opcode::ECALL | Opcode::EBREAK | Opcode::UNIMP => seq![],
        _ => if !i.imm_c {
            seq![i.op_a, i.op_b, i.op_c]
        } else if !i.imm_b {
            seq![i.op_a, i.op_b]
        } else {
            seq![i.op_a]
        },
    }
}

/// The second and third operand of an arithmetic or logic instruction.
pub open spec fn alu_operands(i: Instruction, values: Map<u32, u32>) -> (u32, u32) {
    if !i.imm_c {
        (values[i.op_b], values[i.op_c])
    } else if !i.imm_b {
        (values[i.op_b], i.op_c)
    } else {
        (i.op_b, i.op_c)
    }
}

/// Whether the opcode is a load.
pub open spec fn is_load(op: Opcode) -> bool {
    op == Opcode::LB || op == Opcode::LH || op == Opcode::LW || op == Opcode::LBU || op
        == Opcode::LHU
}

/// Whether the opcode is a store.
pub open spec fn is_store(op: Opcode) -> bool {
    op == Opcode::SB || op == Opcode::SH || op == Opcode::SW
}

/// Whether the opcode is a branch.
pub open spec fn is_branch(op: Opcode) -> bool {
    op == Opcode::BEQ || op == Opcode::BNE || op == Opcode::BLT || op == Opcode::BGE || op
        == Opcode::BLTU || op == Opcode::BGEU
}

/// What an instruction of arithmetic or logic leads to.
pub open spec fn alu_outcome(i: Instruction, m: Machine) -> Outcome {
    let (b, c) = alu_operands(i, m.values);
    Outcome::Next(
        Machine {
            pc: wrap(m.pc + 4),
            values: write_register(m.values, i.op_a, alu_spec(i.opcode, b, c)),
            ..m
        },
    )
}

/// What a load leads to.
pub open spec fn load_outcome(i: Instruction, m: Machine) -> Outcome {
    let addr = wrap(m.values[i.op_b] + i.op_c);
    if access_fault(i.opcode, addr) is Some {
        Outcome::Fault(access_fault(i.opcode, addr)->0)
    } else {
        Outcome::Next(
            Machine {
                pc: wrap(m.pc + 4),
                values: write_register(
                    m.values,
                    i.op_a,
                    load_value(i.opcode, m.values[aligned(addr)], addr as int % 4),
                ),
                ..m
            },
        )
    }
}

/// What a store leads to.
pub open spec fn store_outcome(i: Instruction, m: Machine) -> Outcome {
    let addr = wrap(m.values[i.op_b] + i.op_c);
    if access_fault(i.opcode, addr) is Some {
        Outcome::Fault(access_fault(i.opcode, addr)->0)
    } else {
        Outcome::Next(
            Machine {
                pc: wrap(m.pc + 4),
                values: m.values.insert(
                    aligned(addr),
                    store_value(
                        i.opcode,
                        m.values[aligned(addr)],
                        m.values[i.op_a],
                        addr as int % 4,
                    ),
                ),
                ..m
            },
        )
    }
}

/// What a branch leads to.
pub open spec fn branch_outcome(i: Instruction, m: Machine) -> Outcome {
    Outcome::Next(
        Machine {
            pc: if branch_taken_spec(i.opcode, m.values[i.op_a], m.values[i.op_b]) {
                wrap(m.pc + i.op_c)
            } else {
                wrap(m.pc + 4)
            },
            ..m
        },
    )
}

/// What a jump, or the addition of an immediate to the program counter,
/// leads to.
pub open spec fn jump_outcome(i: Instruction, m: Machine) -> Outcome {
    let next = wrap(m.pc + 4);
    if i.opcode == Opcode::JAL {
        Outcome::Next(
            Machine {
                pc: wrap(m.pc + i.op_b),
                values: write_register(m.values, i.op_a, next),
                ..m
            },
        )
    } else if i.opcode == Opcode::JALR {
        Outcome::Next(
            Machine {
                pc: wrap(m.values[i.op_b] + i.op_c),
                values: write_register(m.values, i.op_a, next),
                ..m
            },
        )
    } else {
        Outcome::Next(
            Machine {
                pc: next,
                values: write_register(m.values, i.op_a, wrap(m.pc + i.op_b)),
                ..m
            },
        )
    }
}

/// What an instruction other than a call leads to.
pub open spec fn instruction_outcome(i: Instruction, m: Machine) -> Outcome {
    if i.opcode == Opcode::UNIMP {
        Outcome::Fault(ExecutionError::Unimplemented(m.pc))
    } else if i.opcode == Opcode::EBREAK {
        Outcome::Fault(ExecutionError::Breakpoint(m.pc))
    } else if first_bad_register(registers_named(i)) is Some {
        Outcome::Fault(ExecutionError::InvalidRegister(first_bad_register(registers_named(i))->0))
    } else if i.opcode.is_alu() {
        alu_outcome(i, m)
    } else if is_load(i.opcode) {
        load_outcome(i, m)
    } else if is_store(i.opcode) {
        store_outcome(i, m)
    } else if is_branch(i.opcode) {
        branch_outcome(i, m)
    } else {
        jump_outcome(i, m)
    }
}

/// The bucket of the record that an arithmetic or logic event goes to.
pub open spec fn alu_bucket(r: &ExecutionRecord, op: Opcode) -> Seq<AluEvent> {
    match op {
        Opcode::ADD => r.add_events@,
        Opcode::SUB => r.sub_events@,
        Opcode::XOR | Opcode::OR | Opcode::AND => r.bitwise_events@,
        Opcode::SLL | Opcode::SRL | Opcode::SRA => r.shift_events@,
        Opcode::SLT | Opcode::SLTU => r.lt_events@,
        Opcode::MUL | Opcode::MULH | Opcode::MULHU | Opcode::MULHSU => r.mul_events@,
        Opcode::DIV | Opcode::DIVU | Opcode::REM | Opcode::REMU => r.divrem_events@,
        _ => Seq::empty(),
    }
}

/// An event of arithmetic or logic is right: its result is what the
/// operation gives of its operands.
pub open spec fn alu_event_right(e: AluEvent) -> bool {
    e.a == alu_spec(e.opcode, e.b, e.c)
}

/// Every event of arithmetic and logic of a record is right and lies in
/// the bucket of its opcode.
#[verifier::opaque]
pub open spec fn alu_events_right(r: &ExecutionRecord) -> bool {
    forall|op: Opcode, i: int|
        0 <= i < alu_bucket(r, op).len() ==> alu_event_right(#[trigger] alu_bucket(r, op)[i])
            && op_bucket(alu_bucket(r, op)[i].opcode) == op_bucket(op)
}

/// Two records hold the same events of arithmetic and logic.
pub open spec fn same_alu_events(a: &ExecutionRecord, b: &ExecutionRecord) -> bool {
    &&& a.add_events == b.add_events
    &&& a.sub_events == b.sub_events
    &&& a.bitwise_events == b.bitwise_events
    &&& a.shift_events == b.shift_events
    &&& a.lt_events == b.lt_events
    &&& a.mul_events == b.mul_events
    &&& a.divrem_events == b.divrem_events
}

/// Whether the events of a record are right depends on its events of
/// arithmetic and logic alone.
pub proof fn lemma_alu_events_kept(a: &ExecutionRecord, b: &ExecutionRecord)
    requires
        same_alu_events(a, b),
        alu_events_right(a),
    ensures
        alu_events_right(b),
{
    reveal(alu_events_right);
    assert forall|op: Opcode, i: int| 0 <= i < alu_bucket(b, op).len() implies alu_event_right(
        #[trigger] alu_bucket(b, op)[i],
    ) && op_bucket(alu_bucket(b, op)[i].opcode) == op_bucket(op) by {
        assert(alu_bucket(b, op) == alu_bucket(a, op));
    }
}

/// A record without events of arithmetic and logic has none that is
/// wrong.
pub proof fn lemma_no_alu_events(r: &ExecutionRecord)
    requires
        r.is_empty(),
    ensures
        alu_events_right(r),
{
    reveal(alu_events_right);
}

/// Which of the seven buckets an opcode belongs to; seven for an opcode
/// that is none of arithmetic or logic.
pub open spec fn op_bucket(op: Opcode) -> int {
    match op {
        Opcode::ADD => 0,
        Opcode::SUB => 1,
        Opcode::XOR | Opcode::OR | Opcode::AND => 2,
        Opcode::SLL | Opcode::SRL | Opcode::SRA => 3,
        Opcode::SLT | Opcode::SLTU => 4,
        Opcode::MUL | Opcode::MULH | Opcode::MULHU | Opcode::MULHSU => 5,
        Opcode::DIV | Opcode::DIVU | Opcode::REM | Opcode::REMU => 6,
        _ => 7,
    }
}

/// The record `b` is the record `a` with the event `e` more in the bucket
/// of its opcode.
pub open spec fn alu_event_more(a: &ExecutionRecord, b: &ExecutionRecord, e: AluEvent) -> bool {
    forall|op: Opcode|
        #[trigger] alu_bucket(b, op) == (if op_bucket(op) == op_bucket(e.opcode) {
            alu_bucket(a, op).push(e)
        } else {
            alu_bucket(a, op)
        })
}

/// A right event more in the bucket of its opcode leaves the events
/// right.
pub proof fn lemma_alu_event_added(a: &ExecutionRecord, b: &ExecutionRecord, e: AluEvent)
    requires
        alu_events_right(a),
        alu_event_right(e),
        alu_event_more(a, b, e),
    ensures
        alu_events_right(b),
{
    reveal(alu_events_right);
    assert forall|op: Opcode, i: int| 0 <= i < alu_bucket(b, op).len() implies alu_event_right(
        #[trigger] alu_bucket(b, op)[i],
    ) && op_bucket(alu_bucket(b, op)[i].opcode) == op_bucket(op) by {
        let x = alu_bucket(b, op)[i];
        if op_bucket(op) == op_bucket(e.opcode) {
            assert(alu_bucket(b, op) == alu_bucket(a, op).push(e));
            if i < alu_bucket(a, op).len() {
                assert(x == alu_bucket(a, op)[i]);
            } else {
                assert(x == e);
            }
        } else {
            assert(alu_bucket(b, op) == alu_bucket(a, op));
            assert(x == alu_bucket(a, op)[i]);
        }
    }
}

/// The number of arithmetic and logic events in all buckets.
pub open spec fn alu_event_count(r: &ExecutionRecord) -> nat {
    r.add_events@.len() + r.sub_events@.len() + r.bitwise_events@.len() + r.shift_events@.len()
        + r.lt_events@.len() + r.mul_events@.len() + r.divrem_events@.len()
}

/// The number of steps among `events` whose instruction is one of
/// arithmetic or logic.
pub open spec fn alu_step_count(events: Seq<CpuEvent>) -> nat
    decreases events.len(),
{
    if events.len() == 0 {
        0
    } else {
        alu_step_count(events.drop_last()) + (if events.last().instruction.opcode.is_alu() {
            1nat
        } else {
            0nat
        })
    }
}

impl Runtime {
    /// What the instructions see of the machine.
    pub open spec fn machine(&self) -> Machine {
        Machine {
            pc: self.state.pc,
            values: self.state.memory.values(),
            input: self.state.input_stream@,
            input_ptr: self.state.input_stream_ptr as int,
            output: self.state.output_stream@,
            digest: self.record.public_values_digest@,
        }
    }

    /// The invariant of the engine: the memory is consistent, the current
    /// record is that of the current shard, and every operation of
    /// arithmetic or logic that a step of the shard made has its event.
    pub open spec fn wf(&self) -> bool {
        &&& self.state.memory.wf()
        &&& self.record.index == self.state.memory.shard
        &&& self.record.program == self.program
        &&& self.shard_size >= 1
        &&& self.record.cpu_events@.len() <= self.shard_size
        &&& self.record.memory_initialize_events@.len() == 0
        &&& self.record.memory_finalize_events@.len() == 0
        &&& alu_event_count(&self.record) == alu_step_count(self.record.cpu_events@)
        &&& alu_events_right(&self.record)
        &&& self.state.output_stream_ptr <= self.state.output_stream@.len()
        &&& self.state.input_stream_ptr <= self.state.input_stream@.len()
    }

    /// An engine that is about to execute the first instruction of
    /// `program`, with shards of `DEFAULT_SHARD_SIZE` steps.
    pub fn new(program: Program) -> (r: Runtime)
        ensures
            r.wf(),
            r.state.pc == program.pc_start,
            r.state.clk == 0,
            r.state.global_clk == 0,
            r.state.memory.shard == 1,
            r.shard_size == DEFAULT_SHARD_SIZE,
            r.shards@.len() == 0,
            r.record.is_empty(),
            *r.program == program,
            forall|a: u32|
                r.machine().values[a] == Program::image_value(program.memory_image@, a),
            r.state.input_stream@.len() == 0,
            r.state.output_stream@.len() == 0,
            r.state.input_stream_ptr == 0,
            r.state.output_stream_ptr == 0,
            r.record.public_values_digest@ == Seq::new(8, |i: int| 0u32),
            r.shards_wf(),
    {
        Runtime::with_shard_size(program, DEFAULT_SHARD_SIZE)
    }

    /// An engine that is about to execute the first instruction of
    /// `program`, with shards of `shard_size` steps, or of one step where
    /// `shard_size` is zero.
    pub fn with_shard_size(program: Program, shard_size: u32) -> (r: Runtime)
        ensures
            r.wf(),
            r.state.pc == program.pc_start,
            r.state.clk == 0,
            r.state.global_clk == 0,
            r.state.memory.shard == 1,
            r.shard_size == (if shard_size == 0 {
                1
            } else {
                shard_size
            }),
            r.shards@.len() == 0,
            r.record.is_empty(),
            *r.program == program,
            forall|a: u32|
                r.machine().values[a] == Program::image_value(program.memory_image@, a),
            r.state.input_stream@.len() == 0,
            r.state.output_stream@.len() == 0,
            r.state.input_stream_ptr == 0,
            r.state.output_stream_ptr == 0,
            r.record.public_values_digest@ == Seq::new(8, |i: int| 0u32),
            r.shards_wf(),
    {
        let memory = Memory::new(&program.memory_image);
        let pc = program.pc_start;
        let program = Arc::new(program);
        let record = ExecutionRecord::new(1, program.clone());
        let r = Runtime {
            program,
            state: ExecutionState {
                global_clk: 0,
                clk: 0,
                pc,
                memory,
                input_stream: Vec::new(),
                input_stream_ptr: 0,
                output_stream: Vec::new(),
                output_stream_ptr: 0,
            },
            record,
            shards: Vec::new(),
            shard_size: if shard_size == 0 {
                1
            } else {
                shard_size
            },
        };
        proof {
            reveal(Runtime::shards_wf);
            lemma_no_alu_events(&r.record);
        }
        assert(r.record.public_values_digest@ =~= Seq::new(8, |i: int| 0u32));
        r
    }

    /// The number of the current shard.
    pub fn current_shard(&self) -> (r: u32)
        ensures
            r == self.state.memory.shard,
    {
        self.state.memory.shard
    }

    /// The value of a register, without a record of the access.
    pub fn register(&self, reg: u32) -> (r: u32)
        requires
            reg < NUM_REGISTERS,
        ensures
            r == self.machine().values[reg],
    {
        self.state.memory.get(reg).value
    }

    /// The word at `addr`, without a record of the access.
    pub fn word(&self, addr: u32) -> (r: u32)
        ensures
            r == self.machine().values[addr],
    {
        self.state.memory.get(addr).value
    }

    /// The words of the memory are those of its entries.
    pub proof fn lemma_values_of_entries(&self)
        ensures
            self.machine().values == Map::total(|x: u32| self.state.memory.entries()[x].value),
    {
        assert forall|x: u32| #[trigger]
            self.machine().values[x] == self.state.memory.entries()[x].value by {
            self.state.memory.lemma_values(x);
        }
        assert(self.machine().values =~= Map::total(
            |x: u32| self.state.memory.entries()[x].value,
        )) by {
            assert forall|x: u32| self.machine().values.dom().contains(x) by {
                self.state.memory.lemma_values(x);
            }
        }
    }

    /// Reads the word at `addr` at time `timestamp` and gives the record of
    /// the read.
    pub fn mr(&mut self, addr: u32, timestamp: u32) -> (r: MemoryReadRecord)
        requires
            old(self).state.memory.wf(),
        ensures
            final(self).state.memory.wf(),
            final(self).machine() == old(self).machine(),
            r.value == old(self).machine().values[addr],
            r.shard == old(self).state.memory.shard,
            r.timestamp == timestamp,
            (final(self).state.memory.entries(), r) == timed_read(
                old(self).state.memory.entries(),
                addr,
                old(self).state.memory.shard,
                timestamp,
            ),
            final(self).same_but_memory(old(self)),
            final(self).state.memory.shard == old(self).state.memory.shard,
    {
        let r = self.state.memory.read(addr, timestamp);
        proof {
            old(self).state.memory.lemma_values(addr);
            assert(self.state.memory.entries() =~= timed_read(
                old(self).state.memory.entries(),
                addr,
                old(self).state.memory.shard,
                timestamp,
            ).0);
        }
        r
    }

    /// Writes `value` to the word at `addr` at time `timestamp` and gives
    /// the record of the write.
    pub fn mw(&mut self, addr: u32, value: u32, timestamp: u32) -> (r: MemoryWriteRecord)
        requires
            old(self).state.memory.wf(),
        ensures
            final(self).state.memory.wf(),
            final(self).state.pc == old(self).state.pc,
            final(self).machine().values == old(self).machine().values.insert(addr, value),
            r.value == value,
            r.prev_value == old(self).machine().values[addr],
            r.shard == old(self).state.memory.shard,
            r.timestamp == timestamp,
            (final(self).state.memory.entries(), r) == timed_write(
                old(self).state.memory.entries(),
                addr,
                value,
                old(self).state.memory.shard,
                timestamp,
            ),
            final(self).same_but_memory(old(self)),
            final(self).state.memory.shard == old(self).state.memory.shard,
    {
        let r = self.state.memory.write(addr, value, timestamp);
        proof {
            old(self).state.memory.lemma_values(addr);
            assert(self.state.memory.entries() =~= timed_write(
                old(self).state.memory.entries(),
                addr,
                value,
                old(self).state.memory.shard,
                timestamp,
            ).0);
        }
        r
    }

    /// Reads the eight words from `addr` on, one after the other, all at
    /// the current clock.
    pub fn mr_slice(&mut self, addr: u32) -> (r: ([MemoryReadRecord; 8], [u32; 8]))
        requires
            old(self).state.memory.wf(),
            range_fault(addr, 8) is None,
        ensures
            final(self).state.memory.wf(),
            final(self).machine() == old(self).machine(),
            final(self).same_but_memory(old(self)),
            final(self).state.memory.shard == old(self).state.memory.shard,
            forall|k: int|
                0 <= k < 8 ==> #[trigger] r.1@[k] == old(self).machine().values[(addr + 4
                    * k) as u32],
            forall|k: int| 0 <= k < 8 ==> (#[trigger] r.0@[k]).value == r.1@[k],
            (final(self).state.memory.entries(), r.0@) == timed_reads(
                old(self).state.memory.entries(),
                addr,
                old(self).state.memory.shard,
                old(self).state.clk,
                8,
            ),
    {
        let t = self.state.clk;
        let blank = MemoryReadRecord {
            value: 0,
            shard: 0,
            timestamp: 0,
            prev_shard: 0,
            prev_timestamp: 0,
        };
        let mut records = [blank; 8];
        let mut words = [0u32; 8];
        let mut i: usize = 0;
        while i < 8
            invariant
                i <= 8,
                t == old(self).state.clk,
                range_fault(addr, 8) is None,
                self.state.memory.wf(),
                self.machine() == old(self).machine(),
                self.same_but_memory(old(self)),
                self.state.memory.shard == old(self).state.memory.shard,
                forall|k: int|
                    0 <= k < i ==> #[trigger] words@[k] == old(self).machine().values[(addr + 4
                        * k) as u32],
                forall|k: int| 0 <= k < i ==> (#[trigger] records@[k]).value == words@[k],
                (self.state.memory.entries(), records@.subrange(0, i as int)) == timed_reads(
                    old(self).state.memory.entries(),
                    addr,
                    old(self).state.memory.shard,
                    t,
                    i as nat,
                ),
            decreases 8 - i,
        {
            let ghost done = records@.subrange(0, i as int);
            let rec = self.mr(addr + 4 * (i as u32), t);
            records[i] = rec;
            words[i] = rec.value;
            i = i + 1;
            assert(records@.subrange(0, i as int) =~= done.push(rec));
        }
        assert(records@.subrange(0, 8) =~= records@);
        (records, words)
    }

    /// Writes eight words from `addr` on, one after the other, all at the
    /// current clock.
    pub fn mw_slice(&mut self, addr: u32, words: &[u32; 8]) -> (r: [MemoryWriteRecord; 8])
        requires
            old(self).state.memory.wf(),
            range_fault(addr, 8) is None,
        ensures
            final(self).state.memory.wf(),
            final(self).machine() == (Machine {
                values: crate::syscall::precompiles::sha256::compress::execute::write_words(
                    old(self).machine().values,
                    addr,
                    words@,
                    8,
                ),
                ..old(self).machine()
            }),
            final(self).same_but_memory(old(self)),
            final(self).state.memory.shard == old(self).state.memory.shard,
            forall|k: int| 0 <= k < 8 ==> (#[trigger] r@[k]).value == words@[k],
            (final(self).state.memory.entries(), r@) == timed_writes(
                old(self).state.memory.entries(),
                addr,
                words@,
                old(self).state.memory.shard,
                old(self).state.clk,
                8,
            ),
    {
        let t = self.state.clk;
        let blank = MemoryWriteRecord {
            value: 0,
            shard: 0,
            timestamp: 0,
            prev_value: 0,
            prev_shard: 0,
            prev_timestamp: 0,
        };
        let mut records = [blank; 8];
        let mut i: usize = 0;
        while i < 8
            invariant
                i <= 8,
                t == old(self).state.clk,
                range_fault(addr, 8) is None,
                self.state.memory.wf(),
                self.state.pc == old(self).state.pc,
                self.machine().values
                    == crate::syscall::precompiles::sha256::compress::execute::write_words(
                    old(self).machine().values,
                    addr,
                    words@,
                    i as int,
                ),
                self.same_but_memory(old(self)),
                self.state.memory.shard == old(self).state.memory.shard,
                forall|k: int| 0 <= k < i ==> (#[trigger] records@[k]).value == words@[k],
                (self.state.memory.entries(), records@.subrange(0, i as int)) == timed_writes(
                    old(self).state.memory.entries(),
                    addr,
                    words@,
                    old(self).state.memory.shard,
                    t,
                    i as nat,
                ),
            decreases 8 - i,
        {
            let ghost done = records@.subrange(0, i as int);
            let rec = self.mw(addr + 4 * (i as u32), words[i], t);
            records[i] = rec;
            i = i + 1;
            assert(records@.subrange(0, i as int) =~= done.push(rec));
        }
        assert(records@.subrange(0, 8) =~= records@);
        records
    }

    /// Everything but what the memory holds is as in `other`.
    pub open spec fn same_but_memory(&self, other: &Runtime) -> bool {
        &&& self.state.memory.shard == other.state.memory.shard
        &&& self.state.memory.at_start == other.state.memory.at_start
        &&& self.state.memory.image == other.state.memory.image
        &&& self.program == other.program
        &&& self.record == other.record
        &&& self.shards == other.shards
        &&& self.shard_size == other.shard_size
        &&& self.state.pc == other.state.pc
        &&& self.state.clk == other.state.clk
        &&& self.state.global_clk == other.state.global_clk
        &&& self.state.input_stream == other.state.input_stream
        &&& self.state.input_stream_ptr == other.state.input_stream_ptr
        &&& self.state.output_stream == other.state.output_stream
        &&& self.state.output_stream_ptr == other.state.output_stream_ptr
    }

    /// What a precompile leaves alone, and what it does to the clock: the
    /// clock of the shard advances by `cycles`.
    pub open spec fn precompile_frame(&self, other: &Runtime, cycles: int) -> bool {
        &&& self.program == other.program
        &&& self.shards == other.shards
        &&& self.shard_size == other.shard_size
        &&& self.state.pc == other.state.pc
        &&& self.state.clk == other.state.clk + cycles
        &&& self.state.global_clk == other.state.global_clk
        &&& self.state.input_stream == other.state.input_stream
        &&& self.state.input_stream_ptr == other.state.input_stream_ptr
        &&& self.state.output_stream == other.state.output_stream
        &&& self.state.output_stream_ptr == other.state.output_stream_ptr
        &&& self.state.memory.shard == other.state.memory.shard
        &&& self.state.memory.at_start == other.state.memory.at_start
        &&& self.state.memory.image == other.state.memory.image
        &&& self.state.memory.wf()
    }

    /// Reads a register for an operand: the access is made at the clock of
    /// the step plus `position`.
    pub fn rr(&mut self, reg: u32, position: u32) -> (r: (u32, MemoryRecordEnum))
        requires
            old(self).state.memory.wf(),
            reg < NUM_REGISTERS,
            position <= 3,
            old(self).state.clk + 3 <= u32::MAX,
        ensures
            final(self).state.memory.wf(),
            final(self).machine() == old(self).machine(),
            r.0 == old(self).machine().values[reg],
            final(self).same_but_memory(old(self)),
            final(self).state.memory.shard == old(self).state.memory.shard,
    {
        let t = self.state.clk + position;
        let rec = self.mr(reg, t);
        (rec.value, MemoryRecordEnum::Read(rec))
    }

    /// Writes the result of a step to a register. Register zero always
    /// holds zero.
    pub fn rw(&mut self, reg: u32, value: u32) -> (r: MemoryRecordEnum)
        requires
            old(self).state.memory.wf(),
            reg < NUM_REGISTERS,
            old(self).state.clk + 3 <= u32::MAX,
        ensures
            final(self).state.memory.wf(),
            final(self).state.pc == old(self).state.pc,
            final(self).machine().values == write_register(
                old(self).machine().values,
                reg,
                value,
            ),
            final(self).same_but_memory(old(self)),
            final(self).state.memory.shard == old(self).state.memory.shard,
    {
        let t = self.state.clk + 3;
        let v: u32 = if reg == 0 {
            0
        } else {
            value
        };
        MemoryRecordEnum::Write(self.mw(reg, v, t))
    }
}

} // verus!
