//! One instruction at a time: fetch, read the operands, compute, write the
//! result, and leave the events behind.

use crate::events::{AluEvent, CpuEvent, MemoryRecordEnum};
use crate::program::{Instruction, Opcode};
use crate::record::ExecutionRecord;
use crate::runtime::semantics::{
    access_alignment, alu, alu_spec, branch_taken, branch_taken_spec, load, load_value, store,
    store_value, wrap,
};
use crate::runtime::{
    access_fault, aligned, alu_bucket, alu_event_count, alu_event_more, alu_events_right,
    alu_operands,
    alu_outcome, branch_outcome, first_bad_register, instruction_outcome, is_branch, is_load,
    is_store, jump_outcome, lemma_alu_event_added, load_outcome, registers_named, store_outcome,
    write_register, ExecutionError, Machine, Outcome, Runtime, NUM_REGISTERS,
};
use vstd::prelude::*;

verus! {

/// What a step found and did, for its event.
pub struct StepData {
    pub next_pc: u32,
    pub a: u32,
    pub b: u32,
    pub c: u32,
    pub a_record: Option<MemoryRecordEnum>,
    pub b_record: Option<MemoryRecordEnum>,
    pub c_record: Option<MemoryRecordEnum>,
    pub memory: Option<u32>,
    pub memory_record: Option<MemoryRecordEnum>,
}

/// The first register that the instruction names and the machine does not
/// have.
pub fn bad_register(i: &Instruction) -> (r: Option<u32>)
    ensures
        r == first_bad_register(registers_named(*i)),
{
    let (na, nb, nc): (bool, bool, bool) = match i.opcode {
        Opcode::JAL | Opcode::AUIPC => (true, false, false),
        Opcode::JALR
        | Opcode::LB
        | Opcode::LH
        | Opcode::LW
        | Opcode::LBU
        | Opcode::LHU
        | Opcode::SB
        | Opcode::SH
        | Opcode::SW
        | Opcode::BEQ
        | Opcode::BNE
        | Opcode::BLT
        | Opcode::BGE
        | Opcode::BLTU
        | Opcode::BGEU => (true, true, false),
        Opcode::ECALL | Opcode::EBREAK | Opcode::UNIMP => (false, false, false),
        _ => (true, !(i.imm_b && i.imm_c), !i.imm_c),
    };
    proof {
        reveal_with_fuel(first_bad_register, 4);
        let regs = registers_named(*i);
        if na && nb && nc {
            assert(regs =~= seq![i.op_a, i.op_b, i.op_c]);
            assert(regs.drop_first() =~= seq![i.op_b, i.op_c]);
            assert(regs.drop_first().drop_first() =~= seq![i.op_c]);
            assert(regs.drop_first().drop_first().drop_first() =~= Seq::<u32>::empty());
        } else if na && nb {
            assert(regs =~= seq![i.op_a, i.op_b]);
            assert(regs.drop_first() =~= seq![i.op_b]);
            assert(regs.drop_first().drop_first() =~= Seq::<u32>::empty());
        } else if na {
            assert(regs =~= seq![i.op_a]);
            assert(regs.drop_first() =~= Seq::<u32>::empty());
        } else {
            assert(regs =~= Seq::<u32>::empty());
        }
    }
    if na && i.op_a >= NUM_REGISTERS {
        Some(i.op_a)
    } else if nb && i.op_b >= NUM_REGISTERS {
        Some(i.op_b)
    } else if nc && i.op_c >= NUM_REGISTERS {
        Some(i.op_c)
    } else {
        None
    }
}

/// Whether the opcode is one of arithmetic or logic.
pub fn is_alu_opcode(op: Opcode) -> (r: bool)
    ensures
        r == op.is_alu(),
{
    match op {
        Opcode::ADD
        | Opcode::SUB
        | Opcode::XOR
        | Opcode::OR
        | Opcode::AND
        | Opcode::SLL
        | Opcode::SRL
        | Opcode::SRA
        | Opcode::SLT
        | Opcode::SLTU
        | Opcode::MUL
        | Opcode::MULH
        | Opcode::MULHU
        | Opcode::MULHSU
        | Opcode::DIV
        | Opcode::DIVU
        | Opcode::REM
        | Opcode::REMU => true,
        _ => false,
    }
}

/// The fault, if any, of a load or store at `addr`.
pub fn check_access(op: Opcode, addr: u32) -> (r: Option<ExecutionError>)
    ensures
        r == access_fault(op, addr),
{
    let alignment: u32 = match op {
        Opcode::LH | Opcode::LHU | Opcode::SH => 2,
        Opcode::LW | Opcode::SW => 4,
        _ => 1,
    };
    if addr % alignment != 0 {
        Some(ExecutionError::MisalignedAccess(addr))
    } else if addr - addr % 4 < NUM_REGISTERS {
        Some(ExecutionError::UnmappedAccess(addr))
    } else {
        None
    }
}

impl ExecutionRecord {
    /// Puts an event of arithmetic or logic into its bucket.
    pub fn add_alu_event(&mut self, event: AluEvent)
        requires
            event.opcode.is_alu(),
        ensures
            alu_bucket(final(self), event.opcode) == alu_bucket(old(self), event.opcode).push(
                event,
            ),
            alu_event_more(old(self), final(self), event),
            forall|op: Opcode|
                alu_bucket(old(self), op) != alu_bucket(old(self), event.opcode)
                    ==> #[trigger] alu_bucket(final(self), op) == alu_bucket(old(self), op),
            alu_event_count(final(self)) == alu_event_count(old(self)) + 1,
            final(self).index == old(self).index,
            final(self).program == old(self).program,
            final(self).cpu_events == old(self).cpu_events,
            final(self).byte_lookups == old(self).byte_lookups,
            final(self).memory_initialize_events == old(self).memory_initialize_events,
            final(self).memory_finalize_events == old(self).memory_finalize_events,
            final(self).public_values_digest == old(self).public_values_digest,
            final(self).sha_extend_events == old(self).sha_extend_events,
            final(self).sha_compress_events == old(self).sha_compress_events,
            final(self).blake3_compress_inner_events == old(self).blake3_compress_inner_events,
            final(self).ed_decompress_events == old(self).ed_decompress_events,
            final(self).k256_decompress_events == old(self).k256_decompress_events,
    {
        match event.opcode {
            Opcode::ADD => self.add_events.push(event),
            Opcode::SUB => self.sub_events.push(event),
            Opcode::XOR | Opcode::OR | Opcode::AND => self.bitwise_events.push(event),
            Opcode::SLL | Opcode::SRL | Opcode::SRA => self.shift_events.push(event),
            Opcode::SLT | Opcode::SLTU => self.lt_events.push(event),
            Opcode::MUL | Opcode::MULH | Opcode::MULHU | Opcode::MULHSU => self.mul_events.push(
                event,
            ),
            _ => self.divrem_events.push(event),
        }
    }
}

impl Runtime {
    /// Everything of the invariant but the count of the events of
    /// arithmetic and logic, which a step restores when it records itself.
    pub open spec fn wf_but_counts(&self) -> bool {
        &&& self.state.memory.wf()
        &&& self.record.index == self.state.memory.shard
        &&& self.record.program == self.program
        &&& self.shard_size >= 1
        &&& self.record.cpu_events@.len() <= self.shard_size
        &&& self.record.memory_initialize_events@.len() == 0
        &&& self.record.memory_finalize_events@.len() == 0
        &&& alu_events_right(&self.record)
        &&& self.state.output_stream_ptr <= self.state.output_stream@.len()
        &&& self.state.input_stream_ptr <= self.state.input_stream@.len()
    }

    /// What a step leaves alone: the streams, the clocks, the shards that
    /// are complete, and the steps recorded so far.
    pub open spec fn step_frame(&self, other: &Runtime) -> bool {
        &&& self.program == other.program
        &&& self.shards == other.shards
        &&& self.shard_size == other.shard_size
        &&& self.state.clk == other.state.clk
        &&& self.state.global_clk == other.state.global_clk
        &&& self.state.input_stream == other.state.input_stream
        &&& self.state.input_stream_ptr == other.state.input_stream_ptr
        &&& self.state.output_stream == other.state.output_stream
        &&& self.state.output_stream_ptr == other.state.output_stream_ptr
        &&& self.state.memory.shard == other.state.memory.shard
        &&& self.state.memory.at_start == other.state.memory.at_start
        &&& self.state.memory.image == other.state.memory.image
        &&& self.record.cpu_events == other.record.cpu_events
        &&& self.record.index == other.record.index
        &&& self.record.program == other.record.program
        &&& self.record.memory_initialize_events == other.record.memory_initialize_events
        &&& self.record.memory_finalize_events == other.record.memory_finalize_events
        &&& self.record.byte_lookups == other.record.byte_lookups
        &&& self.record.public_values_digest == other.record.public_values_digest
    }

    /// Executes an instruction of arithmetic or logic.
    pub fn execute_alu(&mut self, i: &Instruction) -> (d: StepData)
        requires
            old(self).wf(),
            old(self).state.clk + 3 <= u32::MAX,
            i.opcode.is_alu(),
            first_bad_register(registers_named(*i)) is None,
        ensures
            final(self).wf_but_counts(),
            final(self).step_frame(old(self)),
            alu_outcome(*i, old(self).machine()) == Outcome::Next(
                Machine { pc: d.next_pc, ..final(self).machine() },
            ),
            alu_event_count(&final(self).record) == alu_event_count(&old(self).record) + 1,
            alu_bucket(&final(self).record, i.opcode) == alu_bucket(
                &old(self).record,
                i.opcode,
            ).push(AluEvent { clk: old(self).state.clk, opcode: i.opcode, a: d.a, b: d.b, c: d.c }),
            d.a == alu_spec(i.opcode, d.b, d.c),
    {
        proof {
            reveal_with_fuel(first_bad_register, 4);
            let regs = registers_named(*i);
            if !i.imm_c {
                assert(regs.drop_first() =~= seq![i.op_b, i.op_c]);
                assert(regs.drop_first().drop_first() =~= seq![i.op_c]);
            } else if !i.imm_b {
                assert(regs.drop_first() =~= seq![i.op_b]);
            }
        }
        let mut b_record: Option<MemoryRecordEnum> = None;
        let mut c_record: Option<MemoryRecordEnum> = None;
        let mut b: u32 = i.op_b;
        let mut c: u32 = i.op_c;
        if !i.imm_c {
            let (v, rec) = self.rr(i.op_c, 1);
            c = v;
            c_record = Some(rec);
            let (v, rec) = self.rr(i.op_b, 2);
            b = v;
            b_record = Some(rec);
        } else if !i.imm_b {
            let (v, rec) = self.rr(i.op_b, 2);
            b = v;
            b_record = Some(rec);
        }
        let a = alu(i.opcode, b, c);
        let a_record = self.rw(i.op_a, a);
        let clk = self.state.clk;
        let ghost before = self.record;
        self.record.add_alu_event(AluEvent::new(clk, i.opcode, a, b, c));
        proof {
            lemma_alu_event_added(
                &before,
                &self.record,
                AluEvent { clk, opcode: i.opcode, a, b, c },
            );
        }
        StepData {
            next_pc: self.state.pc.wrapping_add(4),
            a,
            b,
            c,
            a_record: Some(a_record),
            b_record,
            c_record,
            memory: None,
            memory_record: None,
        }
    }

    /// Executes a load.
    pub fn execute_load(&mut self, i: &Instruction) -> (r: Result<StepData, ExecutionError>)
        requires
            old(self).wf(),
            old(self).state.clk + 3 <= u32::MAX,
            is_load(i.opcode),
            first_bad_register(registers_named(*i)) is None,
        ensures
            final(self).wf(),
            final(self).step_frame(old(self)),
            final(self).record == old(self).record,
            match r {
                Ok(d) => load_outcome(*i, old(self).machine()) == Outcome::Next(
                    Machine { pc: d.next_pc, ..final(self).machine() },
                ),
                Err(e) => load_outcome(*i, old(self).machine()) == Outcome::Fault(e),
            },
    {
        proof {
            reveal_with_fuel(first_bad_register, 4);
            assert(registers_named(*i).drop_first() =~= seq![i.op_b]);
        }
        let (b, b_record) = self.rr(i.op_b, 2);
        let c = i.op_c;
        let addr = b.wrapping_add(c);
        match check_access(i.opcode, addr) {
            Some(e) => {
                return Err(e);
            },
            None => {},
        }
        let t = self.state.clk;
        let word_addr: u32 = addr - addr % 4;
        assert((addr % 4) as int % access_alignment(i.opcode) == 0);
        let rec = self.mr(word_addr, t);
        let a = load(i.opcode, rec.value, addr % 4);
        let a_record = self.rw(i.op_a, a);
        Ok(
            StepData {
                next_pc: self.state.pc.wrapping_add(4),
                a,
                b,
                c,
                a_record: Some(a_record),
                b_record: Some(b_record),
                c_record: None,
                memory: Some(rec.value),
                memory_record: Some(MemoryRecordEnum::Read(rec)),
            },
        )
    }

    /// Executes a store.
    pub fn execute_store(&mut self, i: &Instruction) -> (r: Result<StepData, ExecutionError>)
        requires
            old(self).wf(),
            old(self).state.clk + 3 <= u32::MAX,
            is_store(i.opcode),
            first_bad_register(registers_named(*i)) is None,
        ensures
            final(self).wf(),
            final(self).step_frame(old(self)),
            final(self).record == old(self).record,
            match r {
                Ok(d) => store_outcome(*i, old(self).machine()) == Outcome::Next(
                    Machine { pc: d.next_pc, ..final(self).machine() },
                ),
                Err(e) => store_outcome(*i, old(self).machine()) == Outcome::Fault(e),
            },
    {
        proof {
            reveal_with_fuel(first_bad_register, 4);
            assert(registers_named(*i).drop_first() =~= seq![i.op_b]);
        }
        let c = i.op_c;
        let (b, b_record) = self.rr(i.op_b, 2);
        let (a, a_record) = self.rr(i.op_a, 3);
        let addr = b.wrapping_add(c);
        match check_access(i.opcode, addr) {
            Some(e) => {
                return Err(e);
            },
            None => {},
        }
        let t = self.state.clk;
        let word_addr: u32 = addr - addr % 4;
        let old_word = self.word(word_addr);
        let new_word = store(i.opcode, old_word, a, addr % 4);
        let rec = self.mw(word_addr, new_word, t);
        Ok(
            StepData {
                next_pc: self.state.pc.wrapping_add(4),
                a,
                b,
                c,
                a_record: Some(a_record),
                b_record: Some(b_record),
                c_record: None,
                memory: Some(new_word),
                memory_record: Some(MemoryRecordEnum::Write(rec)),
            },
        )
    }

    /// Executes a branch.
    pub fn execute_branch(&mut self, i: &Instruction) -> (d: StepData)
        requires
            old(self).wf(),
            old(self).state.clk + 3 <= u32::MAX,
            is_branch(i.opcode),
            first_bad_register(registers_named(*i)) is None,
        ensures
            final(self).wf(),
            final(self).step_frame(old(self)),
            final(self).record == old(self).record,
            branch_outcome(*i, old(self).machine()) == Outcome::Next(
                Machine { pc: d.next_pc, ..final(self).machine() },
            ),
    {
        proof {
            reveal_with_fuel(first_bad_register, 4);
            assert(registers_named(*i).drop_first() =~= seq![i.op_b]);
        }
        let c = i.op_c;
        let (b, b_record) = self.rr(i.op_b, 2);
        let (a, a_record) = self.rr(i.op_a, 3);
        let next_pc = if branch_taken(i.opcode, a, b) {
            self.state.pc.wrapping_add(c)
        } else {
            self.state.pc.wrapping_add(4)
        };
        StepData {
            next_pc,
            a,
            b,
            c,
            a_record: Some(a_record),
            b_record: Some(b_record),
            c_record: None,
            memory: None,
            memory_record: None,
        }
    }

    /// Executes a jump, or the addition of an immediate to the program
    /// counter.
    pub fn execute_jump(&mut self, i: &Instruction) -> (d: StepData)
        requires
            old(self).wf(),
            old(self).state.clk + 3 <= u32::MAX,
            i.opcode == Opcode::JAL || i.opcode == Opcode::JALR || i.opcode == Opcode::AUIPC,
            first_bad_register(registers_named(*i)) is None,
        ensures
            final(self).wf(),
            final(self).step_frame(old(self)),
            final(self).record == old(self).record,
            jump_outcome(*i, old(self).machine()) == Outcome::Next(
                Machine { pc: d.next_pc, ..final(self).machine() },
            ),
    {
        proof {
            reveal_with_fuel(first_bad_register, 4);
            if i.opcode == Opcode::JALR {
                assert(registers_named(*i).drop_first() =~= seq![i.op_b]);
            }
        }
        let pc = self.state.pc;
        match i.opcode {
            Opcode::JAL => {
                let a = pc.wrapping_add(4);
                let a_record = self.rw(i.op_a, a);
                StepData {
                    next_pc: pc.wrapping_add(i.op_b),
                    a,
                    b: i.op_b,
                    c: i.op_c,
                    a_record: Some(a_record),
                    b_record: None,
                    c_record: None,
                    memory: None,
                    memory_record: None,
                }
            },
            Opcode::JALR => {
                let (b, b_record) = self.rr(i.op_b, 2);
                let a = pc.wrapping_add(4);
                let a_record = self.rw(i.op_a, a);
                StepData {
                    next_pc: b.wrapping_add(i.op_c),
                    a,
                    b,
                    c: i.op_c,
                    a_record: Some(a_record),
                    b_record: Some(b_record),
                    c_record: None,
                    memory: None,
                    memory_record: None,
                }
            },
            _ => {
                let a = pc.wrapping_add(i.op_b);
                let a_record = self.rw(i.op_a, a);
                StepData {
                    next_pc: pc.wrapping_add(4),
                    a,
                    b: i.op_b,
                    c: i.op_c,
                    a_record: Some(a_record),
                    b_record: None,
                    c_record: None,
                    memory: None,
                    memory_record: None,
                }
            },
        }
    }
}

} // verus!
