//! The cycle of the engine: begin a new shard where the current one is
//! full, fetch, execute, record the step, and advance the clocks.

use crate::events::{CpuEvent, MemoryBoundaryEvent};
use crate::program::{Instruction, Opcode, Program};
use crate::record::ExecutionRecord;
use crate::runtime::ecall::{ecall_outcome, syscall_effect, Effect, A0, A1, T0};
use crate::utils::bigint::lemma_bytes32_of;
use crate::runtime::execute::{bad_register, is_alu_opcode, StepData};
use crate::runtime::memory::boundary;
use crate::runtime::semantics::wrap;
use crate::runtime::{
    alu_event_count, alu_event_right, alu_events_right, alu_step_count, first_bad_register,
    instruction_outcome, is_branch, is_load, is_store, lemma_alu_event_added,
    lemma_alu_events_kept, lemma_no_alu_events, registers_named, write_register, ExecutionError,
    Machine, Outcome, Runtime,
};
use crate::syscall::commit::SyscallCommit;
use crate::syscall::precompiles::blake3::compress::Blake3CompressInnerChip;
use crate::syscall::precompiles::edwards::ed_decompress::EdDecompressChip;
use crate::syscall::precompiles::k256::decompress::K256DecompressChip;
use crate::syscall::precompiles::sha256::compress::ShaCompressChip;
use crate::syscall::precompiles::sha256::extend::ShaExtendChip;
use crate::syscall::SyscallCode;
use vstd::prelude::*;

verus! {

/// What an instruction leads to.
#[verifier::opaque]
pub open spec fn step_outcome(i: Instruction, m: Machine) -> Outcome {
    if i.opcode == Opcode::ECALL {
        ecall_outcome(m)
    } else {
        instruction_outcome(i, m)
    }
}

/// The clock ticks that an instruction takes beyond its own four: those of
/// the call that it makes, if it makes one.
pub open spec fn extra_cycles_of(i: Instruction, m: Machine) -> int {
    if i.opcode == Opcode::ECALL {
        match SyscallCode::of(m.values[T0]) {
            Some(code) => code.extra_cycles() as int,
            None => 0,
        }
    } else {
        0
    }
}

/// The instruction that the machine `m` is about to execute, where its
/// program counter points into the program.
pub open spec fn current_instruction(p: &Program, m: Machine) -> Instruction {
    p.instructions@[(m.pc - p.pc_base) / 4]
}

/// The outcome of `n` steps of the program from the machine `m`. A
/// machine whose program counter has left the program stays as it is.
pub open spec fn after_steps(p: &Program, m: Machine, n: nat) -> Outcome
    decreases n,
{
    if n == 0 {
        Outcome::Next(m)
    } else {
        match after_steps(p, m, (n - 1) as nat) {
            Outcome::Next(m1) => if p.holds(m1.pc) {
                step_outcome(current_instruction(p, m1), m1)
            } else {
                Outcome::Next(m1)
            },
            Outcome::Fault(e) => Outcome::Fault(e),
        }
    }
}

/// The machines on the way: after each of the first `n` steps but the
/// last, the program counter still pointed into the program.
pub open spec fn runs_for(p: &Program, m: Machine, n: nat) -> bool {
    forall|k: nat|
        k < n ==> (#[trigger] after_steps(p, m, k) matches Outcome::Next(mk) && p.holds(mk.pc))
}

/// The counters of the engine: the count of all steps, the clock of the
/// shard, the number of the shard, and the count of the steps of the
/// shard.
pub struct Clocks {
    pub global_clk: u64,
    pub clk: u32,
    pub shard: u32,
    pub steps: nat,
}

/// The counters of an engine that has made no step: the first shard, with
/// no step in it.
pub open spec fn initial_clocks() -> Clocks {
    Clocks { global_clk: 0, clk: 0, shard: 1, steps: 0 }
}

/// The shard is full: the next step begins a new one.
pub open spec fn shard_full(c: Clocks, shard_size: u32) -> bool {
    c.steps >= shard_size
}

/// The clock of the shard that the next step starts at.
pub open spec fn clk_before(c: Clocks, shard_size: u32) -> int {
    if shard_full(c, shard_size) {
        0
    } else {
        c.clk as int
    }
}

/// A counter would leave its range in the step of the instruction `i` on
/// the machine `m`: the number of the shard, where the step begins a new
/// one; the clock of the shard, which the step advances by seven at most
/// and by what a call takes; or the count of all steps.
pub open spec fn limit_reached(c: Clocks, shard_size: u32, i: Instruction, m: Machine) -> bool {
    ||| shard_full(c, shard_size) && c.shard == u32::MAX
    ||| clk_before(c, shard_size) + 7 + extra_cycles_of(i, m) > u32::MAX
    ||| c.global_clk == u64::MAX
}

/// The counters after the step of the instruction `i` on the machine
/// `m`.
pub open spec fn clocks_next(c: Clocks, shard_size: u32, i: Instruction, m: Machine) -> Clocks {
    Clocks {
        global_clk: (c.global_clk + 1) as u64,
        clk: (clk_before(c, shard_size) + 4 + extra_cycles_of(i, m)) as u32,
        shard: if shard_full(c, shard_size) {
            (c.shard + 1) as u32
        } else {
            c.shard
        },
        steps: if shard_full(c, shard_size) {
            1
        } else {
            c.steps + 1
        },
    }
}

/// The counters after `n` steps of the program from the machine `m` and
/// the counters `c`.
pub open spec fn clocks_after(p: &Program, m: Machine, c: Clocks, shard_size: u32, n: nat) -> Clocks
    decreases n,
{
    if n == 0 {
        c
    } else {
        let before = clocks_after(p, m, c, shard_size, (n - 1) as nat);
        match after_steps(p, m, (n - 1) as nat) {
            Outcome::Next(m1) => clocks_next(before, shard_size, current_instruction(p, m1), m1),
            Outcome::Fault(_) => before,
        }
    }
}

/// No counter reaches its limit in step `k` of the run.
pub open spec fn step_within_limits(
    p: &Program,
    m: Machine,
    c: Clocks,
    shard_size: u32,
    k: nat,
) -> bool {
    match after_steps(p, m, k) {
        Outcome::Next(mk) => !limit_reached(
            clocks_after(p, m, c, shard_size, k),
            shard_size,
            current_instruction(p, mk),
            mk,
        ),
        Outcome::Fault(_) => true,
    }
}

/// No counter reaches its limit in the first `n` steps of the run.
pub open spec fn within_limits(p: &Program, m: Machine, c: Clocks, shard_size: u32, n: nat) -> bool {
    forall|k: nat| k < n ==> #[trigger] step_within_limits(p, m, c, shard_size, k)
}

/// The boundary of two shards: whatever the later shard says that an
/// address held before it, the earlier shard says that the address held
/// after it.
pub open spec fn linked(earlier: &ExecutionRecord, later: &ExecutionRecord) -> bool {
    forall|i: int, j: int|
        0 <= i < later.memory_initialize_events@.len() && 0 <= j
            < earlier.memory_finalize_events@.len() && (
        #[trigger] later.memory_initialize_events@[i]).addr == (
        #[trigger] earlier.memory_finalize_events@[j]).addr
            ==> later.memory_initialize_events@[i] == earlier.memory_finalize_events@[j]
}

impl Runtime {
    /// The current shard is full: the next step begins a new one.
    pub open spec fn needs_new_shard(&self) -> bool {
        self.record.cpu_events@.len() >= self.shard_size
    }

    /// The clock that the next step starts at.
    pub open spec fn clk_at_step(&self) -> int {
        if self.needs_new_shard() {
            0
        } else {
            self.state.clk as int
        }
    }

    /// The counters of the engine.
    pub open spec fn clocks(&self) -> Clocks {
        Clocks {
            global_clk: self.state.global_clk,
            clk: self.state.clk,
            shard: self.state.memory.shard,
            steps: self.record.cpu_events@.len(),
        }
    }

    /// A counter of the engine would leave its range in the next step.
    pub open spec fn cycle_limit(&self, i: Instruction) -> bool {
        limit_reached(self.clocks(), self.shard_size, i, self.machine())
    }

    /// What the last complete shard says of the memory after it is what
    /// the memory held when the current shard began.
    pub open spec fn last_shard_linked(&self) -> bool {
        self.shards@.len() > 0 ==> forall|j: int|
            0 <= j < self.shards@.last().memory_finalize_events@.len() ==> (
            #[trigger] self.shards@.last().memory_finalize_events@[j]) == boundary(
                self.shards@.last().memory_finalize_events@[j].addr,
                self.state.memory.entry_at_start(
                    self.shards@.last().memory_finalize_events@[j].addr,
                ),
            )
    }

    /// Every two shards that follow each other are linked at their
    /// boundary, and no shard holds more steps than a shard may.
    #[verifier::opaque]
    pub open spec fn shards_wf(&self) -> bool {
        &&& forall|n: int|
            0 <= n < self.shards@.len() - 1 ==> linked(
                #[trigger] &self.shards@[n],
                &self.shards@[n + 1],
            )
        &&& forall|n: int|
            0 <= n < self.shards@.len() ==> (#[trigger] self.shards@[n]).cpu_events@.len()
                <= self.shard_size
        &&& forall|n: int|
            0 <= n < self.shards@.len() ==> alu_events_right(&#[trigger] self.shards@[n])
        &&& self.last_shard_linked()
    }

    /// The shards of a run hold right events of arithmetic and logic
    /// only.
    pub proof fn lemma_shards_hold_right_events(&self, n: int)
        requires
            self.shards_wf(),
            0 <= n < self.shards@.len(),
        ensures
            alu_events_right(&self.shards@[n]),
    {
        reveal(Runtime::shards_wf);
    }

    /// Ends the current shard and begins the next: the record of the shard
    /// takes the boundary events of the memory and joins the complete
    /// shards; a new record is begun, and the clock of the shard starts
    /// again.
    pub fn start_new_shard(&mut self)
        requires
            old(self).wf(),
            old(self).shards_wf(),
            old(self).state.memory.shard < u32::MAX,
        ensures
            final(self).wf(),
            final(self).shards_wf(),
            final(self).machine() == old(self).machine(),
            final(self).state.clk == 0,
            final(self).state.global_clk == old(self).state.global_clk,
            final(self).state.memory.shard == old(self).state.memory.shard + 1,
            final(self).program == old(self).program,
            final(self).shard_size == old(self).shard_size,
            final(self).record.is_empty(),
            final(self).shards@.len() == old(self).shards@.len() + 1,
            final(self).shards@.subrange(0, old(self).shards@.len() as int) == old(self).shards@,
            final(self).shards@.last().cpu_events == old(self).record.cpu_events,
            final(self).shards@.last().index == old(self).record.index,
    {
        proof {
            reveal(Runtime::shards_wf);
            self.state.memory.lemma_wf_facts();
        }
        let ghost touched = self.state.memory.touched@;
        let ghost mem0 = self.state.memory;
        let (first, last) = self.state.memory.end_shard();
        let shard = self.state.memory.shard;
        let mut record = ExecutionRecord::new(shard, self.program.clone());
        record.public_values_digest = self.record.public_values_digest;
        std::mem::swap(&mut record, &mut self.record);
        record.memory_initialize_events = first;
        record.memory_finalize_events = last;
        proof {
            if old(self).shards@.len() > 0 {
                let prev = old(self).shards@.last();
                assert forall|i: int, j: int|
                    0 <= i < record.memory_initialize_events@.len() && 0 <= j
                        < prev.memory_finalize_events@.len() && (
                    #[trigger] record.memory_initialize_events@[i]).addr == (
                    #[trigger] prev.memory_finalize_events@[j]).addr
                    implies record.memory_initialize_events@[i] == prev.memory_finalize_events@[j] by {
                    assert(record.memory_initialize_events@[i] == boundary(
                        touched[i],
                        mem0.entry_at_start(touched[i]),
                    ));
                }
                assert(linked(&prev, &record));
            }
            lemma_alu_events_kept(&old(self).record, &record);
        }
        self.shards.push(record);
        self.state.clk = 0;
        proof {
            assert(self.shards@.subrange(0, old(self).shards@.len() as int) =~= old(self).shards@);
            assert forall|n: int| 0 <= n < self.shards@.len() - 1 implies linked(
                #[trigger] &self.shards@[n],
                &self.shards@[n + 1],
            ) by {
                if n < old(self).shards@.len() - 1 {
                    assert(self.shards@[n] == old(self).shards@[n]);
                    assert(self.shards@[n + 1] == old(self).shards@[n + 1]);
                    assert(linked(&old(self).shards@[n], &old(self).shards@[n + 1]));
                } else {
                    assert(self.shards@[n] == old(self).shards@.last());
                }
            }
            assert forall|n: int| 0 <= n < self.shards@.len() implies (
            #[trigger] self.shards@[n]).cpu_events@.len() <= self.shard_size by {
                if n < old(self).shards@.len() {
                    assert(self.shards@[n] == old(self).shards@[n]);
                }
            }
            assert forall|n: int| 0 <= n < self.shards@.len() implies alu_events_right(
                &#[trigger] self.shards@[n],
            ) by {
                if n < old(self).shards@.len() {
                    assert(self.shards@[n] == old(self).shards@[n]);
                }
            }
            assert(alu_step_count(self.record.cpu_events@) == 0);
            lemma_no_alu_events(&self.record);
        }
    }

    /// Dispatches a call to its handler.
    fn dispatch(&mut self, code: SyscallCode, b: u32, c: u32) -> (r: Result<
        Option<u32>,
        ExecutionError,
    >)
        requires
            old(self).wf(),
            old(self).state.clk + code.extra_cycles() <= u32::MAX,
        ensures
            match r {
                Ok(v) => {
                    &&& syscall_effect(code, old(self).machine(), b, c) == Ok::<
                        Effect,
                        ExecutionError,
                    >(Effect { machine: final(self).machine(), value: v })
                    &&& final(self).wf()
                    &&& final(self).program == old(self).program
                    &&& final(self).shards == old(self).shards
                    &&& final(self).shard_size == old(self).shard_size
                    &&& final(self).state.global_clk == old(self).state.global_clk
                    &&& final(self).state.clk == old(self).state.clk + code.extra_cycles()
                    &&& final(self).state.memory.shard == old(self).state.memory.shard
                    &&& final(self).state.memory.at_start == old(self).state.memory.at_start
                    &&& final(self).state.memory.image == old(self).state.memory.image
                    &&& final(self).record.cpu_events == old(self).record.cpu_events
                },
                Err(e) => syscall_effect(code, old(self).machine(), b, c) == Err::<
                    Effect,
                    ExecutionError,
                >(e),
            },
    {
        let r = match code {
            SyscallCode::HALT => Ok(None),
            SyscallCode::WRITE => {
                self.syscall_write(b, c);
                Ok(None)
            },
            SyscallCode::LWA => {
                match self.syscall_lwa(c) {
                    Ok(v) => Ok(Some(v)),
                    Err(e) => Err(e),
                }
            },
            SyscallCode::COMMIT => SyscallCommit::new().execute(self, b, c),
            SyscallCode::SHA_EXTEND => ShaExtendChip::new().execute(self, b, c),
            SyscallCode::SHA_COMPRESS => ShaCompressChip::new().execute(self, b, c),
            SyscallCode::BLAKE3_COMPRESS_INNER => Blake3CompressInnerChip::new().execute(
                self,
                b,
                c,
            ),
            SyscallCode::ED_DECOMPRESS => {
                let r = EdDecompressChip::new().execute(self, b, c);
                proof {
                    if r is Ok {
                        lemma_bytes32_of(
                            self.record.ed_decompress_events@.last().decompressed_x_bytes@,
                        );
                    }
                }
                r
            },
            SyscallCode::SECP256K1_DECOMPRESS => K256DecompressChip::new().execute(self, b, c),
        };
        proof {
            if r is Ok {
                lemma_alu_events_kept(&old(self).record, &self.record);
            }
        }
        r
    }
}

impl Runtime {
    /// What a step leaves alone but for the clock of the shard, which
    /// advances by `cycles`.
    pub open spec fn cycle_frame(&self, other: &Runtime, cycles: int) -> bool {
        &&& self.program == other.program
        &&& self.shards == other.shards
        &&& self.shard_size == other.shard_size
        &&& self.state.global_clk == other.state.global_clk
        &&& self.state.clk == other.state.clk + cycles
        &&& self.state.memory.shard == other.state.memory.shard
        &&& self.state.memory.at_start == other.state.memory.at_start
        &&& self.state.memory.image == other.state.memory.image
        &&& self.record.cpu_events == other.record.cpu_events
    }

    /// Executes a call.
    #[verifier::rlimit(100)]
    #[verifier::spinoff_prover]
    pub fn execute_ecall(&mut self) -> (r: Result<StepData, ExecutionError>)
        requires
            old(self).wf(),
            old(self).state.clk + 7 + (match SyscallCode::of(old(self).machine().values[T0]) {
                Some(code) => code.extra_cycles() as int,
                None => 0,
            }) <= u32::MAX,
        ensures
            match r {
                Ok(d) => {
                    &&& ecall_outcome(old(self).machine()) == Outcome::Next(
                        Machine { pc: d.next_pc, ..final(self).machine() },
                    )
                    &&& final(self).wf()
                    &&& SyscallCode::of(old(self).machine().values[T0]) is Some
                    &&& final(self).cycle_frame(
                        old(self),
                        SyscallCode::of(old(self).machine().values[T0])->0.extra_cycles() as int,
                    )
                },
                Err(e) => ecall_outcome(old(self).machine()) == Outcome::Fault(e),
            },
    {
        let syscall_id = self.register(T0);
        let (c, c_record) = self.rr(A1, 1);
        let (b, b_record) = self.rr(A0, 2);
        let code = match SyscallCode::from_u32(syscall_id) {
            Some(code) => code,
            None => {
                return Err(ExecutionError::UnsupportedSyscall(syscall_id));
            },
        };
        let pc = self.state.pc;
        let res = match self.dispatch(code, b, c) {
            Ok(v) => v,
            Err(e) => {
                return Err(e);
            },
        };
        let a = match res {
            Some(v) => v,
            None => syscall_id,
        };
        let a_record = self.rw(T0, a);
        let next_pc = match code {
            SyscallCode::HALT => 0,
            _ => pc.wrapping_add(4),
        };
        Ok(
            StepData {
                next_pc,
                a,
                b,
                c,
                a_record: Some(a_record),
                b_record: Some(b_record),
                c_record: Some(c_record),
                memory: None,
                memory_record: None,
            },
        )
    }

    /// What the execution of an instruction establishes: the outcome that
    /// the instruction leads to, and what it leaves alone.
    pub open spec fn executed(
        &self,
        before: &Runtime,
        i: Instruction,
        r: Result<StepData, ExecutionError>,
    ) -> bool {
        match r {
            Ok(d) => {
                &&& step_outcome(i, before.machine()) == Outcome::Next(
                    Machine { pc: d.next_pc, ..self.machine() },
                )
                &&& self.wf_but_counts()
                &&& self.cycle_frame(before, extra_cycles_of(i, before.machine()))
                &&& alu_event_count(&self.record) == alu_event_count(&before.record) + (
                if i.opcode.is_alu() {
                    1nat
                } else {
                    0nat
                })
            },
            Err(e) => step_outcome(i, before.machine()) == Outcome::Fault(e),
        }
    }

    fn step_alu(&mut self, i: &Instruction) -> (r: Result<StepData, ExecutionError>)
        requires
            old(self).wf(),
            old(self).state.clk + 3 <= u32::MAX,
            i.opcode.is_alu(),
            first_bad_register(registers_named(*i)) is None,
        ensures
            final(self).executed(old(self), *i, r),
    {
        proof {
            reveal(step_outcome);
        }
        Ok(self.execute_alu(i))
    }

    fn step_load(&mut self, i: &Instruction) -> (r: Result<StepData, ExecutionError>)
        requires
            old(self).wf(),
            old(self).state.clk + 3 <= u32::MAX,
            is_load(i.opcode),
            first_bad_register(registers_named(*i)) is None,
        ensures
            final(self).executed(old(self), *i, r),
    {
        proof {
            reveal(step_outcome);
        }
        self.execute_load(i)
    }

    fn step_store(&mut self, i: &Instruction) -> (r: Result<StepData, ExecutionError>)
        requires
            old(self).wf(),
            old(self).state.clk + 3 <= u32::MAX,
            is_store(i.opcode),
            first_bad_register(registers_named(*i)) is None,
        ensures
            final(self).executed(old(self), *i, r),
    {
        proof {
            reveal(step_outcome);
        }
        self.execute_store(i)
    }

    fn step_branch(&mut self, i: &Instruction) -> (r: Result<StepData, ExecutionError>)
        requires
            old(self).wf(),
            old(self).state.clk + 3 <= u32::MAX,
            is_branch(i.opcode),
            first_bad_register(registers_named(*i)) is None,
        ensures
            final(self).executed(old(self), *i, r),
    {
        proof {
            reveal(step_outcome);
        }
        Ok(self.execute_branch(i))
    }

    fn step_jump(&mut self, i: &Instruction) -> (r: Result<StepData, ExecutionError>)
        requires
            old(self).wf(),
            old(self).state.clk + 3 <= u32::MAX,
            i.opcode == Opcode::JAL || i.opcode == Opcode::JALR || i.opcode == Opcode::AUIPC,
            first_bad_register(registers_named(*i)) is None,
        ensures
            final(self).executed(old(self), *i, r),
    {
        proof {
            reveal(step_outcome);
        }
        Ok(self.execute_jump(i))
    }

    fn step_ecall(&mut self, i: &Instruction) -> (r: Result<StepData, ExecutionError>)
        requires
            old(self).wf(),
            old(self).state.clk + 7 + extra_cycles_of(*i, old(self).machine()) <= u32::MAX,
            i.opcode == Opcode::ECALL,
        ensures
            final(self).executed(old(self), *i, r),
    {
        proof {
            reveal(step_outcome);
        }
        self.execute_ecall()
    }

    fn step_fault(&mut self, i: &Instruction) -> (r: Result<StepData, ExecutionError>)
        requires
            i.opcode == Opcode::UNIMP || i.opcode == Opcode::EBREAK || (i.opcode != Opcode::ECALL
                && first_bad_register(registers_named(*i)) is Some),
        ensures
            final(self).executed(old(self), *i, r),
            r is Err,
    {
        proof {
            reveal(step_outcome);
        }
        match i.opcode {
            Opcode::UNIMP => Err(ExecutionError::Unimplemented(self.state.pc)),
            Opcode::EBREAK => Err(ExecutionError::Breakpoint(self.state.pc)),
            _ => {
                match bad_register(i) {
                    Some(reg) => Err(ExecutionError::InvalidRegister(reg)),
                    None => Err(ExecutionError::InvalidRegister(0)),
                }
            },
        }
    }

    /// Executes an instruction: everything of a step but its record and the
    /// clocks.
    pub fn execute_instruction(&mut self, i: &Instruction) -> (r: Result<
        StepData,
        ExecutionError,
    >)
        requires
            old(self).wf(),
            old(self).state.clk + 7 + extra_cycles_of(*i, old(self).machine()) <= u32::MAX,
        ensures
            final(self).executed(old(self), *i, r),
    {
        match i.opcode {
            Opcode::UNIMP | Opcode::EBREAK => {
                return self.step_fault(i);
            },
            Opcode::ECALL => {
                return self.step_ecall(i);
            },
            _ => {},
        }
        if bad_register(i).is_some() {
            return self.step_fault(i);
        }
        if is_alu_opcode(i.opcode) {
            self.step_alu(i)
        } else {
            match i.opcode {
                Opcode::LB | Opcode::LH | Opcode::LW | Opcode::LBU | Opcode::LHU => {
                    self.step_load(i)
                },
                Opcode::SB | Opcode::SH | Opcode::SW => self.step_store(i),
                Opcode::BEQ
                | Opcode::BNE
                | Opcode::BLT
                | Opcode::BGE
                | Opcode::BLTU
                | Opcode::BGEU => self.step_branch(i),
                _ => self.step_jump(i),
            }
        }
    }

    /// One cycle of the engine. Where the program counter points outside
    /// the program, nothing is done and the engine reports that it is
    /// done. Otherwise a new shard is begun where the current one is full;
    /// the instruction at the program counter is executed; the step is
    /// recorded; the clock of the shard advances by four and by what a
    /// call took, and the count of steps by one.
    pub fn execute_cycle(&mut self) -> (r: Result<bool, ExecutionError>)
        requires
            old(self).wf(),
            old(self).shards_wf(),
        ensures
            match r {
                Ok(done) => {
                    &&& final(self).wf()
                    &&& final(self).shards_wf()
                    &&& final(self).program == old(self).program
                    &&& final(self).shard_size == old(self).shard_size
                    &&& old(self).shards@.len() <= final(self).shards@.len()
                    &&& if !old(self).program.holds(old(self).state.pc) {
                        done && *final(self) == *old(self)
                    } else {
                        let i = current_instruction(&*old(self).program, old(self).machine());
                        &&& !old(self).cycle_limit(i)
                        &&& step_outcome(i, old(self).machine()) == Outcome::Next(
                            final(self).machine(),
                        )
                        &&& final(self).state.global_clk == old(self).state.global_clk + 1
                        &&& final(self).state.clk == old(self).clk_at_step() + 4
                            + extra_cycles_of(i, old(self).machine())
                        &&& final(self).clocks() == clocks_next(
                            old(self).clocks(),
                            old(self).shard_size,
                            i,
                            old(self).machine(),
                        )
                        &&& done == !final(self).program.holds(final(self).state.pc)
                        &&& final(self).record.cpu_events@.len() == (if old(self).needs_new_shard() {
                            1
                        } else {
                            old(self).record.cpu_events@.len() + 1
                        })
                        &&& final(self).record.cpu_events@.last().instruction == i
                        &&& final(self).record.cpu_events@.last().pc == old(self).state.pc
                        &&& final(self).record.cpu_events@.last().next_pc == final(self).state.pc
                        &&& steps_so_far(final(self).shards@, &final(self).record) == steps_so_far(
                            old(self).shards@,
                            &old(self).record,
                        ).push(final(self).record.cpu_events@.last())
                        &&& old(self).shards@.is_prefix_of(final(self).shards@)
                    }
                },
                Err(e) => {
                    let i = current_instruction(&*old(self).program, old(self).machine());
                    &&& old(self).program.holds(old(self).state.pc)
                    &&& if old(self).cycle_limit(i) {
                        e == ExecutionError::ClockOverflow
                    } else {
                        step_outcome(i, old(self).machine()) == Outcome::Fault(e)
                    }
                },
            },
    {
        proof {
            reveal(Runtime::shards_wf);
        }
        let pc = self.state.pc;
        let instruction = match self.program.fetch(pc) {
            Some(i) => i,
            None => {
                return Ok(true);
            },
        };
        let extra: u32 = match instruction.opcode {
            Opcode::ECALL => match SyscallCode::from_u32(self.register(T0)) {
                Some(code) => code.num_extra_cycles(),
                None => 0,
            },
            _ => 0,
        };
        if self.state.global_clk == u64::MAX {
            return Err(ExecutionError::ClockOverflow);
        }
        if self.record.cpu_events.len() >= self.shard_size as usize {
            if self.state.memory.shard == u32::MAX {
                return Err(ExecutionError::ClockOverflow);
            }
            if (extra as u64) + 7 > u32::MAX as u64 {
                return Err(ExecutionError::ClockOverflow);
            }
            self.start_new_shard();
        } else if (self.state.clk as u64) + 7 + (extra as u64) > u32::MAX as u64 {
            return Err(ExecutionError::ClockOverflow);
        }
        let ghost mid = *self;
        let shard = self.current_shard();
        let clk = self.state.clk;
        let d = match self.execute_instruction(&instruction) {
            Ok(d) => d,
            Err(e) => {
                return Err(e);
            },
        };
        let ghost executed = self.record;
        self.record.cpu_events.push(
            CpuEvent {
                shard,
                clk,
                pc,
                next_pc: d.next_pc,
                instruction,
                a: d.a,
                a_record: d.a_record,
                b: d.b,
                b_record: d.b_record,
                c: d.c,
                c_record: d.c_record,
                memory: d.memory,
                memory_record: d.memory_record,
            },
        );
        proof {
            assert(self.record.cpu_events@.drop_last() =~= mid.record.cpu_events@);
            lemma_alu_events_kept(&executed, &self.record);
            let e = self.record.cpu_events@.last();
            assert(self.record.cpu_events@ =~= mid.record.cpu_events@.push(e));
            assert(self.shards@ == mid.shards@);
            if old(self).needs_new_shard() {
                let k = old(self).shards@.len();
                assert(mid.shards@.subrange(0, k as int) == old(self).shards@);
                assert(old(self).shards@.is_prefix_of(mid.shards@));
                lemma_steps_among_prefix(old(self).shards@, mid.shards@, k);
                assert(mid.shards@[k as int] == mid.shards@.last());
                assert(steps_among(mid.shards@, (k + 1) as nat) == steps_among(mid.shards@, k)
                    + mid.shards@[k as int].cpu_events@);
                assert(mid.record.cpu_events@ =~= Seq::<CpuEvent>::empty());
            } else {
                assert(mid.shards@ == old(self).shards@);
                assert(mid.record.cpu_events@ == old(self).record.cpu_events@);
            }
            assert(steps_so_far(self.shards@, &self.record) =~= steps_so_far(
                old(self).shards@,
                &old(self).record,
            ).push(e));
        }
        self.state.pc = d.next_pc;
        self.state.clk = self.state.clk + 4;
        self.state.global_clk = self.state.global_clk + 1;
        let done = match self.program.fetch(d.next_pc) {
            Some(_) => false,
            None => true,
        };
        Ok(done)
    }
}

/// The machine before the first step of a program: the program counter at
/// the start, the memory as the image has it, no input, no output, and a
/// digest of zeros.
pub open spec fn initial_machine(p: &Program) -> Machine {
    Machine {
        pc: p.pc_start,
        values: Map::total(|a: u32| Program::image_value(p.memory_image@, a)),
        input: Seq::empty(),
        input_ptr: 0,
        output: Seq::empty(),
        digest: Seq::new(8, |i: int| 0u32),
    }
}

/// The program, started on the machine `m`, stops after exactly `n` steps:
/// the first `n` steps are made without a fault, and only the last of them
/// leaves the program.
pub open spec fn halts_after(p: &Program, m: Machine, n: nat) -> bool {
    &&& runs_for(p, m, n)
    &&& after_steps(p, m, n) matches Outcome::Next(last) && !p.holds(last.pc)
}

/// The steps that the first `n` shards hold, shard after shard.
pub open spec fn steps_among(shards: Seq<ExecutionRecord>, n: nat) -> Seq<CpuEvent>
    decreases n,
{
    if n == 0 {
        Seq::empty()
    } else {
        steps_among(shards, (n - 1) as nat) + shards[n - 1].cpu_events@
    }
}

/// The steps that an engine has recorded: those of its complete shards,
/// shard after shard, and then those of the shard that it is in.
pub open spec fn steps_so_far(shards: Seq<ExecutionRecord>, record: &ExecutionRecord) -> Seq<
    CpuEvent,
> {
    steps_among(shards, shards.len()) + record.cpu_events@
}

/// The event `e` is the record of step `j` of the run of the program from
/// the machine `m`: it holds the program counter before the step, the
/// instruction there, and the program counter after the step.
pub open spec fn records_step(p: &Program, m: Machine, j: nat, e: CpuEvent) -> bool {
    &&& after_steps(p, m, j) matches Outcome::Next(mj) && e.pc == mj.pc && e.instruction
        == current_instruction(p, mj)
    &&& after_steps(p, m, j + 1) matches Outcome::Next(mn) && e.next_pc == mn.pc
}

/// The events `steps` from place `base` on are the records of the first
/// `n` steps of the run, in their order.
pub open spec fn steps_recorded(
    p: &Program,
    m: Machine,
    steps: Seq<CpuEvent>,
    base: nat,
    n: nat,
) -> bool {
    &&& steps.len() == base + n
    &&& forall|j: nat| j < n ==> records_step(p, m, j, #[trigger] steps[(base + j) as int])
}

/// More shards of which the first are the same hold the same steps
/// first.
pub proof fn lemma_steps_among_prefix(a: Seq<ExecutionRecord>, b: Seq<ExecutionRecord>, n: nat)
    requires
        a.is_prefix_of(b),
        n <= a.len(),
    ensures
        steps_among(a, n) == steps_among(b, n),
    decreases n,
{
    if n > 0 {
        lemma_steps_among_prefix(a, b, (n - 1) as nat);
    }
}

/// The run of the program from the machine `m` and the counters `c` is
/// complete after exactly `n` steps: the program stops after them, no
/// counter reached its limit on the way, and the last shard can be
/// ended.
pub open spec fn completes(p: &Program, m: Machine, c: Clocks, shard_size: u32, n: nat) -> bool {
    &&& halts_after(p, m, n)
    &&& within_limits(p, m, c, shard_size, n)
    &&& clocks_after(p, m, c, shard_size, n).shard < u32::MAX
}

/// The run of the program from the machine `m` and the counters `c`
/// fails with `e` after `n` steps. The steps are made without a fault and
/// within the limits of the counters. Then the next step runs into the
/// fault `e`; or a counter would leave its range in it, and `e` says so; or
/// the program has stopped, but the number of the last shard is the
/// greatest there is, so that the shard cannot be ended, and `e` says
/// so.
pub open spec fn faults_after(
    p: &Program,
    m: Machine,
    c: Clocks,
    shard_size: u32,
    n: nat,
    e: ExecutionError,
) -> bool {
    &&& runs_for(p, m, n)
    &&& within_limits(p, m, c, shard_size, n)
    &&& after_steps(p, m, n) matches Outcome::Next(mn) && if !p.holds(mn.pc) {
        clocks_after(p, m, c, shard_size, n).shard == u32::MAX && e
            == ExecutionError::ClockOverflow
    } else if limit_reached(
        clocks_after(p, m, c, shard_size, n),
        shard_size,
        current_instruction(p, mn),
        mn,
    ) {
        e == ExecutionError::ClockOverflow
    } else {
        after_steps(p, m, n + 1) == Outcome::Fault(e)
    }
}

impl Runtime {
    /// The invariant of a run that began on the machine `m0` with the
    /// counters `c0`: the machine and the counters are those that the steps
    /// since then lead to, each of the steps was made within the program,
    /// and none reached the limit of a counter.
    pub open spec fn on_track(&self, m0: Machine, c0: Clocks) -> bool {
        let n = (self.state.global_clk - c0.global_clk) as nat;
        &&& self.wf()
        &&& self.shards_wf()
        &&& self.state.global_clk >= c0.global_clk
        &&& after_steps(&*self.program, m0, n) == Outcome::Next(self.machine())
        &&& runs_for(&*self.program, m0, n)
        &&& self.clocks() == clocks_after(&*self.program, m0, c0, self.shard_size, n)
        &&& within_limits(&*self.program, m0, c0, self.shard_size, n)
    }

    /// The steps of a run that began on the machine `m0` when the engine
    /// had recorded `before` are recorded after `before`, in their order.
    pub open spec fn steps_on_track(&self, m0: Machine, c0: Clocks, before: Seq<CpuEvent>) -> bool {
        let n = (self.state.global_clk - c0.global_clk) as nat;
        &&& before.is_prefix_of(steps_so_far(self.shards@, &self.record))
        &&& steps_recorded(
            &*self.program,
            m0,
            steps_so_far(self.shards@, &self.record),
            before.len(),
            n,
        )
    }

    /// One cycle of a run.
    fn cycle_of_run(
        &mut self,
        Ghost(m0): Ghost<Machine>,
        Ghost(c0): Ghost<Clocks>,
        Ghost(recorded): Ghost<Seq<CpuEvent>>,
    ) -> (r: Result<bool, ExecutionError>)
        requires
            old(self).on_track(m0, c0),
            old(self).steps_on_track(m0, c0, recorded),
            old(self).program.holds(old(self).state.pc),
        ensures
            match r {
                Ok(done) => {
                    &&& final(self).program == old(self).program
                    &&& final(self).shard_size == old(self).shard_size
                    &&& old(self).shards@.len() <= final(self).shards@.len()
                    &&& old(self).shards@.is_prefix_of(final(self).shards@)
                    &&& final(self).on_track(m0, c0)
                    &&& final(self).steps_on_track(m0, c0, recorded)
                    &&& final(self).state.global_clk == old(self).state.global_clk + 1
                    &&& done == !final(self).program.holds(final(self).state.pc)
                },
                Err(e) => faults_after(
                    &*old(self).program,
                    m0,
                    c0,
                    old(self).shard_size,
                    (old(self).state.global_clk - c0.global_clk) as nat,
                    e,
                ),
            },
    {
        let ghost n = (self.state.global_clk - c0.global_clk) as nat;
        let ghost before = self.machine();
        let ghost prog = self.program;
        let ghost size = self.shard_size;
        proof {
            assert(after_steps(&*prog, m0, n + 1) == step_outcome(
                current_instruction(&*prog, before),
                before,
            ));
            assert(clocks_after(&*prog, m0, c0, size, n + 1) == clocks_next(
                self.clocks(),
                size,
                current_instruction(&*prog, before),
                before,
            ));
        }
        let r = self.execute_cycle();
        proof {
            if r is Ok {
                assert(after_steps(&*prog, m0, n + 1) == Outcome::Next(self.machine()));
                assert forall|k: nat| k < n + 1 implies (#[trigger] after_steps(&*prog, m0, k)
                    matches Outcome::Next(mk) && prog.holds(mk.pc)) by {
                    if k < n {
                        assert(runs_for(&*prog, m0, n));
                    }
                }
                assert forall|k: nat| k < n + 1 implies #[trigger] step_within_limits(
                    &*prog,
                    m0,
                    c0,
                    size,
                    k,
                ) by {
                    if k < n {
                        assert(within_limits(&*prog, m0, c0, size, n));
                    }
                }
                assert((self.state.global_clk - c0.global_clk) as nat == n + 1);
                let was = steps_so_far(old(self).shards@, &old(self).record);
                let now = steps_so_far(self.shards@, &self.record);
                let e = self.record.cpu_events@.last();
                assert(now == was.push(e));
                assert(records_step(&*prog, m0, n, e));
                assert forall|j: nat| j < n + 1 implies records_step(
                    &*prog,
                    m0,
                    j,
                    #[trigger] now[(recorded.len() + j) as int],
                ) by {
                    if j < n {
                        assert(now[(recorded.len() + j) as int] == was[(recorded.len() + j) as int]);
                    }
                }
            }
        }
        r
    }

    /// Runs the program until the program counter leaves it, shard by
    /// shard; then ends the last shard. All records are in `shards` in the
    /// order of the shards. The run fails where a step runs into a fault or
    /// a counter would leave its range, and only there.
    pub fn run(&mut self) -> (r: Result<(), ExecutionError>)
        requires
            old(self).wf(),
            old(self).shards_wf(),
        ensures
            match r {
                Ok(()) => {
                    &&& final(self).program == old(self).program
                    &&& final(self).shard_size == old(self).shard_size
                    &&& final(self).state.global_clk >= old(self).state.global_clk
                    &&& completes(
                        &*old(self).program,
                        old(self).machine(),
                        old(self).clocks(),
                        old(self).shard_size,
                        (final(self).state.global_clk - old(self).state.global_clk) as nat,
                    )
                    &&& after_steps(
                        &*old(self).program,
                        old(self).machine(),
                        (final(self).state.global_clk - old(self).state.global_clk) as nat,
                    ) == Outcome::Next(final(self).machine())
                    &&& final(self).wf()
                    &&& final(self).shards_wf()
                    &&& final(self).shards@.len() > old(self).shards@.len()
                    &&& old(self).shards@.is_prefix_of(final(self).shards@)
                    &&& final(self).record.is_empty()
                    &&& steps_recorded(
                        &*old(self).program,
                        old(self).machine(),
                        steps_among(final(self).shards@, final(self).shards@.len()),
                        steps_so_far(old(self).shards@, &old(self).record).len(),
                        (final(self).state.global_clk - old(self).state.global_clk) as nat,
                    )
                    &&& steps_so_far(old(self).shards@, &old(self).record).is_prefix_of(
                        steps_among(final(self).shards@, final(self).shards@.len()),
                    )
                },
                Err(e) => exists|n: nat|
                    faults_after(
                        &*old(self).program,
                        old(self).machine(),
                        old(self).clocks(),
                        old(self).shard_size,
                        n,
                        e,
                    ),
            },
    {
        let ghost m0 = self.machine();
        let ghost c0 = self.clocks();
        let ghost recorded = steps_so_far(self.shards@, &self.record);
        let mut done = match self.program.fetch(self.state.pc) {
            Some(_) => false,
            None => true,
        };
        while !done
            invariant
                self.on_track(m0, c0),
                self.steps_on_track(m0, c0, recorded),
                old(self).shards@.is_prefix_of(self.shards@),
                recorded == steps_so_far(old(self).shards@, &old(self).record),
                self.program == old(self).program,
                self.shard_size == old(self).shard_size,
                old(self).shards@.len() <= self.shards@.len(),
                c0 == old(self).clocks(),
                m0 == old(self).machine(),
                done == !self.program.holds(self.state.pc),
            decreases u64::MAX - self.state.global_clk,
        {
            match self.cycle_of_run(Ghost(m0), Ghost(c0), Ghost(recorded)) {
                Ok(d) => {
                    done = d;
                },
                Err(e) => {
                    return Err(e);
                },
            }
        }
        if self.state.memory.shard == u32::MAX {
            proof {
                let n = (self.state.global_clk - c0.global_clk) as nat;
                assert(faults_after(
                    &*old(self).program,
                    m0,
                    c0,
                    old(self).shard_size,
                    n,
                    ExecutionError::ClockOverflow,
                ));
            }
            return Err(ExecutionError::ClockOverflow);
        }
        let ghost last = *self;
        self.start_new_shard();
        proof {
            lemma_steps_among_prefix(last.shards@, self.shards@, last.shards@.len());
            assert(steps_among(self.shards@, self.shards@.len()) == steps_so_far(
                last.shards@,
                &last.record,
            ));
        }
        Ok(())
    }
}

} // verus!
