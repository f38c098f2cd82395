//! Drivers that take a program from its first instruction to its last.

use crate::program::Program;
use crate::runtime::step::{
    after_steps, completes, faults_after, initial_clocks, initial_machine, steps_among,
    steps_recorded, steps_so_far,
};
use crate::runtime::{Outcome, DEFAULT_SHARD_SIZE};
use crate::record::ExecutionRecord;
use crate::runtime::{ExecutionError, Runtime};
use crate::stark::shard::{debug_constraints, shard_accepted, DebugError};
use vstd::prelude::*;

verus! {

/// The run of a program from its first instruction, in shards of the
/// default size, is complete after exactly `n` steps.
pub open spec fn run_completes(program: &Program, n: nat) -> bool {
    completes(program, initial_machine(program), initial_clocks(), DEFAULT_SHARD_SIZE, n)
}

/// The run of a program from its first instruction, in shards of the
/// default size, fails with `e` after `n` steps.
pub open spec fn run_faults(program: &Program, n: nat, e: ExecutionError) -> bool {
    faults_after(program, initial_machine(program), initial_clocks(), DEFAULT_SHARD_SIZE, n, e)
}

/// The engine `rt` is what the complete run of a program of `n` steps
/// leaves behind.
pub open spec fn run_of(rt: &Runtime, program: &Program, n: nat) -> bool {
    &&& *rt.program == *program
    &&& run_completes(program, n)
    &&& after_steps(program, initial_machine(program), n) == Outcome::Next(rt.machine())
    &&& rt.state.global_clk == n
    &&& rt.wf()
    &&& rt.shards_wf()
    &&& rt.shards@.len() > 0
    &&& rt.record.is_empty()
    &&& steps_recorded(
        program,
        initial_machine(program),
        steps_among(rt.shards@, rt.shards@.len()),
        0,
        n,
    )
}

/// The number of steps that `program` makes until it stops. A program that
/// runs into a fault has no such number: the fault is given instead.
pub fn get_cycles(program: Program) -> (r: Result<u64, ExecutionError>)
    ensures
        match r {
            Ok(n) => run_completes(&program, n as nat),
            Err(e) => exists|n: nat| run_faults(&program, n, e),
        },
{
    let mut runtime = Runtime::new(program);
    proof {
        assert forall|a: u32| runtime.machine().values.dom().contains(a) by {
            runtime.state.memory.lemma_values(a);
        }
        lemma_fresh(&runtime, &program);
    }
    let ghost before = runtime;
    let r = runtime.run();
    proof {
        assert(*before.program == program);
        assert(before.shard_size == DEFAULT_SHARD_SIZE);
        assert(before.machine() == initial_machine(&program));
        assert(before.clocks() == initial_clocks());
        match r {
            Ok(()) => {
                assert(run_completes(&program, runtime.state.global_clk as nat));
            },
            Err(e) => {
                let n = choose|n: nat|
                    faults_after(
                        &*before.program,
                        before.machine(),
                        before.clocks(),
                        before.shard_size,
                        n,
                        e,
                    );
                assert(run_faults(&program, n, e));
            },
        }
    }
    match r {
        Ok(()) => Ok(runtime.state.global_clk),
        Err(e) => Err(e),
    }
}

/// Why a program did not pass the test of the machine.
#[derive(Debug)]
pub enum ProgramVerificationError {
    /// The program ran into a fault.
    Execution(ExecutionError),
    /// The machine did not accept the shard with this place among the
    /// shards of the run.
    Shard(usize, DebugError),
}

/// Checks the shards of a run against the machine, one after the other.
/// The error gives the place of the first shard that the machine did not
/// accept, and why.
pub fn debug_shards(shards: &Vec<ExecutionRecord>) -> (r: Result<(), (usize, DebugError)>)
    ensures
        r is Ok <==> forall|i: int| 0 <= i < shards@.len() ==> shard_accepted(&#[trigger] shards@[i]),
        r matches Err((i, _)) ==> i < shards@.len() && !shard_accepted(&shards@[i as int])
            && forall|j: int| 0 <= j < i ==> shard_accepted(&#[trigger] shards@[j]),
{
    let mut i: usize = 0;
    while i < shards.len()
        invariant
            i <= shards@.len(),
            forall|j: int| 0 <= j < i ==> shard_accepted(&#[trigger] shards@[j]),
        decreases shards@.len() - i,
    {
        match debug_constraints(&shards[i]) {
            Ok(()) => {},
            Err(e) => {
                return Err((i, e));
            },
        }
        i = i + 1;
    }
    Ok(())
}

/// Runs `program` to its end and checks every shard of the run against
/// the machine: the traces of the chips are made, and every constraint is
/// checked on every row. A program whose run fails, fails with the fault
/// of the run. Otherwise the run is complete, and the result is `Ok`
/// exactly where the machine accepts every shard that the run left; the
/// error gives the place of the first shard that it does not accept.
pub fn run_test(program: Program) -> (r: Result<(), ProgramVerificationError>)
    ensures
        match r {
            Err(ProgramVerificationError::Execution(e)) => exists|n: nat|
                run_faults(&program, n, e),
            Ok(()) => exists|rt: Runtime, n: nat|
                run_of(&rt, &program, n) && forall|i: int|
                    0 <= i < rt.shards@.len() ==> shard_accepted(&#[trigger] rt.shards@[i]),
            Err(ProgramVerificationError::Shard(i, _)) => exists|rt: Runtime, n: nat|
                run_of(&rt, &program, n) && i < rt.shards@.len() && !shard_accepted(
                    &rt.shards@[i as int],
                ) && forall|j: int| 0 <= j < i ==> shard_accepted(&#[trigger] rt.shards@[j]),
        },
{
    let mut runtime = Runtime::new(program);
    proof {
        assert forall|a: u32| runtime.machine().values.dom().contains(a) by {
            runtime.state.memory.lemma_values(a);
        }
        lemma_fresh(&runtime, &program);
    }
    let ghost before = runtime;
    let r = runtime.run();
    proof {
        assert(*before.program == program);
        assert(before.shard_size == DEFAULT_SHARD_SIZE);
        assert(before.machine() == initial_machine(&program));
        assert(before.clocks() == initial_clocks());
        assert(steps_so_far(before.shards@, &before.record) =~= Seq::empty());
    }
    match r {
        Ok(()) => {},
        Err(e) => {
            proof {
                let n = choose|n: nat|
                    faults_after(
                        &*before.program,
                        before.machine(),
                        before.clocks(),
                        before.shard_size,
                        n,
                        e,
                    );
                assert(run_faults(&program, n, e));
            }
            return Err(ProgramVerificationError::Execution(e));
        },
    }
    let ghost n = runtime.state.global_clk as nat;
    proof {
        assert(run_completes(&program, n));
        assert(run_of(&runtime, &program, n));
    }
    match debug_shards(&runtime.shards) {
        Ok(()) => Ok(()),
        Err((i, e)) => Err(ProgramVerificationError::Shard(i, e)),
    }
}

/// An engine that was just made for a program stands at the start of the
/// run of the program.
pub proof fn lemma_fresh(rt: &Runtime, program: &Program)
    requires
        *rt.program == *program,
        rt.state.pc == program.pc_start,
        rt.state.clk == 0,
        rt.state.global_clk == 0,
        rt.state.memory.shard == 1,
        rt.record.is_empty(),
        forall|a: u32| rt.machine().values[a] == Program::image_value(program.memory_image@, a),
        forall|a: u32| rt.machine().values.dom().contains(a),
        rt.state.input_stream@.len() == 0,
        rt.state.output_stream@.len() == 0,
        rt.state.input_stream_ptr == 0,
        rt.record.public_values_digest@ == Seq::new(8, |i: int| 0u32),
    ensures
        rt.machine() == initial_machine(program),
        rt.clocks() == initial_clocks(),
{
    assert(rt.machine().values =~= initial_machine(program).values);
    assert(rt.machine().digest =~= initial_machine(program).digest);
    assert(rt.machine().input =~= initial_machine(program).input);
    assert(rt.machine().output =~= initial_machine(program).output);
}

} // verus!
