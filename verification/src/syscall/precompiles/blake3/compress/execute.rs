//! How the engine runs the inner loop of the compression in memory.

use super::Blake3CompressInnerChip;
use crate::events::{
    Blake3CompressInnerEvent, MemoryReadRecord, MemoryRecord, MemoryWriteRecord,
};
use crate::runtime::memory::{timed_read, timed_write};
use crate::record::ExecutionRecord;
use crate::runtime::{check_range, range_fault, ExecutionError, Runtime};
use crate::syscall::precompiles::blake3::{
    g_func, g_spec, G_INDEX, MSG_SCHEDULE, NUM_MSG_WORDS_PER_CALL, NUM_STATE_WORDS_PER_CALL,
    OPERATION_COUNT, ROUND_COUNT,
};
use crate::syscall::precompiles::sha256::extend::execute::word_addr;
use vstd::prelude::*;

verus! {

/// The fault, if any, of a compression with the state at `state_ptr` and
/// the message at `message_ptr`.
pub open spec fn blake3_fault(state_ptr: u32, message_ptr: u32) -> Option<ExecutionError> {
    if range_fault(state_ptr, 16) is Some {
        range_fault(state_ptr, 16)
    } else {
        range_fault(message_ptr, 16)
    }
}

/// What one call of the mixing function takes: four words of the state
/// and two of the message.
pub open spec fn g_input(
    values: Map<u32, u32>,
    state_ptr: u32,
    message_ptr: u32,
    round: int,
    operation: int,
) -> Seq<u32> {
    seq![
        values[word_addr(state_ptr, G_INDEX[operation][0] as int)],
        values[word_addr(state_ptr, G_INDEX[operation][1] as int)],
        values[word_addr(state_ptr, G_INDEX[operation][2] as int)],
        values[word_addr(state_ptr, G_INDEX[operation][3] as int)],
        values[word_addr(message_ptr, MSG_SCHEDULE[round][2 * operation] as int)],
        values[word_addr(message_ptr, MSG_SCHEDULE[round][2 * operation + 1] as int)],
    ]
}

/// Memory after one call of the mixing function.
pub open spec fn after_operation(
    values: Map<u32, u32>,
    state_ptr: u32,
    message_ptr: u32,
    round: int,
    operation: int,
) -> Map<u32, u32> {
    let out = g_spec(g_input(values, state_ptr, message_ptr, round, operation));
    values.insert(word_addr(state_ptr, G_INDEX[operation][0] as int), out[0]).insert(
        word_addr(state_ptr, G_INDEX[operation][1] as int),
        out[1],
    ).insert(word_addr(state_ptr, G_INDEX[operation][2] as int), out[2]).insert(
        word_addr(state_ptr, G_INDEX[operation][3] as int),
        out[3],
    )
}

/// Memory after the first `n` calls of the mixing function, eight to a
/// round.
pub open spec fn after_operations(
    values: Map<u32, u32>,
    state_ptr: u32,
    message_ptr: u32,
    n: int,
) -> Map<u32, u32>
    decreases n,
{
    if n <= 0 {
        values
    } else {
        after_operation(
            after_operations(values, state_ptr, message_ptr, n - 1),
            state_ptr,
            message_ptr,
            (n - 1) / 8,
            (n - 1) % 8,
        )
    }
}

/// What a run of calls of the mixing function leaves: what every address
/// holds, with the time of its last access, and the records of the reads
/// of the message and of the writes of the state, in the order in which
/// they were made.
pub struct Accesses {
    pub entries: Map<u32, MemoryRecord>,
    pub reads: Seq<MemoryReadRecord>,
    pub writes: Seq<MemoryWriteRecord>,
}

/// One call of the mixing function, in the shard `shard` at the time `t`:
/// the two words of the message are read, then the four words of the state
/// are written, all at the time `t`.
pub open spec fn operation_on(
    a: Accesses,
    state_ptr: u32,
    message_ptr: u32,
    shard: u32,
    t: u32,
    round: int,
    operation: int,
) -> Accesses {
    let es = a.entries;
    let values = Map::total(|x: u32| es[x].value);
    let out = g_spec(g_input(values, state_ptr, message_ptr, round, operation));
    let (e1, r0) = timed_read(
        es,
        word_addr(message_ptr, MSG_SCHEDULE[round][2 * operation] as int),
        shard,
        t,
    );
    let (e2, r1) = timed_read(
        e1,
        word_addr(message_ptr, MSG_SCHEDULE[round][2 * operation + 1] as int),
        shard,
        t,
    );
    let (e3, w0) = timed_write(
        e2,
        word_addr(state_ptr, G_INDEX[operation][0] as int),
        out[0],
        shard,
        t,
    );
    let (e4, w1) = timed_write(
        e3,
        word_addr(state_ptr, G_INDEX[operation][1] as int),
        out[1],
        shard,
        t,
    );
    let (e5, w2) = timed_write(
        e4,
        word_addr(state_ptr, G_INDEX[operation][2] as int),
        out[2],
        shard,
        t,
    );
    let (e6, w3) = timed_write(
        e5,
        word_addr(state_ptr, G_INDEX[operation][3] as int),
        out[3],
        shard,
        t,
    );
    Accesses {
        entries: e6,
        reads: a.reads.push(r0).push(r1),
        writes: a.writes.push(w0).push(w1).push(w2).push(w3),
    }
}

/// The first `n` calls of the mixing function, eight to a round, from the
/// clock `clk` on; each call takes four ticks.
pub open spec fn operations_on(
    es: Map<u32, MemoryRecord>,
    state_ptr: u32,
    message_ptr: u32,
    shard: u32,
    clk: u32,
    n: int,
) -> Accesses
    decreases n,
{
    if n <= 0 {
        Accesses { entries: es, reads: Seq::empty(), writes: Seq::empty() }
    } else {
        operation_on(
            operations_on(es, state_ptr, message_ptr, shard, clk, n - 1),
            state_ptr,
            message_ptr,
            shard,
            (clk + 4 * (n - 1)) as u32,
            (n - 1) / 8,
            (n - 1) % 8,
        )
    }
}

/// One call of the mixing function on the memory: reads, computes, writes.
fn one_operation(
    rt: &mut Runtime,
    state_ptr: u32,
    message_ptr: u32,
    round: usize,
    operation: usize,
    message_reads: &mut Vec<MemoryReadRecord>,
    state_writes: &mut Vec<MemoryWriteRecord>,
)
    requires
        old(rt).state.memory.wf(),
        old(rt).state.clk + 4 <= u32::MAX,
        blake3_fault(state_ptr, message_ptr) is None,
        round < ROUND_COUNT,
        operation < OPERATION_COUNT,
    ensures
        final(rt).precompile_frame(old(rt), 4),
        final(rt).record == old(rt).record,
        final(rt).machine().values == after_operation(
            old(rt).machine().values,
            state_ptr,
            message_ptr,
            round as int,
            operation as int,
        ),
        final(message_reads)@.len() == old(message_reads)@.len() + 2,
        final(state_writes)@.len() == old(state_writes)@.len() + 4,
        (Accesses {
            entries: final(rt).state.memory.entries(),
            reads: final(message_reads)@,
            writes: final(state_writes)@,
        }) == operation_on(
            Accesses {
                entries: old(rt).state.memory.entries(),
                reads: old(message_reads)@,
                writes: old(state_writes)@,
            },
            state_ptr,
            message_ptr,
            old(rt).state.memory.shard,
            old(rt).state.clk,
            round as int,
            operation as int,
        ),
{
    let state_index = G_INDEX[operation];
    proof {
        rt.lemma_values_of_entries();
    }
    let m0 = MSG_SCHEDULE[round][2 * operation];
    let m1 = MSG_SCHEDULE[round][2 * operation + 1];
    let ghost values = rt.machine().values;
    let t = rt.state.clk;
    // Read the input to g.
    let s0 = rt.word(state_ptr + (state_index[0] as u32) * 4);
    let s1 = rt.word(state_ptr + (state_index[1] as u32) * 4);
    let s2 = rt.word(state_ptr + (state_index[2] as u32) * 4);
    let s3 = rt.word(state_ptr + (state_index[3] as u32) * 4);
    let r0 = rt.mr(message_ptr + (m0 as u32) * 4, t);
    message_reads.push(r0);
    let r1 = rt.mr(message_ptr + (m1 as u32) * 4, t);
    message_reads.push(r1);
    let input = [s0, s1, s2, s3, r0.value, r1.value];
    assert(input@ =~= g_input(values, state_ptr, message_ptr, round as int, operation as int));

    // Call g.
    let results = g_func(input);

    // Write the state.
    let w0 = rt.mw(state_ptr + (state_index[0] as u32) * 4, results[0], t);
    state_writes.push(w0);
    let w1 = rt.mw(state_ptr + (state_index[1] as u32) * 4, results[1], t);
    state_writes.push(w1);
    let w2 = rt.mw(state_ptr + (state_index[2] as u32) * 4, results[2], t);
    state_writes.push(w2);
    let w3 = rt.mw(state_ptr + (state_index[3] as u32) * 4, results[3], t);
    state_writes.push(w3);

    // Increment the clock for the next call of g.
    rt.state.clk = rt.state.clk + 4;
}

impl Blake3CompressInnerChip {
    /// The clock ticks that one compression takes.
    pub fn num_extra_cycles(&self) -> (r: u32)
        ensures
            r == 224,
    {
        (4 * ROUND_COUNT * OPERATION_COUNT) as u32
    }

    /// Runs the seven rounds on the sixteen words of state at `state_ptr`
    /// with the sixteen words of message at `message_ptr`, records the
    /// reads of the message and the writes of the state, and leaves one
    /// event in the record.
    pub fn execute(&self, rt: &mut Runtime, state_ptr: u32, message_ptr: u32) -> (r: Result<
        Option<u32>,
        ExecutionError,
    >)
        requires
            old(rt).state.memory.wf(),
            old(rt).state.clk + 224 <= u32::MAX,
        ensures
            match r {
                Ok(v) => {
                    &&& v is None
                    &&& blake3_fault(state_ptr, message_ptr) is None
                    &&& final(rt).precompile_frame(old(rt), 224)
                    &&& final(rt).machine().values == after_operations(
                        old(rt).machine().values,
                        state_ptr,
                        message_ptr,
                        56,
                    )
                    &&& final(rt).record == (ExecutionRecord {
                        blake3_compress_inner_events: final(rt).record.blake3_compress_inner_events,
                        ..old(rt).record
                    })
                    &&& final(rt).record.blake3_compress_inner_events@.len() == old(rt).record.blake3_compress_inner_events@.len() + 1
                    &&& ({
                        let e = final(rt).record.blake3_compress_inner_events@.last();
                        &&& e.shard == old(rt).state.memory.shard
                        &&& e.clk == old(rt).state.clk
                        &&& e.state_ptr == state_ptr
                        &&& e.message_ptr == message_ptr
                        &&& e.message_reads@.len() == 112
                        &&& e.state_writes@.len() == 224
                        &&& (Accesses {
                            entries: final(rt).state.memory.entries(),
                            reads: e.message_reads@,
                            writes: e.state_writes@,
                        }) == operations_on(
                            old(rt).state.memory.entries(),
                            state_ptr,
                            message_ptr,
                            old(rt).state.memory.shard,
                            old(rt).state.clk,
                            56,
                        )
                    })
                },
                Err(e) => blake3_fault(state_ptr, message_ptr) == Some(e) && *final(rt) == *old(rt),
            },
    {
        match check_range(state_ptr, 16) {
            Some(e) => {
                return Err(e);
            },
            None => {},
        }
        match check_range(message_ptr, 16) {
            Some(e) => {
                return Err(e);
            },
            None => {},
        }
        let saved_clk = rt.state.clk;
        let shard = rt.current_shard();
        let mut message_reads: Vec<MemoryReadRecord> = Vec::new();
        let mut state_writes: Vec<MemoryWriteRecord> = Vec::new();
        let mut round: usize = 0;
        while round < ROUND_COUNT
            invariant
                round <= ROUND_COUNT,
                blake3_fault(state_ptr, message_ptr) is None,
                saved_clk == old(rt).state.clk,
                saved_clk + 224 <= u32::MAX,
                rt.precompile_frame(old(rt), 32 * round),
                rt.record == old(rt).record,
                rt.machine().values == after_operations(
                    old(rt).machine().values,
                    state_ptr,
                    message_ptr,
                    8 * round,
                ),
                message_reads@.len() == 16 * round,
                state_writes@.len() == 32 * round,
                shard == old(rt).state.memory.shard,
                (Accesses {
                    entries: rt.state.memory.entries(),
                    reads: message_reads@,
                    writes: state_writes@,
                }) == operations_on(
                    old(rt).state.memory.entries(),
                    state_ptr,
                    message_ptr,
                    shard,
                    saved_clk,
                    8 * round,
                ),
            decreases ROUND_COUNT - round,
        {
            let mut operation: usize = 0;
            while operation < OPERATION_COUNT
                invariant
                    round < ROUND_COUNT,
                    operation <= OPERATION_COUNT,
                    blake3_fault(state_ptr, message_ptr) is None,
                    saved_clk == old(rt).state.clk,
                    saved_clk + 224 <= u32::MAX,
                    rt.precompile_frame(old(rt), 32 * round + 4 * operation),
                    rt.record == old(rt).record,
                    rt.machine().values == after_operations(
                        old(rt).machine().values,
                        state_ptr,
                        message_ptr,
                        8 * round + operation,
                    ),
                    message_reads@.len() == 16 * round + 2 * operation,
                    state_writes@.len() == 32 * round + 4 * operation,
                    shard == old(rt).state.memory.shard,
                    (Accesses {
                        entries: rt.state.memory.entries(),
                        reads: message_reads@,
                        writes: state_writes@,
                    }) == operations_on(
                        old(rt).state.memory.entries(),
                        state_ptr,
                        message_ptr,
                        shard,
                        saved_clk,
                        8 * round + operation,
                    ),
                decreases OPERATION_COUNT - operation,
            {
                proof {
                    let n = 8 * round + operation + 1;
                    assert((n - 1) / 8 == round && (n - 1) % 8 == operation);
                    assert(rt.state.clk == saved_clk + 4 * (n - 1));
                }
                one_operation(
                    rt,
                    state_ptr,
                    message_ptr,
                    round,
                    operation,
                    &mut message_reads,
                    &mut state_writes,
                );
                operation = operation + 1;
            }
            round = round + 1;
        }
        rt.record.blake3_compress_inner_events.push(
            Blake3CompressInnerEvent {
                shard,
                clk: saved_clk,
                state_ptr,
                message_ptr,
                message_reads,
                state_writes,
            },
        );
        Ok(None)
    }
}

} // verus!
