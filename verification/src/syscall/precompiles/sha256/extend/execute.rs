//! How the engine extends a message schedule in memory.

use super::ShaExtendChip;
use crate::events::{MemoryReadRecord, MemoryRecord, MemoryWriteRecord, ShaExtendEvent};
use crate::runtime::memory::{timed_read, timed_write};
use crate::record::ExecutionRecord;
use crate::runtime::{check_range, range_fault, ExecutionError, Runtime};
use crate::syscall::precompiles::sha256::{add32, rotate_right, small_sigma0, small_sigma1};
use vstd::prelude::*;

verus! {

/// The address of word `i` of the schedule at `w_ptr`.
pub open spec fn word_addr(w_ptr: u32, i: int) -> u32 {
    (w_ptr + 4 * i) as u32
}

/// Word `i` of the schedule, from the words before it.
pub open spec fn extended_word(values: Map<u32, u32>, w_ptr: u32, i: int) -> u32 {
    add32(
        add32(
            add32(small_sigma1(values[word_addr(w_ptr, i - 2)]), values[word_addr(w_ptr, i - 16)]),
            small_sigma0(values[word_addr(w_ptr, i - 15)]),
        ),
        values[word_addr(w_ptr, i - 7)],
    )
}

/// Memory after the words sixteen to `n - 1` of the schedule at `w_ptr`
/// were computed and written, one after the other.
pub open spec fn extend_values(values: Map<u32, u32>, w_ptr: u32, n: int) -> Map<u32, u32>
    decreases n,
{
    if n <= 16 {
        values
    } else {
        let before = extend_values(values, w_ptr, n - 1);
        before.insert(word_addr(w_ptr, n - 1), extended_word(before, w_ptr, n - 1))
    }
}

/// The five records are those of the accesses `a`.
pub open spec fn recorded(
    a: ExtendAccesses,
    w_i_minus_15: MemoryReadRecord,
    w_i_minus_2: MemoryReadRecord,
    w_i_minus_16: MemoryReadRecord,
    w_i_minus_7: MemoryReadRecord,
    w_i: MemoryWriteRecord,
) -> bool {
    &&& a.w_i_minus_15 == w_i_minus_15
    &&& a.w_i_minus_2 == w_i_minus_2
    &&& a.w_i_minus_16 == w_i_minus_16
    &&& a.w_i_minus_7 == w_i_minus_7
    &&& a.w_i == w_i
}

/// The five accesses that compute one word of a schedule.
pub struct ExtendAccesses {
    pub w_i_minus_15: MemoryReadRecord,
    pub w_i_minus_2: MemoryReadRecord,
    pub w_i_minus_16: MemoryReadRecord,
    pub w_i_minus_7: MemoryReadRecord,
    pub w_i: MemoryWriteRecord,
}

/// The extension of word `i` in the shard `shard` from the time `t` on:
/// four reads and the write, four ticks apart; what every address holds
/// after them, and the five records.
pub open spec fn extend_word_on(
    es: Map<u32, MemoryRecord>,
    w_ptr: u32,
    shard: u32,
    t: u32,
    i: int,
) -> (Map<u32, MemoryRecord>, ExtendAccesses) {
    let values = Map::total(|x: u32| es[x].value);
    let (e1, w_i_minus_15) = timed_read(es, word_addr(w_ptr, i - 15), shard, t);
    let (e2, w_i_minus_2) = timed_read(e1, word_addr(w_ptr, i - 2), shard, (t + 4) as u32);
    let (e3, w_i_minus_16) = timed_read(e2, word_addr(w_ptr, i - 16), shard, (t + 8) as u32);
    let (e4, w_i_minus_7) = timed_read(e3, word_addr(w_ptr, i - 7), shard, (t + 12) as u32);
    let (e5, w_i) = timed_write(
        e4,
        word_addr(w_ptr, i),
        extended_word(values, w_ptr, i),
        shard,
        (t + 16) as u32,
    );
    (e5, ExtendAccesses { w_i_minus_15, w_i_minus_2, w_i_minus_16, w_i_minus_7, w_i })
}

/// What every address holds after the words sixteen to `n - 1` of the
/// schedule were extended, twenty ticks apart from the clock `clk` on.
pub open spec fn extend_entries(
    es: Map<u32, MemoryRecord>,
    w_ptr: u32,
    shard: u32,
    clk: u32,
    n: int,
) -> Map<u32, MemoryRecord>
    decreases n,
{
    if n <= 16 {
        es
    } else {
        extend_word_on(
            extend_entries(es, w_ptr, shard, clk, n - 1),
            w_ptr,
            shard,
            (clk + 20 * (n - 17)) as u32,
            n - 1,
        ).0
    }
}

/// The five records of the extension of word `i`.
pub open spec fn extend_accesses(
    es: Map<u32, MemoryRecord>,
    w_ptr: u32,
    shard: u32,
    clk: u32,
    i: int,
) -> ExtendAccesses {
    extend_word_on(
        extend_entries(es, w_ptr, shard, clk, i),
        w_ptr,
        shard,
        (clk + 20 * (i - 16)) as u32,
        i,
    ).1
}

/// Computes word `i` of the schedule at `w_ptr` and writes it, in twenty
/// ticks of the clock.
#[verifier::rlimit(100)]
#[verifier::spinoff_prover]
fn extend_one(rt: &mut Runtime, w_ptr: u32, i: u32) -> (r: ExtendAccesses)
    requires
        old(rt).state.memory.wf(),
        old(rt).state.clk + 20 <= u32::MAX,
        range_fault(w_ptr, 64) is None,
        16 <= i < 64,
    ensures
        final(rt).precompile_frame(old(rt), 20),
        final(rt).record == old(rt).record,
        final(rt).machine().values == old(rt).machine().values.insert(
            word_addr(w_ptr, i as int),
            extended_word(old(rt).machine().values, w_ptr, i as int),
        ),
        r.w_i.value == extended_word(old(rt).machine().values, w_ptr, i as int),
        (final(rt).state.memory.entries(), r) == extend_word_on(
            old(rt).state.memory.entries(),
            w_ptr,
            old(rt).state.memory.shard,
            old(rt).state.clk,
            i as int,
        ),
{
    proof {
        rt.lemma_values_of_entries();
    }
    // Read w[i-15].
    let t = rt.state.clk;
    let w_i_minus_15 = rt.mr(w_ptr + (i - 15) * 4, t);
    rt.state.clk = rt.state.clk + 4;

    // Compute `s0`.
    let s0 = rotate_right(w_i_minus_15.value, 7) ^ rotate_right(w_i_minus_15.value, 18) ^ (
    w_i_minus_15.value >> 3);

    // Read w[i-2].
    let t = rt.state.clk;
    let w_i_minus_2 = rt.mr(w_ptr + (i - 2) * 4, t);
    rt.state.clk = rt.state.clk + 4;

    // Compute `s1`.
    let s1 = rotate_right(w_i_minus_2.value, 17) ^ rotate_right(w_i_minus_2.value, 19) ^ (
    w_i_minus_2.value >> 10);

    // Read w[i-16].
    let t = rt.state.clk;
    let w_i_minus_16 = rt.mr(w_ptr + (i - 16) * 4, t);
    rt.state.clk = rt.state.clk + 4;

    // Read w[i-7].
    let t = rt.state.clk;
    let w_i_minus_7 = rt.mr(w_ptr + (i - 7) * 4, t);
    rt.state.clk = rt.state.clk + 4;

    // Compute `w_i`.
    let w_i = s1.wrapping_add(w_i_minus_16.value).wrapping_add(s0).wrapping_add(
        w_i_minus_7.value,
    );

    // Write w[i].
    let t = rt.state.clk;
    let record = rt.mw(w_ptr + i * 4, w_i, t);
    rt.state.clk = rt.state.clk + 4;
    ExtendAccesses { w_i_minus_15, w_i_minus_2, w_i_minus_16, w_i_minus_7, w_i: record }
}

impl ShaExtendChip {
    /// The clock ticks that one extension takes.
    pub fn num_extra_cycles(&self) -> (r: u32)
        ensures
            r == 960,
    {
        48 * 20
    }

    /// Extends the schedule whose first sixteen words stand at `w_ptr`:
    /// reads, computes and writes the words sixteen to sixty-three, records
    /// every access, and leaves one event in the record.
    pub fn execute(&self, rt: &mut Runtime, w_ptr: u32, arg2: u32) -> (r: Result<
        Option<u32>,
        ExecutionError,
    >)
        requires
            old(rt).state.memory.wf(),
            old(rt).state.clk + 960 <= u32::MAX,
        ensures
            match r {
                Ok(v) => {
                    &&& v is None
                    &&& range_fault(w_ptr, 64) is None
                    &&& final(rt).precompile_frame(old(rt), 960)
                    &&& final(rt).machine().values == extend_values(
                        old(rt).machine().values,
                        w_ptr,
                        64,
                    )
                    &&& final(rt).record == (ExecutionRecord {
                        sha_extend_events: final(rt).record.sha_extend_events,
                        ..old(rt).record
                    })
                    &&& final(rt).record.sha_extend_events@.len() == old(rt).record.sha_extend_events@.len() + 1
                    &&& ({
                        let e = final(rt).record.sha_extend_events@.last();
                        &&& e.shard == old(rt).state.memory.shard
                        &&& e.clk == old(rt).state.clk
                        &&& e.w_ptr == w_ptr
                        &&& e.w_i_minus_15_reads@.len() == 48
                        &&& e.w_i_minus_2_reads@.len() == 48
                        &&& e.w_i_minus_16_reads@.len() == 48
                        &&& e.w_i_minus_7_reads@.len() == 48
                        &&& e.w_i_writes@.len() == 48
                        &&& forall|k: int|
                            0 <= k < 48 ==> (#[trigger] e.w_i_writes@[k]).value
                                == final(rt).machine().values[word_addr(w_ptr, 16 + k)]
                        &&& final(rt).state.memory.entries() == extend_entries(
                            old(rt).state.memory.entries(),
                            w_ptr,
                            old(rt).state.memory.shard,
                            old(rt).state.clk,
                            64,
                        )
                        &&& forall|k: int|
                            0 <= k < 48 ==> recorded(
                                extend_accesses(
                                    old(rt).state.memory.entries(),
                                    w_ptr,
                                    old(rt).state.memory.shard,
                                    old(rt).state.clk,
                                    16 + k,
                                ),
                                #[trigger] e.w_i_minus_15_reads@[k],
                                e.w_i_minus_2_reads@[k],
                                e.w_i_minus_16_reads@[k],
                                e.w_i_minus_7_reads@[k],
                                e.w_i_writes@[k],
                            )
                    })
                },
                Err(e) => range_fault(w_ptr, 64) == Some(e) && *final(rt) == *old(rt),
            },
    {
        match check_range(w_ptr, 64) {
            Some(e) => {
                return Err(e);
            },
            None => {},
        }
        let clk_init = rt.state.clk;
        let shard = rt.current_shard();
        let mut w_i_minus_15_reads: Vec<MemoryReadRecord> = Vec::new();
        let mut w_i_minus_2_reads: Vec<MemoryReadRecord> = Vec::new();
        let mut w_i_minus_16_reads: Vec<MemoryReadRecord> = Vec::new();
        let mut w_i_minus_7_reads: Vec<MemoryReadRecord> = Vec::new();
        let mut w_i_writes: Vec<MemoryWriteRecord> = Vec::new();
        let mut i: u32 = 16;
        while i < 64
            invariant
                16 <= i <= 64,
                range_fault(w_ptr, 64) is None,
                clk_init == old(rt).state.clk,
                clk_init + 960 <= u32::MAX,
                rt.precompile_frame(old(rt), 20 * (i - 16)),
                rt.record == old(rt).record,
                rt.machine().values == extend_values(old(rt).machine().values, w_ptr, i as int),
                w_i_minus_15_reads@.len() == i - 16,
                w_i_minus_2_reads@.len() == i - 16,
                w_i_minus_16_reads@.len() == i - 16,
                w_i_minus_7_reads@.len() == i - 16,
                w_i_writes@.len() == i - 16,
                forall|k: int|
                    0 <= k < i - 16 ==> (#[trigger] w_i_writes@[k]).value
                        == rt.machine().values[word_addr(w_ptr, 16 + k)],
                shard == old(rt).state.memory.shard,
                rt.state.memory.entries() == extend_entries(
                    old(rt).state.memory.entries(),
                    w_ptr,
                    shard,
                    clk_init,
                    i as int,
                ),
                forall|k: int|
                    0 <= k < i - 16 ==> recorded(
                        extend_accesses(
                            old(rt).state.memory.entries(),
                            w_ptr,
                            shard,
                            clk_init,
                            16 + k,
                        ),
                        #[trigger] w_i_minus_15_reads@[k],
                        w_i_minus_2_reads@[k],
                        w_i_minus_16_reads@[k],
                        w_i_minus_7_reads@[k],
                        w_i_writes@[k],
                    ),
            decreases 64 - i,
        {
            let ghost before = rt.machine().values;
            proof {
                assert(rt.state.clk == clk_init + 20 * (i - 16));
            }
            let acc = extend_one(rt, w_ptr, i);
            w_i_minus_15_reads.push(acc.w_i_minus_15);
            w_i_minus_2_reads.push(acc.w_i_minus_2);
            w_i_minus_16_reads.push(acc.w_i_minus_16);
            w_i_minus_7_reads.push(acc.w_i_minus_7);
            w_i_writes.push(acc.w_i);
            proof {
                assert(recorded(
                    extend_accesses(
                        old(rt).state.memory.entries(),
                        w_ptr,
                        shard,
                        clk_init,
                        i as int,
                    ),
                    w_i_minus_15_reads@[i - 16],
                    w_i_minus_2_reads@[i - 16],
                    w_i_minus_16_reads@[i - 16],
                    w_i_minus_7_reads@[i - 16],
                    w_i_writes@[i - 16],
                ));
                let ghost ws = w_i_writes@;
                assert forall|k: int| 0 <= k < i + 1 - 16 implies (#[trigger] ws[k]).value
                    == rt.machine().values[word_addr(w_ptr, 16 + k)] by {
                    if k < i - 16 {
                        assert(word_addr(w_ptr, 16 + k) != word_addr(w_ptr, i as int));
                    }
                }
            }
            i = i + 1;
        }
        // Push the SHA extend event.
        rt.record.sha_extend_events.push(
            ShaExtendEvent {
                shard,
                clk: clk_init,
                w_ptr,
                w_i_minus_15_reads,
                w_i_minus_2_reads,
                w_i_minus_16_reads,
                w_i_minus_7_reads,
                w_i_writes,
            },
        );
        Ok(None)
    }
}

} // verus!
