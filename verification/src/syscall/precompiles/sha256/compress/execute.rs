//! How the engine compresses one block in memory.

use super::{compressed, round, round_temp1, round_temp2, rounds, ShaCompressChip};
use crate::events::{MemoryReadRecord, MemoryWriteRecord, ShaCompressEvent};
use crate::record::ExecutionRecord;
use crate::runtime::memory::{stepped_reads, stepped_writes};
use crate::runtime::{check_range, range_fault, ExecutionError, Runtime};
use crate::syscall::precompiles::sha256::extend::execute::word_addr;
use crate::syscall::precompiles::sha256::{
    add32, add_words, choose_of, majority_of, sigma0_of, sigma1_of, SHA_COMPRESS_K,
};
use vstd::prelude::*;

verus! {

/// The `n` words that memory holds from `ptr` on.
pub open spec fn words_at(values: Map<u32, u32>, ptr: u32, n: nat) -> Seq<u32> {
    Seq::new(n, |i: int| values[word_addr(ptr, i)])
}

/// Memory after the first `n` of the words `ws` were written from `ptr`
/// on.
pub open spec fn write_words(values: Map<u32, u32>, ptr: u32, ws: Seq<u32>, n: int) -> Map<
    u32,
    u32,
>
    decreases n,
{
    if n <= 0 {
        values
    } else {
        write_words(values, ptr, ws, n - 1).insert(word_addr(ptr, n - 1), ws[n - 1])
    }
}

/// The fault, if any, of a compression with the schedule at `w_ptr` and
/// the state at `h_ptr`.
pub open spec fn compress_fault(w_ptr: u32, h_ptr: u32) -> Option<ExecutionError> {
    if range_fault(w_ptr, 64) is Some {
        range_fault(w_ptr, 64)
    } else {
        range_fault(h_ptr, 8)
    }
}

/// One round of the compression on the eight working variables.
fn compress_round(s: &[u32; 8], w: u32, k: u32) -> (r: [u32; 8])
    ensures
        r@ == round(s@, w, k),
{
    let a = s[0];
    let b = s[1];
    let c = s[2];
    let d = s[3];
    let e = s[4];
    let f = s[5];
    let g = s[6];
    let h = s[7];
    let s1 = sigma1_of(e);
    let ch = choose_of(e, f, g);
    let temp1 = add_words(add_words(add_words(add_words(h, s1), ch), k), w);
    let s0 = sigma0_of(a);
    let maj = majority_of(a, b, c);
    let temp2 = add_words(s0, maj);
    assert(temp1 == round_temp1(s@, w, k));
    assert(temp2 == round_temp2(s@));
    let r = [add_words(temp1, temp2), a, b, c, add_words(d, temp1), e, f, g];
    assert(r@ =~= round(s@, w, k));
    r
}

impl ShaCompressChip {
    /// The clock ticks that one compression takes.
    pub fn num_extra_cycles(&self) -> (r: u32)
        ensures
            r == 320,
    {
        8 * 4 + 64 * 4 + 8 * 4
    }

    /// Compresses the block whose schedule stands at `w_ptr` into the hash
    /// state at `h_ptr`: reads the state and the schedule, runs the
    /// sixty-four rounds, writes the new state, records every access, and
    /// leaves one event in the record.
    pub fn execute(&self, rt: &mut Runtime, w_ptr: u32, h_ptr: u32) -> (r: Result<
        Option<u32>,
        ExecutionError,
    >)
        requires
            old(rt).state.memory.wf(),
            old(rt).state.clk + 320 <= u32::MAX,
        ensures
            match r {
                Ok(v) => {
                    let h = words_at(old(rt).machine().values, h_ptr, 8);
                    let w = words_at(old(rt).machine().values, w_ptr, 64);
                    &&& v is None
                    &&& compress_fault(w_ptr, h_ptr) is None
                    &&& final(rt).precompile_frame(old(rt), 320)
                    &&& final(rt).machine().values == write_words(
                        old(rt).machine().values,
                        h_ptr,
                        compressed(h, w, SHA_COMPRESS_K@),
                        8,
                    )
                    &&& final(rt).record == (ExecutionRecord {
                        sha_compress_events: final(rt).record.sha_compress_events,
                        ..old(rt).record
                    })
                    &&& final(rt).record.sha_compress_events@.len() == old(rt).record.sha_compress_events@.len() + 1
                    &&& ({
                        let e = final(rt).record.sha_compress_events@.last();
                        &&& e.shard == old(rt).state.memory.shard
                        &&& e.clk == old(rt).state.clk
                        &&& e.w_ptr == w_ptr
                        &&& e.h_ptr == h_ptr
                        &&& e.w@ == w
                        &&& e.h@ == h
                        &&& e.h_read_records@.len() == 8
                        &&& e.w_i_read_records@.len() == 64
                        &&& e.h_write_records@.len() == 8
                        &&& ({
                            let shard = old(rt).state.memory.shard;
                            let clk = old(rt).state.clk;
                            let first = stepped_reads(
                                old(rt).state.memory.entries(),
                                h_ptr,
                                shard,
                                clk,
                                8,
                            );
                            let second = stepped_reads(
                                first.0,
                                w_ptr,
                                shard,
                                (clk + 32) as u32,
                                64,
                            );
                            &&& e.h_read_records@ == first.1
                            &&& e.w_i_read_records@ == second.1
                            &&& (final(rt).state.memory.entries(), e.h_write_records@)
                                == stepped_writes(
                                second.0,
                                h_ptr,
                                compressed(h, w, SHA_COMPRESS_K@),
                                shard,
                                (clk + 288) as u32,
                                8,
                            )
                        })
                    })
                },
                Err(e) => compress_fault(w_ptr, h_ptr) == Some(e) && *final(rt) == *old(rt),
            },
    {
        match check_range(w_ptr, 64) {
            Some(e) => {
                return Err(e);
            },
            None => {},
        }
        match check_range(h_ptr, 8) {
            Some(e) => {
                return Err(e);
            },
            None => {},
        }
        let start_clk = rt.state.clk;
        let shard = rt.current_shard();
        let ghost values0 = rt.machine().values;
        let ghost h0 = words_at(values0, h_ptr, 8);
        let ghost w0 = words_at(values0, w_ptr, 64);
        let mut h_read_records: Vec<MemoryReadRecord> = Vec::new();
        let mut w_i_read_records: Vec<MemoryReadRecord> = Vec::new();
        let mut h_write_records: Vec<MemoryWriteRecord> = Vec::new();
        let ghost es0 = rt.state.memory.entries();

        // Execute the "initialize" phase.
        let mut hx = [0u32; 8];
        let mut i: u32 = 0;
        while i < 8
            invariant
                i <= 8,
                range_fault(h_ptr, 8) is None,
                start_clk + 320 <= u32::MAX,
                start_clk == old(rt).state.clk,
                rt.precompile_frame(old(rt), 4 * i),
                rt.record == old(rt).record,
                rt.machine().values == values0,
                h0 == words_at(values0, h_ptr, 8),
                h_read_records@.len() == i,
                forall|k: int| 0 <= k < i ==> hx@[k] == h0[k],
                shard == old(rt).state.memory.shard,
                es0 == old(rt).state.memory.entries(),
                (rt.state.memory.entries(), h_read_records@) == stepped_reads(
                    es0,
                    h_ptr,
                    shard,
                    start_clk,
                    i as nat,
                ),
            decreases 8 - i,
        {
            let t = rt.state.clk;
            let record = rt.mr(h_ptr + i * 4, t);
            hx[i as usize] = record.value;
            h_read_records.push(record);
            rt.state.clk = rt.state.clk + 4;
            i = i + 1;
        }
        assert(hx@ =~= h0);
        let ghost es1 = rt.state.memory.entries();

        // Execute the "compress" phase.
        let mut original_w: Vec<u32> = Vec::new();
        let mut v = hx;
        let mut j: u32 = 0;
        while j < 64
            invariant
                j <= 64,
                range_fault(w_ptr, 64) is None,
                start_clk + 320 <= u32::MAX,
                start_clk == old(rt).state.clk,
                rt.precompile_frame(old(rt), 32 + 4 * j),
                rt.record == old(rt).record,
                rt.machine().values == values0,
                w0 == words_at(values0, w_ptr, 64),
                w_i_read_records@.len() == j,
                original_w@.len() == j,
                forall|k: int| 0 <= k < j ==> original_w@[k] == w0[k],
                v@ == rounds(h0, w0, SHA_COMPRESS_K@, j as int),
                shard == old(rt).state.memory.shard,
                (rt.state.memory.entries(), w_i_read_records@) == stepped_reads(
                    es1,
                    w_ptr,
                    shard,
                    (start_clk + 32) as u32,
                    j as nat,
                ),
            decreases 64 - j,
        {
            let t = rt.state.clk;
            let record = rt.mr(w_ptr + j * 4, t);
            let w_i = record.value;
            original_w.push(w_i);
            w_i_read_records.push(record);
            v = compress_round(&v, w_i, SHA_COMPRESS_K[j as usize]);
            rt.state.clk = rt.state.clk + 4;
            j = j + 1;
        }
        assert(original_w@ =~= w0);

        // Execute the "finalize" phase.
        let ghost out = compressed(h0, w0, SHA_COMPRESS_K@);
        let ghost es2 = rt.state.memory.entries();
        let mut i: u32 = 0;
        while i < 8
            invariant
                i <= 8,
                range_fault(h_ptr, 8) is None,
                start_clk + 320 <= u32::MAX,
                start_clk == old(rt).state.clk,
                rt.precompile_frame(old(rt), 288 + 4 * i),
                rt.record == old(rt).record,
                rt.machine().values == write_words(values0, h_ptr, out, i as int),
                h_write_records@.len() == i,
                hx@ == h0,
                v@ == rounds(h0, w0, SHA_COMPRESS_K@, 64),
                out == compressed(h0, w0, SHA_COMPRESS_K@),
                shard == old(rt).state.memory.shard,
                (rt.state.memory.entries(), h_write_records@) == stepped_writes(
                    es2,
                    h_ptr,
                    out,
                    shard,
                    (start_clk + 288) as u32,
                    i as nat,
                ),
            decreases 8 - i,
        {
            let t = rt.state.clk;
            let record = rt.mw(h_ptr + i * 4, add_words(hx[i as usize], v[i as usize]), t);
            h_write_records.push(record);
            rt.state.clk = rt.state.clk + 4;
            i = i + 1;
        }

        // Push the SHA compress event.
        rt.record.sha_compress_events.push(
            ShaCompressEvent {
                shard,
                clk: start_clk,
                w_ptr,
                h_ptr,
                w: original_w,
                h: hx,
                h_read_records,
                w_i_read_records,
                h_write_records,
            },
        );
        Ok(None)
    }
}

} // verus!
