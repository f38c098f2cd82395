//! The streams through which a program and its host exchange bytes.

use crate::runtime::Runtime;
use vstd::prelude::*;

verus! {

impl Runtime {
    /// Appends `input` to the bytes that the program may read.
    pub fn write_stdin_slice(&mut self, input: &[u8])
        ensures
            final(self).state.input_stream@ == old(self).state.input_stream@ + input@,
            final(self).state.input_stream_ptr == old(self).state.input_stream_ptr,
            final(self).state.output_stream == old(self).state.output_stream,
            final(self).state.output_stream_ptr == old(self).state.output_stream_ptr,
            final(self).state.memory == old(self).state.memory,
            final(self).state.pc == old(self).state.pc,
            final(self).state.clk == old(self).state.clk,
            final(self).state.global_clk == old(self).state.global_clk,
            final(self).record == old(self).record,
            final(self).shards == old(self).shards,
            final(self).program == old(self).program,
            final(self).shard_size == old(self).shard_size,
    {
        let mut i: usize = 0;
        while i < input.len()
            invariant
                i <= input@.len(),
                self.state.input_stream@ == old(self).state.input_stream@ + input@.subrange(
                    0,
                    i as int,
                ),
                self.state.input_stream_ptr == old(self).state.input_stream_ptr,
                self.state.output_stream == old(self).state.output_stream,
                self.state.output_stream_ptr == old(self).state.output_stream_ptr,
                self.state.memory == old(self).state.memory,
                self.state.pc == old(self).state.pc,
                self.state.clk == old(self).state.clk,
                self.state.global_clk == old(self).state.global_clk,
                self.record == old(self).record,
                self.shards == old(self).shards,
                self.program == old(self).program,
                self.shard_size == old(self).shard_size,
            decreases input@.len() - i,
        {
            self.state.input_stream.push(input[i]);
            i = i + 1;
            assert(self.state.input_stream@ =~= old(self).state.input_stream@ + input@.subrange(
                0,
                i as int,
            ));
        }
        assert(input@.subrange(0, i as int) =~= input@);
    }

    /// Whether the program wrote at least `len` bytes that were not read
    /// back yet.
    pub fn has_stdout(&self, len: usize) -> (r: bool)
        requires
            self.state.output_stream_ptr <= self.state.output_stream@.len(),
        ensures
            r == (self.state.output_stream_ptr + len <= self.state.output_stream@.len()),
    {
        len <= self.state.output_stream.len() - self.state.output_stream_ptr
    }

    /// Fills `buf` with the next bytes that the program wrote, and moves
    /// past them.
    pub fn read_stdout_slice(&mut self, buf: &mut [u8])
        requires
            old(self).state.output_stream_ptr + old(buf)@.len() <= old(self).state.output_stream@.len(),
        ensures
            final(buf)@ == old(self).state.output_stream@.subrange(
                old(self).state.output_stream_ptr as int,
                old(self).state.output_stream_ptr + old(buf)@.len(),
            ),
            final(self).state.output_stream_ptr == old(self).state.output_stream_ptr + old(buf)@.len(),
            final(self).state.output_stream == old(self).state.output_stream,
            final(self).state.input_stream == old(self).state.input_stream,
            final(self).state.input_stream_ptr == old(self).state.input_stream_ptr,
            final(self).state.memory == old(self).state.memory,
            final(self).state.pc == old(self).state.pc,
            final(self).state.clk == old(self).state.clk,
            final(self).state.global_clk == old(self).state.global_clk,
            final(self).record == old(self).record,
            final(self).shards == old(self).shards,
            final(self).program == old(self).program,
            final(self).shard_size == old(self).shard_size,
    {
        let len = buf.len();
        let start = self.state.output_stream_ptr;
        let total = self.state.output_stream.len();
        assert(start + len <= total);
        let end = start + len;
        let mut i: usize = 0;
        while i < len
            invariant
                i <= len,
                len == buf@.len(),
                start + len == end,
                end <= self.state.output_stream@.len(),
                *self == *old(self),
                forall|k: int| 0 <= k < i ==> buf@[k] == self.state.output_stream@[start + k],
            decreases len - i,
        {
            buf[i] = self.state.output_stream[start + i];
            i = i + 1;
        }
        self.state.output_stream_ptr = end;
        assert(buf@ =~= old(self).state.output_stream@.subrange(start as int, end as int));
    }
}

} // verus!
