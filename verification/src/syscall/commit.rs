//! The call by which a program commits to a word of the digest of its
//! public values.

use crate::record::ExecutionRecord;
use crate::runtime::{ExecutionError, Runtime};
use crate::syscall::SyscallCode;
use vstd::prelude::*;

verus! {

/// The number of words of the digest of the public values.
pub const PV_DIGEST_NUM_WORDS: usize = 8;

/// The handler of the call.
pub struct SyscallCommit;

impl SyscallCommit {
    pub fn new() -> (r: Self)
        ensures
            r == SyscallCommit,
    {
        SyscallCommit
    }

    /// The clock ticks that the call takes beyond those of its instruction.
    pub fn num_extra_cycles(&self) -> (r: u32)
        ensures
            r == 0,
    {
        0
    }

    /// Sets word `word_idx` of the digest to `public_values_digest_word`.
    /// There are eight words; any other index is refused.
    pub fn execute(
        &self,
        rt: &mut Runtime,
        word_idx: u32,
        public_values_digest_word: u32,
    ) -> (r: Result<Option<u32>, ExecutionError>)
        ensures
            match r {
                Ok(v) => {
                    &&& v is None
                    &&& word_idx < 8
                    &&& final(rt).record.public_values_digest@ == old(rt).record.public_values_digest@.update(
                        word_idx as int,
                        public_values_digest_word,
                    )
                    &&& final(rt).record == (ExecutionRecord {
                        public_values_digest: final(rt).record.public_values_digest,
                        ..old(rt).record
                    })
                    &&& final(rt).state == old(rt).state
                    &&& final(rt).program == old(rt).program
                    &&& final(rt).shards == old(rt).shards
                    &&& final(rt).shard_size == old(rt).shard_size
                },
                Err(e) => {
                    &&& word_idx >= 8
                    &&& e == ExecutionError::InvalidSyscallArguments(
                        SyscallCode::COMMIT.id_spec(),
                    )
                    &&& *final(rt) == *old(rt)
                },
            },
    {
        if word_idx >= 8 {
            return Err(ExecutionError::InvalidSyscallArguments(SyscallCode::COMMIT.syscall_id()));
        }
        rt.record.public_values_digest[word_idx as usize] = public_values_digest_word;
        Ok(None)
    }
}

impl Default for SyscallCommit {
    fn default() -> (r: Self) {
        Self::new()
    }
}

} // verus!
