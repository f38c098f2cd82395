//! Calls: what each does to the machine, and how the engine dispatches
//! them.

use crate::events::MemoryRecordEnum;
use crate::record::ExecutionRecord;
use crate::runtime::execute::StepData;
use crate::runtime::semantics::wrap;
use crate::runtime::{
    aligned, range_fault, write_register, ExecutionError, Machine, Outcome, Runtime,
};
use crate::syscall::commit::SyscallCommit;
use crate::syscall::precompiles::blake3::compress::execute::{after_operations, blake3_fault};
use crate::syscall::precompiles::blake3::compress::Blake3CompressInnerChip;
use crate::syscall::precompiles::edwards::ed_decompress::{
    ed_decompress_fault, y_at, EdDecompressChip,
};
use crate::syscall::precompiles::k256::decompress::{
    k256_decompress_fault, secp256k1_point, x_be_at, y_of_point, K256DecompressChip,
};
use crate::syscall::precompiles::sha256::compress::execute::{
    compress_fault, words_at, write_words,
};
use crate::syscall::precompiles::sha256::compress::{compressed, ShaCompressChip};
use crate::syscall::precompiles::sha256::extend::execute::extend_values;
use crate::syscall::precompiles::sha256::extend::ShaExtendChip;
use crate::syscall::precompiles::sha256::SHA_COMPRESS_K;
use crate::syscall::SyscallCode;
use crate::utils::bigint::{bytes32_of, bytes_to_words, le_nat};
use crate::utils::ec::edwards::ed25519::decompress_spec;
use crate::word::{byte_at, bytes_view, lemma_decompose_recompose, u32_to_le_bytes};
use vstd::prelude::*;

verus! {

/// The register that holds the code of a call and takes its result.
pub const T0: u32 = 5;

/// The register that holds the first argument of a call.
pub const A0: u32 = 10;

/// The register that holds the second argument of a call.
pub const A1: u32 = 11;

/// The register that holds the third argument of a call.
pub const A2: u32 = 12;

/// The stream that a program writes its public output to.
pub const FD_PUBLIC_OUTPUT: u32 = 3;

/// What a call does: the machine after it, the program counter left
/// alone, and the value that it gives back, if any.
pub struct Effect {
    pub machine: Machine,
    pub value: Option<u32>,
}

/// The byte at `addr`.
pub open spec fn byte_of(values: Map<u32, u32>, addr: u32) -> u8 {
    byte_at(values[aligned(addr)] as int, addr as int % 4) as u8
}

/// The `n` bytes from `ptr` on; the addresses wrap around.
pub open spec fn bytes_at(values: Map<u32, u32>, ptr: u32, n: nat) -> Seq<u8> {
    Seq::new(n, |i: int| byte_of(values, wrap(ptr + i)))
}

/// The word that up to four bytes stand for, least significant first.
pub open spec fn word_of(bs: Seq<u8>) -> u32
    decreases bs.len(),
{
    if bs.len() == 0 || bs.len() > 4 {
        0
    } else {
        (bs[0] + 256 * word_of(bs.drop_first())) as u32
    }
}

/// The fault of a call that its arguments do not suit.
pub open spec fn refused(code: SyscallCode) -> ExecutionError {
    ExecutionError::InvalidSyscallArguments(code.id_spec())
}

/// What the call `code` does to the machine `m`, with the arguments `b`
/// and `c`.
pub open spec fn syscall_effect(code: SyscallCode, m: Machine, b: u32, c: u32) -> Result<
    Effect,
    ExecutionError,
> {
    match code {
        SyscallCode::HALT => Ok(Effect { machine: m, value: None }),
        SyscallCode::WRITE => Ok(
            Effect {
                machine: Machine {
                    output: if b == FD_PUBLIC_OUTPUT {
                        m.output + bytes_at(m.values, c, m.values[A2] as nat)
                    } else {
                        m.output
                    },
                    ..m
                },
                value: None,
            },
        ),
        SyscallCode::LWA => if c > 4 || m.input_ptr + c > m.input.len() {
            Err(refused(code))
        } else {
            Ok(
                Effect {
                    machine: Machine { input_ptr: m.input_ptr + c, ..m },
                    value: Some(word_of(m.input.subrange(m.input_ptr, m.input_ptr + c))),
                },
            )
        },
        SyscallCode::COMMIT => if b >= 8 {
            Err(refused(code))
        } else {
            Ok(
                Effect {
                    machine: Machine { digest: m.digest.update(b as int, c), ..m },
                    value: None,
                },
            )
        },
        SyscallCode::SHA_EXTEND => match range_fault(b, 64) {
            Some(e) => Err(e),
            None => Ok(
                Effect {
                    machine: Machine { values: extend_values(m.values, b, 64), ..m },
                    value: None,
                },
            ),
        },
        SyscallCode::SHA_COMPRESS => match compress_fault(b, c) {
            Some(e) => Err(e),
            None => Ok(
                Effect {
                    machine: Machine {
                        values: write_words(
                            m.values,
                            c,
                            compressed(
                                words_at(m.values, c, 8),
                                words_at(m.values, b, 64),
                                SHA_COMPRESS_K@,
                            ),
                            8,
                        ),
                        ..m
                    },
                    value: None,
                },
            ),
        },
        SyscallCode::BLAKE3_COMPRESS_INNER => match blake3_fault(b, c) {
            Some(e) => Err(e),
            None => Ok(
                Effect {
                    machine: Machine { values: after_operations(m.values, b, c, 56), ..m },
                    value: None,
                },
            ),
        },
        SyscallCode::ED_DECOMPRESS => match ed_decompress_fault(b, c) {
            Some(e) => Err(e),
            None => match decompress_spec(y_at(m.values, b), c != 0) {
                None => Err(refused(code)),
                Some(x) => Ok(
                    Effect {
                        machine: Machine {
                            values: write_words(m.values, b, bytes_to_words(bytes32_of(x)), 8),
                            ..m
                        },
                        value: None,
                    },
                ),
            },
        },
        SyscallCode::SECP256K1_DECOMPRESS => match k256_decompress_fault(m.values, b) {
            Some(e) => Err(e),
            None => match y_of_point(
                secp256k1_point(x_be_at(m.values, b), byte_at(m.values[b] as int, 0) as u8),
            ) {
                None => Err(refused(code)),
                Some(y) => Ok(
                    Effect {
                        machine: Machine {
                            values: write_words(m.values, b, bytes_to_words(y), 8),
                            ..m
                        },
                        value: None,
                    },
                ),
            },
        },
    }
}

/// What the instruction `ECALL` leads to: the call whose code the
/// register `t0` holds is made with the arguments in `a0` and `a1`; its
/// value, or the code where it gives none, goes to `t0`; and the program
/// counter moves on, or to zero where the call halts the program.
pub open spec fn ecall_outcome(m: Machine) -> Outcome {
    let id = m.values[T0];
    match SyscallCode::of(id) {
        None => Outcome::Fault(ExecutionError::UnsupportedSyscall(id)),
        Some(code) => match syscall_effect(code, m, m.values[A0], m.values[A1]) {
            Err(e) => Outcome::Fault(e),
            Ok(effect) => Outcome::Next(
                Machine {
                    pc: if code == SyscallCode::HALT {
                        0
                    } else {
                        wrap(m.pc + 4)
                    },
                    values: write_register(
                        effect.machine.values,
                        T0,
                        match effect.value {
                            Some(v) => v,
                            None => id,
                        },
                    ),
                    ..effect.machine
                },
            ),
        },
    }
}

impl Runtime {
    /// The byte at `addr`, without a record of the access.
    pub fn byte(&self, addr: u32) -> (r: u8)
        ensures
            r == byte_of(self.machine().values, addr),
    {
        let w = self.word(addr - addr % 4);
        let bytes = u32_to_le_bytes(w);
        proof {
            lemma_decompose_recompose(w);
            assert(bytes_view(bytes)[addr as int % 4] == byte_at(w as int, addr as int % 4));
        }
        bytes[(addr % 4) as usize]
    }

    /// The call that writes `nbytes` bytes of memory from `write_buf` on
    /// to the stream `fd`. Only the public output is kept.
    pub fn syscall_write(&mut self, fd: u32, write_buf: u32)
        requires
            old(self).wf(),
        ensures
            final(self).wf(),
            syscall_effect(SyscallCode::WRITE, old(self).machine(), fd, write_buf) == Ok::<
                Effect,
                ExecutionError,
            >(Effect { machine: final(self).machine(), value: None }),
            final(self).state.memory == old(self).state.memory,
            final(self).state.clk == old(self).state.clk,
            final(self).state.global_clk == old(self).state.global_clk,
            final(self).record == old(self).record,
            final(self).shards == old(self).shards,
            final(self).program == old(self).program,
            final(self).shard_size == old(self).shard_size,
    {
        let nbytes = self.register(A2);
        if fd == FD_PUBLIC_OUTPUT {
            let ghost values = self.machine().values;
            let mut i: u32 = 0;
            while i < nbytes
                invariant
                    i <= nbytes,
                    values == old(self).machine().values,
                    self.state.output_stream@ == old(self).state.output_stream@ + bytes_at(
                        values,
                        write_buf,
                        i as nat,
                    ),
                    self.state.memory == old(self).state.memory,
                    self.state.pc == old(self).state.pc,
                    self.state.clk == old(self).state.clk,
                    self.state.global_clk == old(self).state.global_clk,
                    self.state.input_stream == old(self).state.input_stream,
                    self.state.input_stream_ptr == old(self).state.input_stream_ptr,
                    self.state.output_stream_ptr == old(self).state.output_stream_ptr,
                    self.record == old(self).record,
                    self.shards == old(self).shards,
                    self.program == old(self).program,
                    self.shard_size == old(self).shard_size,
                decreases nbytes - i,
            {
                let byte = self.byte(write_buf.wrapping_add(i));
                self.state.output_stream.push(byte);
                i = i + 1;
                assert(self.state.output_stream@ =~= old(self).state.output_stream@ + bytes_at(
                    values,
                    write_buf,
                    i as nat,
                ));
            }
        } else {
            assert(self.machine() == old(self).machine());
        }
    }

    /// The call that reads the next `num_bytes` bytes of the input, four
    /// at most, into a word.
    pub fn syscall_lwa(&mut self, num_bytes: u32) -> (r: Result<u32, ExecutionError>)
        requires
            old(self).wf(),
        ensures
            final(self).wf(),
            match r {
                Ok(v) => syscall_effect(SyscallCode::LWA, old(self).machine(), 0, num_bytes)
                    == Ok::<Effect, ExecutionError>(
                    Effect { machine: final(self).machine(), value: Some(v) },
                ),
                Err(e) => syscall_effect(SyscallCode::LWA, old(self).machine(), 0, num_bytes)
                    == Err::<Effect, ExecutionError>(e),
            },
            final(self).state.memory == old(self).state.memory,
            final(self).state.clk == old(self).state.clk,
            final(self).state.global_clk == old(self).state.global_clk,
            final(self).record == old(self).record,
            final(self).shards == old(self).shards,
            final(self).program == old(self).program,
            final(self).shard_size == old(self).shard_size,
    {
        let available = self.state.input_stream.len() - self.state.input_stream_ptr;
        if num_bytes > 4 || (num_bytes as usize) > available {
            return Err(ExecutionError::InvalidSyscallArguments(SyscallCode::LWA.syscall_id()));
        }
        let start = self.state.input_stream_ptr;
        let n = num_bytes as usize;
        let mut word: u32 = 0;
        let mut i: usize = n;
        let ghost bs = self.state.input_stream@.subrange(start as int, start + n);
        while i > 0
            invariant
                i <= n,
                n <= 4,
                start + n <= usize::MAX,
                start + n <= self.state.input_stream@.len(),
                bs == self.state.input_stream@.subrange(start as int, start + n),
                word == word_of(bs.subrange(i as int, n as int)),
                *self == *old(self),
            decreases i,
        {
            i = i - 1;
            proof {
                let cur = bs.subrange(i as int, n as int);
                assert(cur.drop_first() =~= bs.subrange(i + 1, n as int));
                assert(cur[0] == self.state.input_stream@[start + i]);
                lemma_word_of_bound(cur.drop_first());
            }
            word = (self.state.input_stream[start + i] as u32) + 256 * word;
        }
        assert(bs.subrange(0, n as int) =~= bs);
        self.state.input_stream_ptr = start + n;
        Ok(word)
    }
}

/// The word that `k` bytes stand for is below 256 to the `k`.
pub proof fn lemma_word_of_bound(bs: Seq<u8>)
    requires
        bs.len() <= 3,
    ensures
        word_of(bs) < 0x100_0000,
        bs.len() <= 2 ==> word_of(bs) < 0x1_0000,
        bs.len() <= 1 ==> word_of(bs) < 0x100,
        bs.len() == 0 ==> word_of(bs) == 0,
    decreases bs.len(),
{
    if bs.len() > 0 {
        lemma_word_of_bound(bs.drop_first());
    }
}

} // verus!
