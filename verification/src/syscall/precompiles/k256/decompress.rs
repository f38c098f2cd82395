//! Decompression of a point of secp256k1: from its `x` coordinate and the
//! parity of `y`, the coordinate `y`.

use crate::events::{MemoryReadRecord, MemoryWriteRecord};
use crate::record::ExecutionRecord;
use crate::operations::field::params::FieldKind;
use crate::runtime::memory::{timed_reads, timed_writes};
use crate::utils::bigint::le_nat;
use crate::runtime::{check_range, range_fault, ExecutionError, Machine, Runtime};
use crate::syscall::precompiles::sha256::compress::execute::{words_at, write_words};
use crate::syscall::SyscallCode;
use crate::utils::bigint::{bytes_to_words, bytes_to_words_le, words_to_bytes, words_to_bytes_le};
use crate::word::byte_at;
use elliptic_curve::sec1::ToEncodedPoint;
use elliptic_curve::subtle::Choice;
use k256::elliptic_curve::point::DecompressPoint;
use vstd::prelude::*;

verus! {

/// One decompression: the slice at `ptr` held the parity in its first byte
/// and `x` in its second half; the first half was overwritten with the `y`
/// found.
#[derive(Debug)]
pub struct K256DecompressEvent {
    pub shard: u32,
    pub clk: u32,
    pub ptr: u32,
    pub is_odd: bool,
    pub x_bytes: [u8; 32],
    pub decompressed_y_bytes: [u8; 32],
    pub x_memory_records: [MemoryReadRecord; 8],
    pub y_memory_records: [MemoryWriteRecord; 8],
}

/// A chip that computes `K256Decompress` given a pointer to a 16 word slice
/// formatted as such: the first byte is the parity of `y`; the second half
/// of the slice is `x` in little endian.
///
/// After `K256Decompress`, the first 32 bytes of the slice are overwritten
/// with the decompressed `y`.
#[derive(Default)]
pub struct K256DecompressChip;

/// The encoding, uncompressed, of the point of secp256k1 with the
/// big-endian coordinate `x_be` and the parity `is_odd` of its `y`; `None`
/// where there is no such point.
pub uninterp spec fn secp256k1_point(x_be: Seq<u8>, is_odd: u8) -> Option<Seq<u8>>;

/// The bytes are the uncompressed encoding of a point of the curve
/// `y^2 = x^3 + 7` over the field of secp256k1, with the coordinate `x_be`
/// and the parity `is_odd` of `y`: sixty-five bytes, the tag 4, the
/// big-endian bytes of `x`, and the big-endian bytes of `y`.
pub open spec fn encodes_point(x_be: Seq<u8>, is_odd: u8, v: Seq<u8>) -> bool {
    let p = FieldKind::Secp256k1.modulus();
    let x = le_nat(x_be.reverse());
    let y = le_nat(v.subrange(33, 65).reverse());
    &&& v.len() == 65
    &&& v[0] == 4
    &&& v.subrange(1, 33) == x_be
    &&& x < p
    &&& y < p
    &&& y % 2 == is_odd as nat
    &&& (y * y) % p == (x * x * x + 7) % p
}

/// Decompresses with `AffinePoint::decompress` of `k256` and encodes the
/// point found with `to_encoded_point(false)`: the outcome depends on the
/// coordinate and the parity alone, and what is found is the encoding of a
/// point of the curve with that coordinate and that parity.
#[verifier::external_body]
fn secp256k1_decompress(x_be: &[u8; 32], is_odd: u8) -> (r: Option<Vec<u8>>)
    requires
        is_odd <= 1,
    ensures
        r is Some <==> secp256k1_point(x_be@, is_odd) is Some,
        r matches Some(v) ==> secp256k1_point(x_be@, is_odd) == Some(v@) && encodes_point(
            x_be@,
            is_odd,
            v@,
        ),
{
    let point: Option<k256::AffinePoint> = k256::AffinePoint::decompress(
        x_be.into(),
        Choice::from(is_odd),
    ).into();
    match point {
        Some(p) => Some(p.to_encoded_point(false).as_bytes().to_vec()),
        None => None,
    }
}

/// The bytes in the opposite order.
pub fn reversed(a: &[u8; 32]) -> (r: [u8; 32])
    ensures
        r@ == a@.reverse(),
{
    let mut r = [0u8; 32];
    let mut i: usize = 0;
    while i < 32
        invariant
            i <= 32,
            forall|k: int| 0 <= k < i ==> r@[k] == a@[31 - k],
        decreases 32 - i,
    {
        r[i] = a[31 - i];
        i = i + 1;
    }
    assert(r@ =~= a@.reverse());
    r
}

/// The fault, if any, that the arguments of a decompression lead to, before
/// the point is looked for.
pub open spec fn k256_decompress_fault(values: Map<u32, u32>, ptr: u32) -> Option<
    ExecutionError,
> {
    if range_fault(ptr, 16) is Some {
        range_fault(ptr, 16)
    } else if byte_at(values[ptr] as int, 0) > 1 {
        Some(ExecutionError::InvalidSyscallArguments(SyscallCode::SECP256K1_DECOMPRESS.id_spec()))
    } else {
        None
    }
}

/// The `y` of an encoded point, in little-endian bytes: the last
/// thirty-two bytes of the sixty-five, in the opposite order. `None` where
/// there is no point or the encoding has another length.
pub open spec fn y_of_point(point: Option<Seq<u8>>) -> Option<Seq<u8>> {
    match point {
        Some(p) => if p.len() == 65 {
            Some(p.subrange(33, 65).reverse())
        } else {
            None
        },
        None => None,
    }
}

/// The `x` that the slice at `ptr` holds, in big-endian bytes.
pub open spec fn x_be_at(values: Map<u32, u32>, ptr: u32) -> Seq<u8> {
    words_to_bytes(words_at(values, (ptr + 32) as u32, 8)).reverse()
}

impl K256DecompressChip {
    pub fn new() -> (r: Self)
        ensures
            r == K256DecompressChip,
    {
        K256DecompressChip
    }

    /// The clock ticks that the call takes beyond those of its instruction.
    pub fn num_extra_cycles(&self) -> (r: u32)
        ensures
            r == 4,
    {
        4
    }

    /// What a decompression does once the point is known: writes `y` into
    /// the first half of the slice, leaves the event, and advances the
    /// clock. Where there is no point, the call is refused.
    pub fn finish(
        &self,
        rt: &mut Runtime,
        slice_ptr: u32,
        is_odd: u8,
        x_bytes: [u8; 32],
        x_memory_records: [MemoryReadRecord; 8],
        point: Option<Vec<u8>>,
    ) -> (r: Result<Option<u32>, ExecutionError>)
        requires
            old(rt).state.memory.wf(),
            old(rt).state.clk + 4 <= u32::MAX,
            range_fault(slice_ptr, 16) is None,
        ensures
            match r {
                Ok(v) => {
                    let y = y_of_point(
                        match point {
                            Some(p) => Some(p@),
                            None => None,
                        },
                    );
                    &&& v is None
                    &&& y is Some
                    &&& final(rt).precompile_frame(old(rt), 4)
                    &&& final(rt).record == (ExecutionRecord {
                        k256_decompress_events: final(rt).record.k256_decompress_events,
                        ..old(rt).record
                    })
                    &&& final(rt).record.k256_decompress_events@.len() == old(rt).record.k256_decompress_events@.len() + 1
                    &&& ({
                        let e = final(rt).record.k256_decompress_events@.last();
                        &&& e.shard == old(rt).state.memory.shard
                        &&& e.clk == old(rt).state.clk
                        &&& e.ptr == slice_ptr
                        &&& e.is_odd == (is_odd != 0)
                        &&& e.x_bytes == x_bytes
                        &&& e.x_memory_records == x_memory_records
                        &&& e.decompressed_y_bytes@ == y->0
                        &&& (final(rt).state.memory.entries(), e.y_memory_records@)
                            == timed_writes(
                            old(rt).state.memory.entries(),
                            slice_ptr,
                            bytes_to_words(y->0),
                            old(rt).state.memory.shard,
                            old(rt).state.clk,
                            8,
                        )
                        &&& final(rt).machine().values == write_words(
                            old(rt).machine().values,
                            slice_ptr,
                            bytes_to_words(y->0),
                            8,
                        )
                    })
                },
                Err(e) => {
                    &&& y_of_point(
                        match point {
                            Some(p) => Some(p@),
                            None => None,
                        },
                    ) is None
                    &&& e == ExecutionError::InvalidSyscallArguments(
                        SyscallCode::SECP256K1_DECOMPRESS.id_spec(),
                    )
                    &&& *final(rt) == *old(rt)
                },
            },
    {
        let start_clk = rt.state.clk;
        let decompressed_point_bytes = match point {
            Some(p) => p,
            None => {
                return Err(
                    ExecutionError::InvalidSyscallArguments(
                        SyscallCode::SECP256K1_DECOMPRESS.syscall_id(),
                    ),
                );
            },
        };
        if decompressed_point_bytes.len() != 65 {
            return Err(
                ExecutionError::InvalidSyscallArguments(
                    SyscallCode::SECP256K1_DECOMPRESS.syscall_id(),
                ),
            );
        }
        let mut y_be = [0u8; 32];
        let mut i: usize = 0;
        while i < 32
            invariant
                i <= 32,
                decompressed_point_bytes@.len() == 65,
                forall|k: int| 0 <= k < i ==> y_be@[k] == decompressed_point_bytes@[33 + k],
            decreases 32 - i,
        {
            y_be[i] = decompressed_point_bytes[33 + i];
            i = i + 1;
        }
        assert(y_be@ =~= decompressed_point_bytes@.subrange(33, 65));
        let decompressed_y_bytes = reversed(&y_be);
        let y_words = bytes_to_words_le(&decompressed_y_bytes);
        let y_memory_records = rt.mw_slice(slice_ptr, &y_words);
        let shard = rt.current_shard();
        rt.record.k256_decompress_events.push(
            K256DecompressEvent {
                shard,
                clk: start_clk,
                ptr: slice_ptr,
                is_odd: is_odd != 0,
                x_bytes,
                decompressed_y_bytes,
                x_memory_records,
                y_memory_records,
            },
        );
        rt.state.clk = rt.state.clk + 4;
        Ok(None)
    }

    /// Decompresses the point whose `x` stands in the second half of the
    /// sixteen words at `arg1` and whose parity stands in the first byte,
    /// and writes `y` into the first half. Where there is no such point,
    /// the call is refused.
    pub fn execute(&self, rt: &mut Runtime, arg1: u32, arg2: u32) -> (r: Result<
        Option<u32>,
        ExecutionError,
    >)
        requires
            old(rt).state.memory.wf(),
            old(rt).state.clk + 4 <= u32::MAX,
        ensures
            match r {
                Ok(v) => {
                    let values = old(rt).machine().values;
                    let y = y_of_point(
                        secp256k1_point(x_be_at(values, arg1), byte_at(values[arg1] as int, 0) as u8),
                    );
                    &&& v is None
                    &&& k256_decompress_fault(values, arg1) is None
                    &&& y is Some
                    &&& encodes_point(
                        x_be_at(values, arg1),
                        byte_at(values[arg1] as int, 0) as u8,
                        secp256k1_point(
                            x_be_at(values, arg1),
                            byte_at(values[arg1] as int, 0) as u8,
                        )->0,
                    )
                    &&& final(rt).precompile_frame(old(rt), 4)
                    &&& final(rt).record == (ExecutionRecord {
                        k256_decompress_events: final(rt).record.k256_decompress_events,
                        ..old(rt).record
                    })
                    &&& final(rt).record.k256_decompress_events@.len() == old(rt).record.k256_decompress_events@.len() + 1
                    &&& final(rt).record.k256_decompress_events@.last().decompressed_y_bytes@
                        == y->0
                    &&& final(rt).machine().values == write_words(
                        values,
                        arg1,
                        bytes_to_words(y->0),
                        8,
                    )
                    &&& ({
                        let e = final(rt).record.k256_decompress_events@.last();
                        let shard = old(rt).state.memory.shard;
                        let clk = old(rt).state.clk;
                        let reads = timed_reads(
                            old(rt).state.memory.entries(),
                            (arg1 + 32) as u32,
                            shard,
                            clk,
                            8,
                        );
                        &&& e.shard == shard
                        &&& e.clk == clk
                        &&& e.ptr == arg1
                        &&& e.is_odd == (byte_at(values[arg1] as int, 0) != 0)
                        &&& e.x_bytes@ == words_to_bytes(words_at(values, (arg1 + 32) as u32, 8))
                        &&& e.x_memory_records@ == reads.1
                        &&& (final(rt).state.memory.entries(), e.y_memory_records@)
                            == timed_writes(reads.0, arg1, bytes_to_words(y->0), shard, clk, 8)
                    })
                },
                Err(e) => {
                    let values = old(rt).machine().values;
                    if k256_decompress_fault(values, arg1) is Some {
                        k256_decompress_fault(values, arg1) == Some(e) && *final(rt) == *old(rt)
                    } else {
                        &&& final(rt).same_but_memory(old(rt))
                        &&& final(rt).machine() == old(rt).machine()
                        &&& final(rt).state.memory.entries() == timed_reads(
                            old(rt).state.memory.entries(),
                            (arg1 + 32) as u32,
                            old(rt).state.memory.shard,
                            old(rt).state.clk,
                            8,
                        ).0
                        &&& y_of_point(
                            secp256k1_point(
                                x_be_at(values, arg1),
                                byte_at(values[arg1] as int, 0) as u8,
                            ),
                        ) is None
                        &&& e == ExecutionError::InvalidSyscallArguments(
                            SyscallCode::SECP256K1_DECOMPRESS.id_spec(),
                        )
                    }
                },
            },
    {
        let slice_ptr = arg1;
        match check_range(slice_ptr, 16) {
            Some(e) => {
                return Err(e);
            },
            None => {},
        }
        let ghost values0 = rt.machine().values;
        // The parity is read without a record: the word that holds it is
        // overwritten below.
        let first = crate::word::u32_to_le_bytes(rt.word(slice_ptr));
        let is_odd = first[0];
        proof {
            crate::word::lemma_decompose_recompose(values0[slice_ptr]);
            assert(crate::word::bytes_view(first)[0] == byte_at(values0[slice_ptr] as int, 0));
        }
        if is_odd > 1 {
            return Err(
                ExecutionError::InvalidSyscallArguments(
                    SyscallCode::SECP256K1_DECOMPRESS.syscall_id(),
                ),
            );
        }
        let (x_memory_records, x_vec) = rt.mr_slice(slice_ptr + 32);
        assert(x_vec@ =~= words_at(values0, (arg1 + 32) as u32, 8));
        let x_bytes = words_to_bytes_le(&x_vec);
        let x_bytes_be = reversed(&x_bytes);

        // Compute actual decompressed Y
        let point = secp256k1_decompress(&x_bytes_be, is_odd);
        self.finish(rt, slice_ptr, is_odd, x_bytes, x_memory_records, point)
    }
}

} // verus!
