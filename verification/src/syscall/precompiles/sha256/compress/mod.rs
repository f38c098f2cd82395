//! The compression function of SHA-256.

pub mod columns;
pub mod execute;
pub mod trace;

use crate::syscall::precompiles::sha256::{add32, big_sigma0, big_sigma1, choose_bits, majority};
use vstd::prelude::*;

verus! {

/// The chip of the compression function.
#[derive(Default)]
pub struct ShaCompressChip;

impl ShaCompressChip {
    pub fn new() -> (r: Self)
        ensures
            r == ShaCompressChip,
    {
        ShaCompressChip
    }
}

/// The first of the two sums of a round.
pub open spec fn round_temp1(s: Seq<u32>, w: u32, k: u32) -> u32 {
    add32(add32(add32(add32(s[7], big_sigma1(s[4])), choose_bits(s[4], s[5], s[6])), k), w)
}

/// The second of the two sums of a round.
pub open spec fn round_temp2(s: Seq<u32>) -> u32 {
    add32(big_sigma0(s[0]), majority(s[0], s[1], s[2]))
}

/// The eight working variables after one round with the schedule word `w`
/// and the constant `k`.
pub open spec fn round(s: Seq<u32>, w: u32, k: u32) -> Seq<u32> {
    let temp1 = round_temp1(s, w, k);
    let temp2 = round_temp2(s);
    seq![add32(temp1, temp2), s[0], s[1], s[2], add32(s[3], temp1), s[4], s[5], s[6]]
}

/// The eight working variables after the first `n` rounds.
pub open spec fn rounds(h: Seq<u32>, w: Seq<u32>, k: Seq<u32>, n: int) -> Seq<u32>
    decreases n,
{
    if n <= 0 {
        h
    } else {
        round(rounds(h, w, k, n - 1), w[n - 1], k[n - 1])
    }
}

/// The hash state after the compression of one block with the schedule
/// `w`: the state before, plus the working variables after all rounds.
pub open spec fn compressed(h: Seq<u32>, w: Seq<u32>, k: Seq<u32>) -> Seq<u32> {
    let v = rounds(h, w, k, 64);
    Seq::new(8, |i: int| add32(h[i], v[i]))
}

} // verus!
