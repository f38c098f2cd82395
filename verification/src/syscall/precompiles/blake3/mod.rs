//! The compression function of BLAKE3.

pub mod compress;

use crate::syscall::precompiles::sha256::{add32, add_words, rotate_right, rotr};
use vstd::prelude::*;

verus! {

/// The number of rounds of the compression.
pub const ROUND_COUNT: usize = 7;

/// The number of calls of the mixing function in a round.
pub const OPERATION_COUNT: usize = 8;

/// The number of message words that a call of the mixing function takes.
pub const NUM_MSG_WORDS_PER_CALL: usize = 2;

/// The number of state words that a call of the mixing function changes.
pub const NUM_STATE_WORDS_PER_CALL: usize = 4;

/// Which four words of the state each call of the mixing function in a
/// round works on: the four columns, then the four diagonals.
pub const G_INDEX: [[usize; 4]; 8] = [
    [0, 4, 8, 12],
    [1, 5, 9, 13],
    [2, 6, 10, 14],
    [3, 7, 11, 15],
    [0, 5, 10, 15],
    [1, 6, 11, 12],
    [2, 7, 8, 13],
    [3, 4, 9, 14],
];

/// Which message word stands at each place in each round.
pub const MSG_SCHEDULE: [[usize; 16]; 7] = [
    [0, 1, 2, 3, 4, 5, 6, 7, 8, 9, 10, 11, 12, 13, 14, 15],
    [2, 6, 3, 10, 7, 0, 4, 13, 1, 11, 12, 5, 9, 14, 15, 8],
    [3, 4, 10, 12, 13, 2, 7, 14, 6, 5, 9, 0, 11, 15, 8, 1],
    [10, 7, 12, 9, 14, 3, 13, 15, 4, 0, 11, 2, 5, 8, 1, 6],
    [12, 13, 9, 11, 15, 10, 14, 8, 7, 2, 5, 3, 0, 1, 6, 4],
    [9, 14, 11, 5, 8, 12, 15, 1, 13, 3, 0, 10, 2, 6, 4, 7],
    [11, 15, 5, 0, 1, 9, 8, 6, 14, 10, 2, 12, 3, 4, 7, 13],
];

/// The mixing function: from four words of the state and two of the
/// message, the four words of the state after it.
pub open spec fn g_spec(input: Seq<u32>) -> Seq<u32> {
    let x = input[4];
    let y = input[5];
    let a1 = add32(add32(input[0], input[1]), x);
    let d1 = rotr(input[3] ^ a1, 16);
    let c1 = add32(input[2], d1);
    let b1 = rotr(input[1] ^ c1, 12);
    let a2 = add32(add32(a1, b1), y);
    let d2 = rotr(d1 ^ a2, 8);
    let c2 = add32(c1, d2);
    let b2 = rotr(b1 ^ c2, 7);
    seq![a2, b2, c2, d2]
}

/// The mixing function.
pub fn g_func(input: [u32; 6]) -> (r: [u32; 4])
    ensures
        r@ == g_spec(input@),
{
    let x = input[4];
    let y = input[5];
    let a1 = add_words(add_words(input[0], input[1]), x);
    let d1 = rotate_right(input[3] ^ a1, 16);
    let c1 = add_words(input[2], d1);
    let b1 = rotate_right(input[1] ^ c1, 12);
    let a2 = add_words(add_words(a1, b1), y);
    let d2 = rotate_right(d1 ^ a2, 8);
    let c2 = add_words(c1, d2);
    let b2 = rotate_right(b1 ^ c2, 7);
    let r = [a2, b2, c2, d2];
    assert(r@ =~= g_spec(input@));
    r
}

} // verus!
