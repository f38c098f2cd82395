//! Machine words and their decomposition into bytes.
//!
//! A word of the machine is 32 bits wide; in a trace it occupies four
//! columns, one per byte, least significant first.

use crate::field::Felt;
use vstd::prelude::*;

verus! {

/// The number of bytes in a word.
pub const WORD_SIZE: usize = 4;

/// A word as four limbs, least significant first.
#[derive(Clone, Copy, Debug)]
pub struct Word<T>(pub [T; 4]);

/// The `i`-th byte of `x`, counted from the least significant.
pub open spec fn byte_at(x: int, i: int) -> int {
    if i == 0 {
        x % 256
    } else if i == 1 {
        (x / 256) % 256
    } else if i == 2 {
        (x / 65536) % 256
    } else {
        (x / 16777216) % 256
    }
}

/// The four bytes of a 32-bit value, least significant first.
pub open spec fn le_bytes(x: int) -> Seq<int> {
    seq![byte_at(x, 0), byte_at(x, 1), byte_at(x, 2), byte_at(x, 3)]
}

/// The value that four limbs stand for under the little-endian weighting
/// `1, 2^8, 2^16, 2^24`.
pub open spec fn le_value(b: Seq<int>) -> int {
    b[0] + 256 * b[1] + 65536 * b[2] + 16777216 * b[3]
}

/// The limbs of a byte array, as integers.
pub open spec fn bytes_view(b: [u8; 4]) -> Seq<int> {
    seq![b[0] as int, b[1] as int, b[2] as int, b[3] as int]
}

/// Splits a 32-bit value into its four bytes, least significant first.
pub fn u32_to_le_bytes(x: u32) -> (r: [u8; 4])
    ensures
        bytes_view(r) == le_bytes(x as int),
        le_value(bytes_view(r)) == x,
{
    let b0: u8 = (x & 0xff) as u8;
    let b1: u8 = ((x >> 8) & 0xff) as u8;
    let b2: u8 = ((x >> 16) & 0xff) as u8;
    let b3: u8 = ((x >> 24) & 0xff) as u8;
    assert(x & 0xff == x % 256) by (bit_vector);
    assert((x >> 8) & 0xff == (x / 256) % 256) by (bit_vector);
    assert((x >> 16) & 0xff == (x / 65536) % 256) by (bit_vector);
    assert((x >> 24) & 0xff == (x / 16777216) % 256) by (bit_vector);
    let r = [b0, b1, b2, b3];
    proof {
        assert(bytes_view(r) =~= le_bytes(x as int));
        lemma_decompose_recompose(x);
    }
    r
}

/// Joins four bytes, least significant first, into a 32-bit value.
pub fn u32_from_le_bytes(b: [u8; 4]) -> (r: u32)
    ensures
        r == le_value(bytes_view(b)),
        bytes_view(b) == le_bytes(r as int),
{
    let r: u32 = (b[0] as u32) + (b[1] as u32) * 256 + (b[2] as u32) * 65536 + (b[3] as u32)
        * 16777216;
    proof {
        lemma_recompose_decompose(b[0] as int, b[1] as int, b[2] as int, b[3] as int);
        assert(bytes_view(b) =~= le_bytes(r as int));
    }
    r
}

/// Decomposing a 32-bit value into bytes and recomposing by the
/// little-endian weighting gives the value back, and every limb is a byte.
pub proof fn lemma_decompose_recompose(x: u32)
    ensures
        le_value(le_bytes(x as int)) == x,
        forall|i: int| 0 <= i < 4 ==> 0 <= #[trigger] le_bytes(x as int)[i] < 256,
{
    let v = x as int;
    assert(v == 256 * (v / 256) + v % 256);
    assert(v / 256 == 256 * (v / 256 / 256) + (v / 256) % 256);
    assert(v / 256 / 256 == v / 65536);
    assert(v / 65536 == 256 * (v / 65536 / 256) + (v / 65536) % 256);
    assert(v / 65536 / 256 == v / 16777216);
    assert(v / 16777216 < 256);
    assert((v / 16777216) % 256 == v / 16777216);
}

/// Recomposing four bytes and decomposing the result gives the bytes back.
pub proof fn lemma_recompose_decompose(b0: int, b1: int, b2: int, b3: int)
    requires
        0 <= b0 < 256,
        0 <= b1 < 256,
        0 <= b2 < 256,
        0 <= b3 < 256,
    ensures
        0 <= le_value(seq![b0, b1, b2, b3]) < 0x1_0000_0000,
        le_bytes(le_value(seq![b0, b1, b2, b3])) == seq![b0, b1, b2, b3],
{
    let v = le_value(seq![b0, b1, b2, b3]);
    assert(v == b0 + 256 * (b1 + 256 * (b2 + 256 * b3)));
    assert(v % 256 == b0);
    assert(v / 256 == b1 + 256 * (b2 + 256 * b3));
    assert(v / 65536 == b2 + 256 * b3);
    assert(v / 16777216 == b3);
    assert(le_bytes(v) =~= seq![b0, b1, b2, b3]);
}

impl Word<u8> {
    /// The bytes of `x`.
    pub fn from_u32(x: u32) -> (r: Word<u8>)
        ensures
            bytes_view(r.0) == le_bytes(x as int),
    {
        Word(u32_to_le_bytes(x))
    }

    /// The value the bytes stand for.
    pub fn to_u32(&self) -> (r: u32)
        ensures
            r == le_value(bytes_view(self.0)),
    {
        u32_from_le_bytes(self.0)
    }
}

/// The limbs of a word of field elements, as integers.
pub open spec fn limbs_view(w: Word<Felt>) -> Seq<int> {
    seq![w.0[0]@, w.0[1]@, w.0[2]@, w.0[3]@]
}

impl Word<Felt> {
    /// The bytes of `x`, each as a field element.
    pub fn from_u32(x: u32) -> (r: Word<Felt>)
        ensures
            limbs_view(r) == le_bytes(x as int),
    {
        let b = u32_to_le_bytes(x);
        let r = Word(
            [
                Felt::from_canonical_u8(b[0]),
                Felt::from_canonical_u8(b[1]),
                Felt::from_canonical_u8(b[2]),
                Felt::from_canonical_u8(b[3]),
            ],
        );
        assert(limbs_view(r) =~= bytes_view(b));
        r
    }

    /// The word whose limbs are all zero.
    pub fn zero() -> (r: Word<Felt>)
        ensures
            limbs_view(r) == seq![0int, 0int, 0int, 0int],
    {
        let z = Felt::zero();
        let r = Word([z, z, z, z]);
        assert(limbs_view(r) =~= seq![0int, 0int, 0int, 0int]);
        r
    }
}

} // verus!
