//! The sum of two words, byte by byte with carries.

use crate::air::{felts_view, lemma_felts_view_push};
use crate::bytes::{ByteLookupEvent, ByteOpcode};
use crate::field::Felt;
use crate::operations::bitwise::{byte_of_word, word_bytes};
use crate::syscall::precompiles::sha256::add32;
use crate::word::{le_bytes, Word};
use vstd::prelude::*;

verus! {

/// The sum of two words: the bytes of the sum and the carry out of each of
/// the three low bytes.
#[derive(Clone, Copy, Debug)]
pub struct AddOperation<T> {
    /// The result of `a + b`.
    pub value: Word<T>,
    /// Trace.
    pub carry: [T; 3],
}

/// The sum of five words. Only the value is filled in by the chips that
/// hold it.
#[derive(Clone, Copy, Debug)]
pub struct Add5Operation<T> {
    /// The result of `Word(a) + Word(b) + Word(c) + Word(d) + Word(e)`.
    pub value: Word<T>,
    /// Indicates if the carry for the `i`-th byte is 0, 1, 2, 3 or 4.
    pub is_carry_0: Word<T>,
    pub is_carry_1: Word<T>,
    pub is_carry_2: Word<T>,
    pub is_carry_3: Word<T>,
    pub is_carry_4: Word<T>,
    /// The carry for the `i`-th byte.
    pub carry: Word<T>,
}

/// The number of columns of `AddOperation`.
pub const NUM_ADD_COLS: usize = 7;

/// The number of columns of `Add5Operation`.
pub const NUM_ADD5_COLS: usize = 28;

/// One if a carry goes out of a byte: the two bytes and the carry that
/// came in exceed 255.
pub open spec fn carry_out(a: int, b: int, carry_in: int) -> int {
    if a + b + carry_in > 255 {
        1
    } else {
        0
    }
}

/// The three carries of the sum `a + b`, from the low byte up.
pub open spec fn carries(a: u32, b: u32) -> Seq<int> {
    let k0 = carry_out(byte_of_word(a, 0) as int, byte_of_word(b, 0) as int, 0);
    let k1 = carry_out(byte_of_word(a, 1) as int, byte_of_word(b, 1) as int, k0);
    let k2 = carry_out(byte_of_word(a, 2) as int, byte_of_word(b, 2) as int, k1);
    seq![k0, k1, k2]
}

/// The columns of the sum: the bytes of the sum, then the carries.
pub open spec fn add_cols(a: u32, b: u32) -> Seq<int> {
    le_bytes(add32(a, b) as int) + carries(a, b)
}

/// The range checks of the bytes of a word.
pub open spec fn word_checks(x: u32) -> Seq<ByteLookupEvent> {
    seq![
        ByteLookupEvent::range_check(byte_of_word(x, 0), byte_of_word(x, 1)),
        ByteLookupEvent::range_check(byte_of_word(x, 2), byte_of_word(x, 3)),
    ]
}

/// The lookups of the sum: the range checks of the two words and of
/// their sum.
pub open spec fn add_lookups(a: u32, b: u32) -> Seq<ByteLookupEvent> {
    word_checks(a) + word_checks(b) + word_checks(add32(a, b))
}

/// Appends the range checks of the bytes of a word.
pub fn push_word_checks(events: &mut Vec<ByteLookupEvent>, x: u32)
    ensures
        final(events)@ == old(events)@ + word_checks(x),
{
    let xb = word_bytes(x);
    events.push(ByteLookupEvent::new(ByteOpcode::U8Range, 0, 0, xb[0], xb[1]));
    events.push(ByteLookupEvent::new(ByteOpcode::U8Range, 0, 0, xb[2], xb[3]));
    assert(events@ =~= old(events)@ + word_checks(x));
}

/// Appends the bytes of a word to a row.
pub fn push_word(row: &mut Vec<Felt>, x: u32)
    ensures
        felts_view(final(row)@) == felts_view(old(row)@) + le_bytes(x as int),
        final(row)@.len() == old(row)@.len() + 4,
{
    let w = Word::<Felt>::from_u32(x);
    row.push(w.0[0]);
    row.push(w.0[1]);
    row.push(w.0[2]);
    row.push(w.0[3]);
    assert(felts_view(row@) =~= felts_view(old(row)@) + crate::word::limbs_view(w));
}

/// Appends `n` zeros to a row.
pub fn push_zeros(row: &mut Vec<Felt>, n: usize)
    ensures
        felts_view(final(row)@) == felts_view(old(row)@) + crate::trace::zeros(n as nat),
        final(row)@.len() == old(row)@.len() + n,
{
    let mut i: usize = 0;
    while i < n
        invariant
            i <= n,
            row@.len() == old(row)@.len() + i,
            felts_view(row@) == felts_view(old(row)@) + crate::trace::zeros(i as nat),
        decreases n - i,
    {
        let ghost before = row@;
        let z = Felt::zero();
        row.push(z);
        i = i + 1;
        proof {
            lemma_felts_view_push(before, z);
            assert(felts_view(row@) =~= felts_view(old(row)@) + crate::trace::zeros(i as nat));
        }
    }
}

impl AddOperation<Felt> {
    /// Appends the columns and the lookups of `a + b`, and gives the sum.
    pub fn populate(
        row: &mut Vec<Felt>,
        events: &mut Vec<ByteLookupEvent>,
        a_u32: u32,
        b_u32: u32,
    ) -> (r: u32)
        ensures
            r == add32(a_u32, b_u32),
            felts_view(final(row)@) == felts_view(old(row)@) + add_cols(a_u32, b_u32),
            final(row)@.len() == old(row)@.len() + NUM_ADD_COLS,
            final(events)@ == old(events)@ + add_lookups(a_u32, b_u32),
    {
        let expected = a_u32.wrapping_add(b_u32);
        push_word(row, expected);
        let ghost r1 = felts_view(row@);
        let a = word_bytes(a_u32);
        let b = word_bytes(b_u32);
        let mut k0: u32 = 0;
        if (a[0] as u32) + (b[0] as u32) > 255 {
            k0 = 1;
        }
        let mut k1: u32 = 0;
        if (a[1] as u32) + (b[1] as u32) + k0 > 255 {
            k1 = 1;
        }
        let mut k2: u32 = 0;
        if (a[2] as u32) + (b[2] as u32) + k1 > 255 {
            k2 = 1;
        }
        row.push(Felt::from_canonical_u32(k0));
        row.push(Felt::from_canonical_u32(k1));
        row.push(Felt::from_canonical_u32(k2));
        proof {
            assert(seq![k0 as int, k1 as int, k2 as int] =~= carries(a_u32, b_u32));
            assert(felts_view(row@) =~= r1 + carries(a_u32, b_u32));
        }
        // Range check
        push_word_checks(events, a_u32);
        push_word_checks(events, b_u32);
        push_word_checks(events, expected);
        expected
    }
}

} // verus!
