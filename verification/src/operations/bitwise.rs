//! The bitwise operations on words, byte by byte: each byte of the result
//! is looked up in the table of bytes.

use crate::air::felts_view;
use crate::bytes::{byte_result, ByteLookupEvent, ByteOpcode};
use crate::field::Felt;
use crate::word::{bytes_view, le_bytes, lemma_decompose_recompose, u32_to_le_bytes, Word};
use vstd::prelude::*;

verus! {

/// The result of `AND` on two words, byte by byte.
#[derive(Clone, Copy, Debug)]
pub struct AndOperation<T> {
    /// The result of `x & y`.
    pub value: Word<T>,
}

/// The result of `XOR` on two words, byte by byte.
#[derive(Clone, Copy, Debug)]
pub struct XorOperation<T> {
    /// The result of `x ^ y`.
    pub value: Word<T>,
}

/// The result of `NOT` on a word, byte by byte.
#[derive(Clone, Copy, Debug)]
pub struct NotOperation<T> {
    /// The result of `!x`.
    pub value: Word<T>,
}

/// Byte `i` of a word.
pub open spec fn byte_of_word(x: u32, i: int) -> u8 {
    le_bytes(x as int)[i] as u8
}

/// The lookups of a bytewise operation on two words, from the low byte
/// up.
pub open spec fn bytewise_lookups(op: ByteOpcode, x: u32, y: u32) -> Seq<ByteLookupEvent> {
    Seq::new(
        4,
        |i: int|
            ByteLookupEvent {
                opcode: op,
                a1: byte_result(op, byte_of_word(x, i), byte_of_word(y, i)).0,
                a2: 0,
                b: byte_of_word(x, i),
                c: byte_of_word(y, i),
            },
    )
}

/// The columns of a bytewise operation on two words: the bytes of the
/// result.
pub open spec fn bytewise_cols(op: ByteOpcode, x: u32, y: u32) -> Seq<int> {
    Seq::new(4, |i: int| byte_result(op, byte_of_word(x, i), byte_of_word(y, i)).0 as int)
}

/// The bytes of a word, as bytes.
pub fn word_bytes(x: u32) -> (r: [u8; 4])
    ensures
        forall|i: int| 0 <= i < 4 ==> r[i] == byte_of_word(x, i),
{
    let r = u32_to_le_bytes(x);
    proof {
        lemma_decompose_recompose(x);
        assert forall|i: int| 0 <= i < 4 implies r[i] == byte_of_word(x, i) by {
            assert(bytes_view(r)[i] == le_bytes(x as int)[i]);
        }
    }
    r
}

/// A bytewise operation on two words: appends the bytes of the result to
/// the row and the lookups to `events`, and gives the result.
fn populate_bytewise(
    op: ByteOpcode,
    x: u32,
    y: u32,
    row: &mut Vec<Felt>,
    events: &mut Vec<ByteLookupEvent>,
) -> (r: u32)
    requires
        op == ByteOpcode::AND || op == ByteOpcode::XOR,
    ensures
        r == (if op == ByteOpcode::AND {
            x & y
        } else {
            x ^ y
        }),
        felts_view(final(row)@) == felts_view(old(row)@) + bytewise_cols(op, x, y),
        final(events)@ == old(events)@ + bytewise_lookups(op, x, y),
{
    let xb = word_bytes(x);
    let yb = word_bytes(y);
    let mut i: usize = 0;
    while i < 4
        invariant
            i <= 4,
            op == ByteOpcode::AND || op == ByteOpcode::XOR,
            forall|k: int| 0 <= k < 4 ==> xb[k] == byte_of_word(x, k),
            forall|k: int| 0 <= k < 4 ==> yb[k] == byte_of_word(y, k),
            felts_view(row@) == felts_view(old(row)@) + bytewise_cols(op, x, y).subrange(
                0,
                i as int,
            ),
            events@ == old(events)@ + bytewise_lookups(op, x, y).subrange(0, i as int),
        decreases 4 - i,
    {
        let (v, _) = crate::bytes::byte_op(op, xb[i], yb[i]);
        assert(v < 256) by {
            let b = xb[i as int];
            let c = yb[i as int];
            assert(((b & c) as u16) < 256 && ((b ^ c) as u16) < 256);
        }
        let ghost before = row@;
        let f = Felt::from_canonical_u32(v as u32);
        row.push(f);
        events.push(ByteLookupEvent::new(op, v, 0, xb[i], yb[i]));
        i = i + 1;
        proof {
            crate::air::lemma_felts_view_push(before, f);
            assert(bytewise_cols(op, x, y).subrange(0, i as int) =~= bytewise_cols(
                op,
                x,
                y,
            ).subrange(0, i - 1).push(v as int));
            assert(felts_view(row@) =~= felts_view(old(row)@) + bytewise_cols(op, x, y).subrange(
                0,
                i as int,
            ));
            assert(events@ =~= old(events)@ + bytewise_lookups(op, x, y).subrange(0, i as int));
        }
    }
    proof {
        assert(bytewise_cols(op, x, y).subrange(0, 4) =~= bytewise_cols(op, x, y));
        assert(bytewise_lookups(op, x, y).subrange(0, 4) =~= bytewise_lookups(op, x, y));
    }
    if op == ByteOpcode::AND {
        x & y
    } else {
        x ^ y
    }
}

impl AndOperation<Felt> {
    /// Appends the columns and the lookups of `x & y`, and gives the
    /// result.
    pub fn populate(
        row: &mut Vec<Felt>,
        events: &mut Vec<ByteLookupEvent>,
        x: u32,
        y: u32,
    ) -> (r: u32)
        ensures
            r == x & y,
            felts_view(final(row)@) == felts_view(old(row)@) + bytewise_cols(
                ByteOpcode::AND,
                x,
                y,
            ),
            final(events)@ == old(events)@ + bytewise_lookups(ByteOpcode::AND, x, y),
    {
        populate_bytewise(ByteOpcode::AND, x, y, row, events)
    }
}

impl XorOperation<Felt> {
    /// Appends the columns and the lookups of `x ^ y`, and gives the
    /// result.
    pub fn populate(
        row: &mut Vec<Felt>,
        events: &mut Vec<ByteLookupEvent>,
        x: u32,
        y: u32,
    ) -> (r: u32)
        ensures
            r == x ^ y,
            felts_view(final(row)@) == felts_view(old(row)@) + bytewise_cols(
                ByteOpcode::XOR,
                x,
                y,
            ),
            final(events)@ == old(events)@ + bytewise_lookups(ByteOpcode::XOR, x, y),
    {
        populate_bytewise(ByteOpcode::XOR, x, y, row, events)
    }
}

/// The columns of `NOT`: the bytes of the word, each taken from 255.
pub open spec fn not_cols(x: u32) -> Seq<int> {
    Seq::new(4, |i: int| 255 - byte_of_word(x, i))
}

/// The lookups of `NOT`: the range checks of the bytes of the word.
pub open spec fn not_lookups(x: u32) -> Seq<ByteLookupEvent> {
    seq![
        ByteLookupEvent::range_check(byte_of_word(x, 0), byte_of_word(x, 1)),
        ByteLookupEvent::range_check(byte_of_word(x, 2), byte_of_word(x, 3)),
    ]
}

impl NotOperation<Felt> {
    /// Appends the columns and the lookups of `!x`, and gives the result.
    pub fn populate(row: &mut Vec<Felt>, events: &mut Vec<ByteLookupEvent>, x: u32) -> (r: u32)
        ensures
            r == !x,
            felts_view(final(row)@) == felts_view(old(row)@) + not_cols(x),
            final(events)@ == old(events)@ + not_lookups(x),
    {
        let xb = word_bytes(x);
        row.push(Felt::from_canonical_u8(255 - xb[0]));
        row.push(Felt::from_canonical_u8(255 - xb[1]));
        row.push(Felt::from_canonical_u8(255 - xb[2]));
        row.push(Felt::from_canonical_u8(255 - xb[3]));
        events.push(ByteLookupEvent::new(ByteOpcode::U8Range, 0, 0, xb[0], xb[1]));
        events.push(ByteLookupEvent::new(ByteOpcode::U8Range, 0, 0, xb[2], xb[3]));
        proof {
            assert(felts_view(row@) =~= felts_view(old(row)@) + not_cols(x));
            assert(events@ =~= old(events)@ + not_lookups(x));
        }
        !x
    }
}

} // verus!
