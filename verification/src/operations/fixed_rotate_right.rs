//! The rotation of a word to the right by a fixed number of bits: first
//! by whole bytes, then byte by byte with the table of bytes.

use crate::air::{felts_view, lemma_felts_view_push};
use crate::bytes::{shr_carry, shr_carry_spec, ByteLookupEvent, ByteOpcode};
use crate::field::Felt;
use crate::operations::bitwise::{byte_of_word, word_bytes};
use crate::syscall::precompiles::sha256::{rotate_right, rotr};
use crate::word::Word;
use vstd::prelude::*;

verus! {

/// The rotation of a word to the right by a fixed number of bits.
#[derive(Clone, Copy, Debug)]
pub struct FixedRotateRightOperation<T> {
    /// The output value.
    pub value: Word<T>,
    /// The shift output of `ShrCarry` on each byte of a word.
    pub shift: Word<T>,
    /// The carry output of `ShrCarry` on each byte of a word.
    pub carry: Word<T>,
}

/// The number of columns of the operation.
pub const NUM_ROTATE_COLS: usize = 12;

/// Byte `i` of the word after the rotation by whole bytes.
pub open spec fn rotated_byte(input: u32, rotation: int, i: int) -> u8 {
    byte_of_word(input, (i + rotation / 8) % 4)
}

/// What the table gives for byte `i`: the byte shifted right by the bits
/// that are left of the rotation, and the bits shifted out.
pub open spec fn shifted(input: u32, rotation: int, i: int) -> (u8, u8) {
    shr_carry_spec(rotated_byte(input, rotation, i), (rotation % 8) as u8)
}

/// What a carry is multiplied by to join the byte below: two to the
/// eight less the bits of the rotation.
pub open spec fn carry_multiplier(rotation: int) -> int {
    let bits = rotation % 8;
    if bits == 0 {
        256
    } else if bits == 1 {
        128
    } else if bits == 2 {
        64
    } else if bits == 3 {
        32
    } else if bits == 4 {
        16
    } else if bits == 5 {
        8
    } else if bits == 6 {
        4
    } else {
        2
    }
}

/// The columns of the rotation: the bytes of the result, each the shifted
/// byte and the carry of the byte above; then the shifted bytes; then the
/// carries.
pub open spec fn rotate_cols(input: u32, rotation: int) -> Seq<int> {
    Seq::new(
        4,
        |i: int|
            shifted(input, rotation, i).0 + shifted(input, rotation, (i + 1) % 4).1
                * carry_multiplier(rotation),
    ) + Seq::new(4, |i: int| shifted(input, rotation, i).0 as int) + Seq::new(
        4,
        |i: int| shifted(input, rotation, i).1 as int,
    )
}

/// The lookups of the rotation, from the high byte down.
pub open spec fn rotate_lookups(input: u32, rotation: int) -> Seq<ByteLookupEvent> {
    Seq::new(
        4,
        |k: int|
            ByteLookupEvent {
                opcode: ByteOpcode::ShrCarry,
                a1: shifted(input, rotation, 3 - k).0 as u16,
                a2: shifted(input, rotation, 3 - k).1,
                b: rotated_byte(input, rotation, 3 - k),
                c: (rotation % 8) as u8,
            },
    )
}

/// What the table gives for the four bytes of the rotated word.
pub struct Shifted {
    pub shift: [u8; 4],
    pub carry: [u8; 4],
}

/// Looks the four bytes up, from the high byte down.
fn shift_bytes(events: &mut Vec<ByteLookupEvent>, input: u32, rotation: usize) -> (r: Shifted)
    requires
        0 < rotation < 32,
    ensures
        forall|i: int|
            0 <= i < 4 ==> (r.shift[i], r.carry[i]) == shifted(input, rotation as int, i),
        final(events)@ == old(events)@ + rotate_lookups(input, rotation as int),
{
    let input_bytes = word_bytes(input);
    let nb_bytes_to_shift = rotation / 8;
    let bits = (rotation % 8) as u8;
    let ghost rot = rotation as int;

    // Perform the byte shift.
    let b0 = input_bytes[nb_bytes_to_shift % 4];
    let b1 = input_bytes[(1 + nb_bytes_to_shift) % 4];
    let b2 = input_bytes[(2 + nb_bytes_to_shift) % 4];
    let b3 = input_bytes[(3 + nb_bytes_to_shift) % 4];
    assert(b0 == rotated_byte(input, rot, 0));
    assert(b1 == rotated_byte(input, rot, 1));
    assert(b2 == rotated_byte(input, rot, 2));
    assert(b3 == rotated_byte(input, rot, 3));
    let (s3, c3) = shr_carry(b3, bits);
    events.push(ByteLookupEvent::new(ByteOpcode::ShrCarry, s3 as u16, c3, b3, bits));
    let (s2, c2) = shr_carry(b2, bits);
    events.push(ByteLookupEvent::new(ByteOpcode::ShrCarry, s2 as u16, c2, b2, bits));
    let (s1, c1) = shr_carry(b1, bits);
    events.push(ByteLookupEvent::new(ByteOpcode::ShrCarry, s1 as u16, c1, b1, bits));
    let (s0, c0) = shr_carry(b0, bits);
    events.push(ByteLookupEvent::new(ByteOpcode::ShrCarry, s0 as u16, c0, b0, bits));
    let r = Shifted { shift: [s0, s1, s2, s3], carry: [c0, c1, c2, c3] };
    proof {
        let want = rotate_lookups(input, rot);
        let n = old(events)@.len() as int;
        assert(events@.len() == n + 4);
        assert(events@[n + 0] == want[0]);
        assert(events@[n + 1] == want[1]);
        assert(events@[n + 2] == want[2]);
        assert(events@[n + 3] == want[3]);
        assert(events@ =~= old(events)@ + want);
    }
    r
}

impl FixedRotateRightOperation<Felt> {
    /// Appends the columns and the lookups of the rotation of `input` to
    /// the right by `rotation` bits, and gives the result.
    pub fn populate(
        row: &mut Vec<Felt>,
        events: &mut Vec<ByteLookupEvent>,
        input: u32,
        rotation: usize,
    ) -> (r: u32)
        requires
            0 < rotation < 32,
        ensures
            r == rotr(input, rotation as u32),
            felts_view(final(row)@) == felts_view(old(row)@) + rotate_cols(input, rotation as int),
            final(row)@.len() == old(row)@.len() + NUM_ROTATE_COLS,
            final(events)@ == old(events)@ + rotate_lookups(input, rotation as int),
    {
        let expected = rotate_right(input, rotation as u32);
        let nb_bits_to_shift = rotation % 8;
        let carry_mult: u32 = if nb_bits_to_shift == 0 {
            256
        } else if nb_bits_to_shift == 1 {
            128
        } else if nb_bits_to_shift == 2 {
            64
        } else if nb_bits_to_shift == 3 {
            32
        } else if nb_bits_to_shift == 4 {
            16
        } else if nb_bits_to_shift == 5 {
            8
        } else if nb_bits_to_shift == 6 {
            4
        } else {
            2
        };
        let t = shift_bytes(events, input, rotation);
        let s = t.shift;
        let c = t.carry;
        let ghost rot = rotation as int;
        let ghost start = felts_view(row@);

        // The value of a byte is the shifted byte and the carry of the byte
        // above; the carry of the low byte comes round to the high byte.
        let v0 = Felt::from_canonical_u32((s[0] as u32) + (c[1] as u32) * carry_mult);
        let v1 = Felt::from_canonical_u32((s[1] as u32) + (c[2] as u32) * carry_mult);
        let v2 = Felt::from_canonical_u32((s[2] as u32) + (c[3] as u32) * carry_mult);
        let v3 = Felt::from_canonical_u32((s[3] as u32) + (c[0] as u32) * carry_mult);
        row.push(v0);
        row.push(v1);
        row.push(v2);
        row.push(v3);
        row.push(Felt::from_canonical_u8(s[0]));
        row.push(Felt::from_canonical_u8(s[1]));
        row.push(Felt::from_canonical_u8(s[2]));
        row.push(Felt::from_canonical_u8(s[3]));
        row.push(Felt::from_canonical_u8(c[0]));
        row.push(Felt::from_canonical_u8(c[1]));
        row.push(Felt::from_canonical_u8(c[2]));
        row.push(Felt::from_canonical_u8(c[3]));
        proof {
            assert(carry_mult == carry_multiplier(rot));
            let want = rotate_cols(input, rot);
            let got = felts_view(row@);
            let n = start.len() as int;
            assert(want.len() == 12);
            assert(got.len() == n + 12);
            assert(shifted(input, rot, 0) == (s[0], c[0]));
            assert(shifted(input, rot, 1) == (s[1], c[1]));
            assert(shifted(input, rot, 2) == (s[2], c[2]));
            assert(shifted(input, rot, 3) == (s[3], c[3]));
            assert(got[n + 0] == want[0]);
            assert(got[n + 1] == want[1]);
            assert(got[n + 2] == want[2]);
            assert(got[n + 3] == want[3]);
            assert(got[n + 4] == want[4]);
            assert(got[n + 5] == want[5]);
            assert(got[n + 6] == want[6]);
            assert(got[n + 7] == want[7]);
            assert(got[n + 8] == want[8]);
            assert(got[n + 9] == want[9]);
            assert(got[n + 10] == want[10]);
            assert(got[n + 11] == want[11]);
            assert(got =~= start + want);
        }
        expected
    }
}

} // verus!
