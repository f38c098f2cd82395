//! Operations on bytes. Chips do not constrain them bit by bit: they look
//! them up in one table, and the record counts how often each is looked up.

pub mod air;
pub mod columns;
pub mod event;
pub mod trace;

pub use event::{
    lemma_key_injective, lemma_occurrences_concat, occurrences, word_range_checks,
    ByteLookupEvent, ByteOpcode, NUM_BYTE_OPS,
};

use vstd::prelude::*;

verus! {

/// The table of the operations on bytes: for every pair of bytes the
/// results of all operations, and how often each was looked up.
#[derive(Default)]
pub struct ByteChip;

/// The number of rows of the table: one for every pair of bytes.
pub const NUM_BYTE_ROWS: usize = 65536;

/// The result of the right shift with carry: the byte shifted right by
/// the low three bits of the rotation, and the bits that were shifted out.
pub open spec fn shr_carry_spec(input: u8, rotation: u8) -> (u8, u8) {
    let c_mod = rotation & 7u8;
    if c_mod != 0 {
        (input >> c_mod, (input << ((8 - c_mod) as u8)) >> ((8 - c_mod) as u8))
    } else {
        (input, 0u8)
    }
}

/// The result of the right shift with carry.
pub fn shr_carry(input: u8, rotation: u8) -> (r: (u8, u8))
    ensures
        r == shr_carry_spec(input, rotation),
{
    let c_mod = rotation & 0x7;
    assert(rotation & 7u8 < 8) by (bit_vector);
    if c_mod != 0 {
        let res = input >> c_mod;
        let carry = (input << (8 - c_mod)) >> (8 - c_mod);
        (res, carry)
    } else {
        (input, 0u8)
    }
}

/// The two results of an operation on two bytes.
pub open spec fn byte_result(op: ByteOpcode, b: u8, c: u8) -> (u16, u8) {
    match op {
        ByteOpcode::AND => ((b & c) as u16, 0u8),
        ByteOpcode::OR => ((b | c) as u16, 0u8),
        ByteOpcode::XOR => ((b ^ c) as u16, 0u8),
        ByteOpcode::SLL => ((b << (c & 7u8)) as u16, 0u8),
        ByteOpcode::U8Range => (0u16, 0u8),
        ByteOpcode::ShrCarry => (shr_carry_spec(b, c).0 as u16, shr_carry_spec(b, c).1),
        ByteOpcode::LTU => (
            if b < c {
                1u16
            } else {
                0u16
            },
            0u8,
        ),
        ByteOpcode::MSB => (
            if b >= 128 {
                1u16
            } else {
                0u16
            },
            0u8,
        ),
        ByteOpcode::U16Range => ((b as u16 * 256 + c as u16) as u16, 0u8),
    }
}

/// The two results of an operation on two bytes.
pub fn byte_op(op: ByteOpcode, b: u8, c: u8) -> (r: (u16, u8))
    ensures
        r == byte_result(op, b, c),
{
    match op {
        ByteOpcode::AND => ((b & c) as u16, 0),
        ByteOpcode::OR => ((b | c) as u16, 0),
        ByteOpcode::XOR => ((b ^ c) as u16, 0),
        ByteOpcode::SLL => {
            assert(c & 7u8 < 8) by (bit_vector);
            ((b << (c & 7)) as u16, 0)
        },
        ByteOpcode::U8Range => (0, 0),
        ByteOpcode::ShrCarry => {
            let (res, carry) = shr_carry(b, c);
            (res as u16, carry)
        },
        ByteOpcode::LTU => (
            if b < c {
                1
            } else {
                0
            },
            0,
        ),
        ByteOpcode::MSB => (
            if b >= 128 {
                1
            } else {
                0
            },
            0,
        ),
        ByteOpcode::U16Range => ((b as u16) * 256 + (c as u16), 0),
    }
}

/// The lookup that stands for an operation on the pair of bytes of a row
/// of the table. The most significant bit does not depend on the second
/// byte, and the 16-bit range check takes the two bytes as one value.
pub open spec fn lookup_of(op: ByteOpcode, b: u8, c: u8) -> ByteLookupEvent {
    let (a1, a2) = byte_result(op, b, c);
    match op {
        ByteOpcode::MSB => ByteLookupEvent { opcode: op, a1, a2, b, c: 0 },
        ByteOpcode::U16Range => ByteLookupEvent { opcode: op, a1, a2, b: 0, c: 0 },
        _ => ByteLookupEvent { opcode: op, a1, a2, b, c },
    }
}

/// The lookup that stands for an operation on the pair of bytes of a row
/// of the table.
pub fn lookup_for(op: ByteOpcode, b: u8, c: u8) -> (r: ByteLookupEvent)
    ensures
        r == lookup_of(op, b, c),
{
    let (a1, a2) = byte_op(op, b, c);
    match op {
        ByteOpcode::MSB => ByteLookupEvent::new(op, a1, a2, b, 0),
        ByteOpcode::U16Range => ByteLookupEvent::new(op, a1, a2, 0, 0),
        _ => ByteLookupEvent::new(op, a1, a2, b, c),
    }
}

} // verus!
