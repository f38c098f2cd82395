//! Operations on bytes. Chips do not constrain them bit by bit: they look
//! them up in one table, and the record counts how often each is looked up.

use vstd::prelude::*;

verus! {

/// The number of byte operations.
pub const NUM_BYTE_OPS: usize = 9;

/// A byte operation.
#[allow(non_camel_case_types)]
#[derive(Clone, Copy, Debug, PartialEq, Eq, Structural)]
pub enum ByteOpcode {
    /// Bitwise and.
    AND,
    /// Bitwise or.
    OR,
    /// Bitwise exclusive or.
    XOR,
    /// Shift left, by the low three bits of the second operand.
    SLL,
    /// Both operands are bytes.
    U8Range,
    /// Shift right with carry.
    ShrCarry,
    /// Unsigned less-than.
    LTU,
    /// The most significant bit.
    MSB,
    /// The first result is a 16-bit value.
    U16Range,
}

impl ByteOpcode {
    /// The place of the operation among the nine, which is also the number
    /// that stands for it on the bus.
    pub open spec fn index_spec(self) -> int {
        match self {
            ByteOpcode::AND => 0,
            ByteOpcode::OR => 1,
            ByteOpcode::XOR => 2,
            ByteOpcode::SLL => 3,
            ByteOpcode::U8Range => 4,
            ByteOpcode::ShrCarry => 5,
            ByteOpcode::LTU => 6,
            ByteOpcode::MSB => 7,
            ByteOpcode::U16Range => 8,
        }
    }

    pub fn index(self) -> (r: usize)
        ensures
            r == self.index_spec(),
            r < NUM_BYTE_OPS,
    {
        match self {
            ByteOpcode::AND => 0,
            ByteOpcode::OR => 1,
            ByteOpcode::XOR => 2,
            ByteOpcode::SLL => 3,
            ByteOpcode::U8Range => 4,
            ByteOpcode::ShrCarry => 5,
            ByteOpcode::LTU => 6,
            ByteOpcode::MSB => 7,
            ByteOpcode::U16Range => 8,
        }
    }

    /// The operation at a place among the nine.
    pub open spec fn at(i: int) -> ByteOpcode {
        if i == 0 {
            ByteOpcode::AND
        } else if i == 1 {
            ByteOpcode::OR
        } else if i == 2 {
            ByteOpcode::XOR
        } else if i == 3 {
            ByteOpcode::SLL
        } else if i == 4 {
            ByteOpcode::U8Range
        } else if i == 5 {
            ByteOpcode::ShrCarry
        } else if i == 6 {
            ByteOpcode::LTU
        } else if i == 7 {
            ByteOpcode::MSB
        } else {
            ByteOpcode::U16Range
        }
    }

    /// All operations, in the order of their places.
    pub fn all() -> (r: Vec<ByteOpcode>)
        ensures
            r@.len() == NUM_BYTE_OPS,
            forall|i: int| 0 <= i < NUM_BYTE_OPS ==> r@[i] == Self::at(i),
            forall|i: int| 0 <= i < NUM_BYTE_OPS ==> (#[trigger] r@[i]).index_spec() == i,
    {
        let mut v: Vec<ByteOpcode> = Vec::new();
        v.push(ByteOpcode::AND);
        v.push(ByteOpcode::OR);
        v.push(ByteOpcode::XOR);
        v.push(ByteOpcode::SLL);
        v.push(ByteOpcode::U8Range);
        v.push(ByteOpcode::ShrCarry);
        v.push(ByteOpcode::LTU);
        v.push(ByteOpcode::MSB);
        v.push(ByteOpcode::U16Range);
        v
    }
}

/// One lookup of a byte operation: the operation, its two results and its
/// two operands.
#[derive(Clone, Copy, Debug, PartialEq, Eq, Structural)]
pub struct ByteLookupEvent {
    pub opcode: ByteOpcode,
    pub a1: u16,
    pub a2: u8,
    pub b: u8,
    pub c: u8,
}

impl ByteLookupEvent {
    pub fn new(opcode: ByteOpcode, a1: u16, a2: u8, b: u8, c: u8) -> (r: ByteLookupEvent)
        ensures
            r == (ByteLookupEvent { opcode, a1, a2, b, c }),
    {
        ByteLookupEvent { opcode, a1, a2, b, c }
    }

    /// The integer under which the lookup table counts this event.
    pub open spec fn key_spec(self) -> int {
        (((self.opcode.index_spec() * 0x1_0000 + self.a1) * 0x100 + self.a2) * 0x100 + self.b)
            * 0x100 + self.c
    }

    pub fn key(&self) -> (r: u64)
        ensures
            r == self.key_spec(),
    {
        let k0: u64 = (self.opcode.index() as u64) * 0x1_0000 + (self.a1 as u64);
        let k1: u64 = k0 * 0x100 + (self.a2 as u64);
        let k2: u64 = k1 * 0x100 + (self.b as u64);
        k2 * 0x100 + (self.c as u64)
    }

    /// The check that two operands are bytes.
    pub open spec fn range_check(b: u8, c: u8) -> ByteLookupEvent {
        ByteLookupEvent { opcode: ByteOpcode::U8Range, a1: 0, a2: 0, b, c }
    }
}

/// Two events with the same key are the same event.
pub proof fn lemma_key_injective(x: ByteLookupEvent, y: ByteLookupEvent)
    requires
        x.key_spec() == y.key_spec(),
    ensures
        x == y,
{
    let x0 = x.opcode.index_spec() * 0x1_0000 + x.a1;
    let y0 = y.opcode.index_spec() * 0x1_0000 + y.a1;
    let x1 = x0 * 0x100 + x.a2;
    let y1 = y0 * 0x100 + y.a2;
    let x2 = x1 * 0x100 + x.b;
    let y2 = y1 * 0x100 + y.b;
    assert(x2 * 0x100 + x.c == y2 * 0x100 + y.c);
    assert(x2 == y2 && x.c == y.c);
    assert(x1 == y1 && x.b == y.b);
    assert(x0 == y0 && x.a2 == y.a2);
    assert(x.opcode.index_spec() == y.opcode.index_spec() && x.a1 == y.a1);
}

/// How often `e` occurs in `es`.
pub open spec fn occurrences(es: Seq<ByteLookupEvent>, e: ByteLookupEvent) -> nat
    decreases es.len(),
{
    if es.len() == 0 {
        0
    } else {
        occurrences(es.drop_last(), e) + (if es.last() == e {
            1nat
        } else {
            0nat
        })
    }
}

/// Occurrences add up over concatenation.
pub proof fn lemma_occurrences_concat(
    xs: Seq<ByteLookupEvent>,
    ys: Seq<ByteLookupEvent>,
    e: ByteLookupEvent,
)
    ensures
        occurrences(xs + ys, e) == occurrences(xs, e) + occurrences(ys, e),
    decreases ys.len(),
{
    if ys.len() == 0 {
        assert(xs + ys =~= xs);
    } else {
        assert((xs + ys).drop_last() =~= xs + ys.drop_last());
        lemma_occurrences_concat(xs, ys.drop_last(), e);
    }
}

/// The range checks of a word: one for each pair of its bytes.
pub open spec fn word_range_checks(b: Seq<int>) -> Seq<ByteLookupEvent> {
    seq![
        ByteLookupEvent::range_check(b[0] as u8, b[1] as u8),
        ByteLookupEvent::range_check(b[2] as u8, b[3] as u8),
    ]
}

} // verus!
