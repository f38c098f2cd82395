//! The columns of the table of bytes.

use vstd::prelude::*;

verus! {

/// The number of columns of the preprocessed table.
pub const NUM_BYTE_PREPROCESSED_COLS: usize = 11;

/// The number of columns of the main trace: one multiplicity for each
/// operation.
pub const NUM_BYTE_MULT_COLS: usize = 9;

/// The preprocessed columns: a pair of bytes and the results of all
/// operations on it.
#[derive(Clone, Copy, Debug)]
pub struct BytePreprocessedCols<T> {
    /// The first byte operand.
    pub b: T,
    /// The second byte operand.
    pub c: T,
    /// The result of the `AND` operation on `b` and `c`.
    pub and: T,
    /// The result of the `OR` operation on `b` and `c`.
    pub or: T,
    /// The result of the `XOR` operation on `b` and `c`.
    pub xor: T,
    /// The result of the `SLL` operation on `b` and `c`.
    pub sll: T,
    /// The result of the `ShrCarry` operation on `b` and `c`.
    pub shr: T,
    pub shr_carry: T,
    /// The result of the `LTU` operation on `b` and `c`.
    pub ltu: T,
    /// The most significant bit of `b`.
    pub msb: T,
    /// A u16 value used for `U16Range`.
    pub value_u16: T,
}

/// The main columns: how often each operation was looked up on the pair of
/// bytes of the row.
#[derive(Clone, Copy, Debug)]
pub struct ByteMultCols<T> {
    pub multiplicities: [T; 9],
}

/// Where each preprocessed column stands in a row.
pub fn byte_preprocessed_col_map() -> (r: BytePreprocessedCols<usize>)
    ensures
        r == (BytePreprocessedCols::<usize> {
            b: 0usize,
            c: 1usize,
            and: 2usize,
            or: 3usize,
            xor: 4usize,
            sll: 5usize,
            shr: 6usize,
            shr_carry: 7usize,
            ltu: 8usize,
            msb: 9usize,
            value_u16: 10usize,
        }),
{
    BytePreprocessedCols {
        b: 0,
        c: 1,
        and: 2,
        or: 3,
        xor: 4,
        sll: 5,
        shr: 6,
        shr_carry: 7,
        ltu: 8,
        msb: 9,
        value_u16: 10,
    }
}

} // verus!
