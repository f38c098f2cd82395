//! The columns of the compression chip.

use crate::memory::MemoryReadWriteCols;
use crate::operations::add::{Add5Operation, AddOperation};
use crate::operations::bitwise::{AndOperation, NotOperation, XorOperation};
use crate::operations::fixed_rotate_right::FixedRotateRightOperation;
use crate::word::Word;
use vstd::prelude::*;

verus! {

/// The number of columns of the compression chip.
pub const NUM_SHA_COMPRESS_COLS: usize = 255;

/// The columns of the compression chip. A compression takes eighty rows:
/// eight that load the hash state, sixty-four that run the rounds, and
/// eight that add the working variables to the state and store it.
#[derive(Clone, Copy, Debug)]
pub struct ShaCompressCols<T> {
    /// Inputs.
    pub shard: T,
    pub clk: T,
    pub w_ptr: T,
    pub h_ptr: T,
    pub start: T,
    /// Which cycle within the octet we are currently processing.
    pub octet: [T; 8],
    /// This will specify which octet we are currently processing. The
    /// first octet is for initialize. The next eight octets are for
    /// compress. The last octet is for finalize.
    pub octet_num: [T; 10],
    pub mem: MemoryReadWriteCols<T>,
    pub mem_addr: T,
    pub a: Word<T>,
    pub b: Word<T>,
    pub c: Word<T>,
    pub d: Word<T>,
    pub e: Word<T>,
    pub f: Word<T>,
    pub g: Word<T>,
    pub h: Word<T>,
    pub e_rr_6: FixedRotateRightOperation<T>,
    pub e_rr_11: FixedRotateRightOperation<T>,
    pub e_rr_25: FixedRotateRightOperation<T>,
    pub s1_intermediate: XorOperation<T>,
    /// `S1 := (e rightrotate 6) xor (e rightrotate 11) xor (e rightrotate 25)`.
    pub s1: XorOperation<T>,
    pub e_and_f: AndOperation<T>,
    pub e_not: NotOperation<T>,
    pub e_not_and_g: AndOperation<T>,
    /// `ch := (e and f) xor ((not e) and g)`.
    pub ch: XorOperation<T>,
    /// `temp1 := h + S1 + ch + k[i] + w[i]`.
    pub temp1: Add5Operation<T>,
    pub a_rr_2: FixedRotateRightOperation<T>,
    pub a_rr_13: FixedRotateRightOperation<T>,
    pub a_rr_22: FixedRotateRightOperation<T>,
    pub s0_intermediate: XorOperation<T>,
    /// `S0 := (a rightrotate 2) xor (a rightrotate 13) xor (a rightrotate 22)`.
    pub s0: XorOperation<T>,
    pub a_and_b: AndOperation<T>,
    pub a_and_c: AndOperation<T>,
    pub b_and_c: AndOperation<T>,
    pub maj_intermediate: XorOperation<T>,
    /// `maj := (a and b) xor (a and c) xor (b and c)`.
    pub maj: XorOperation<T>,
    /// `temp2 := S0 + maj`.
    pub temp2: AddOperation<T>,
    /// The next value of `e` is `d + temp1`.
    pub d_add_temp1: AddOperation<T>,
    /// The next value of `a` is `temp1 + temp2`.
    pub temp1_add_temp2: AddOperation<T>,
    /// During finalize, this is one of a, b, c, ..., or h.
    pub finalized_operand: Word<T>,
    pub finalize_add: AddOperation<T>,
    pub is_compression: T,
    pub is_real: T,
}

} // verus!
