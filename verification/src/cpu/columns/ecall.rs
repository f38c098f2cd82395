//! The flags of a call.

use crate::field::{fsub, is_inverse, Felt, P};
use crate::operations::is_zero::IsZeroOperation;
use vstd::prelude::*;

verus! {

/// The number of columns of `EcallCols`.
pub const NUM_ECALL_COLS: usize = 6;

/// The code of the call that lets the program run unconstrained.
pub const ENTER_UNCONSTRAINED: u32 = 0x03;

/// The code of the call that asks for the length of the next hint.
pub const HINT_LEN: u32 = 0xF0;

/// The code of the call that stops the program.
pub const HALT: u32 = 0x00;

#[derive(Debug, Clone, Copy)]
pub struct EcallCols<T> {
    /// Whether the current ecall is ENTER_UNCONSTRAINED.
    pub is_enter_unconstrained: IsZeroOperation<T>,
    /// Whether the current ecall is HINT_LEN.
    pub is_hint_len: IsZeroOperation<T>,
    /// Whether the current ecall is HALT.
    pub is_halt: IsZeroOperation<T>,
}

/// One where the two codes are the same, zero where they are not.
pub open spec fn same_code(id: u32, code: u32) -> int {
    if id as int % (P as int) == code {
        1
    } else {
        0
    }
}

impl EcallCols<Felt> {
    /// The flags for the call with the code `syscall_id`: each compares the
    /// code, as a field element, with one of the three codes.
    pub fn populate(syscall_id: u32) -> (r: EcallCols<Felt>)
        ensures
            r.is_enter_unconstrained.result@ == same_code(syscall_id, ENTER_UNCONSTRAINED),
            r.is_hint_len.result@ == same_code(syscall_id, HINT_LEN),
            r.is_halt.result@ == same_code(syscall_id, HALT),
    {
        let id = Felt::from_wrapped_u32(syscall_id);
        id.check_canonical();
        EcallCols {
            is_enter_unconstrained: IsZeroOperation::populate(
                id.sub(Felt::from_canonical_u32(ENTER_UNCONSTRAINED)),
            ),
            is_hint_len: IsZeroOperation::populate(id.sub(Felt::from_canonical_u32(HINT_LEN))),
            is_halt: IsZeroOperation::populate(id.sub(Felt::from_canonical_u32(HALT))),
        }
    }
}

} // verus!
