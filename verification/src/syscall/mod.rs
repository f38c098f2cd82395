//! Calls out of the instruction set: the handlers that the engine
//! dispatches `ECALL` to.

pub mod commit;
pub mod precompiles;

use vstd::prelude::*;

verus! {

/// The calls that the machine knows.
#[allow(non_camel_case_types)]
#[derive(Clone, Copy, Debug, PartialEq, Eq, Structural)]
pub enum SyscallCode {
    /// Stops the program.
    HALT,
    /// Writes bytes of memory to a stream.
    WRITE,
    /// Reads up to four bytes of the input into a word.
    LWA,
    /// Commits to a word of the digest of the public values.
    COMMIT,
    /// Extends a SHA-256 message schedule.
    SHA_EXTEND,
    /// Compresses a SHA-256 block.
    SHA_COMPRESS,
    /// Decompresses a point of ed25519.
    ED_DECOMPRESS,
    /// Decompresses a point of secp256k1.
    SECP256K1_DECOMPRESS,
    /// Runs the inner loop of the BLAKE3 compression.
    BLAKE3_COMPRESS_INNER,
}

impl SyscallCode {
    /// The number that a program puts into the register `t0` to make the
    /// call.
    pub open spec fn id_spec(self) -> u32 {
        match self {
            SyscallCode::HALT => 0x00,
            SyscallCode::WRITE => 0x02,
            SyscallCode::LWA => 0xF1,
            SyscallCode::COMMIT => 0x10,
            SyscallCode::SHA_EXTEND => 0x0030_0105,
            SyscallCode::SHA_COMPRESS => 0x0001_0106,
            SyscallCode::ED_DECOMPRESS => 0x0000_0108,
            SyscallCode::SECP256K1_DECOMPRESS => 0x0000_010C,
            SyscallCode::BLAKE3_COMPRESS_INNER => 0x0038_010D,
        }
    }

    pub fn syscall_id(self) -> (r: u32)
        ensures
            r == self.id_spec(),
    {
        match self {
            SyscallCode::HALT => 0x00,
            SyscallCode::WRITE => 0x02,
            SyscallCode::LWA => 0xF1,
            SyscallCode::COMMIT => 0x10,
            SyscallCode::SHA_EXTEND => 0x0030_0105,
            SyscallCode::SHA_COMPRESS => 0x0001_0106,
            SyscallCode::ED_DECOMPRESS => 0x0000_0108,
            SyscallCode::SECP256K1_DECOMPRESS => 0x0000_010C,
            SyscallCode::BLAKE3_COMPRESS_INNER => 0x0038_010D,
        }
    }

    /// The call that a number stands for, if any.
    pub open spec fn of(value: u32) -> Option<SyscallCode> {
        if value == 0x00 {
            Some(SyscallCode::HALT)
        } else if value == 0x02 {
            Some(SyscallCode::WRITE)
        } else if value == 0xF1 {
            Some(SyscallCode::LWA)
        } else if value == 0x10 {
            Some(SyscallCode::COMMIT)
        } else if value == 0x0030_0105 {
            Some(SyscallCode::SHA_EXTEND)
        } else if value == 0x0001_0106 {
            Some(SyscallCode::SHA_COMPRESS)
        } else if value == 0x0000_0108 {
            Some(SyscallCode::ED_DECOMPRESS)
        } else if value == 0x0000_010C {
            Some(SyscallCode::SECP256K1_DECOMPRESS)
        } else if value == 0x0038_010D {
            Some(SyscallCode::BLAKE3_COMPRESS_INNER)
        } else {
            None
        }
    }

    /// The call that a number stands for, if any.
    pub fn from_u32(value: u32) -> (r: Option<SyscallCode>)
        ensures
            r == Self::of(value),
            r matches Some(c) ==> c.id_spec() == value,
    {
        if value == 0x00 {
            Some(SyscallCode::HALT)
        } else if value == 0x02 {
            Some(SyscallCode::WRITE)
        } else if value == 0xF1 {
            Some(SyscallCode::LWA)
        } else if value == 0x10 {
            Some(SyscallCode::COMMIT)
        } else if value == 0x0030_0105 {
            Some(SyscallCode::SHA_EXTEND)
        } else if value == 0x0001_0106 {
            Some(SyscallCode::SHA_COMPRESS)
        } else if value == 0x0000_0108 {
            Some(SyscallCode::ED_DECOMPRESS)
        } else if value == 0x0000_010C {
            Some(SyscallCode::SECP256K1_DECOMPRESS)
        } else if value == 0x0038_010D {
            Some(SyscallCode::BLAKE3_COMPRESS_INNER)
        } else {
            None
        }
    }

    /// The clock ticks that the call takes beyond those of its
    /// instruction.
    pub open spec fn extra_cycles(self) -> u32 {
        match self {
            SyscallCode::SHA_EXTEND => 960,
            SyscallCode::SHA_COMPRESS => 320,
            SyscallCode::BLAKE3_COMPRESS_INNER => 224,
            SyscallCode::SECP256K1_DECOMPRESS => 4,
            _ => 0,
        }
    }

    /// The clock ticks that the call takes beyond those of its
    /// instruction.
    pub fn num_extra_cycles(self) -> (r: u32)
        ensures
            r == self.extra_cycles(),
    {
        match self {
            SyscallCode::SHA_EXTEND => 960,
            SyscallCode::SHA_COMPRESS => 320,
            SyscallCode::BLAKE3_COMPRESS_INNER => 224,
            SyscallCode::SECP256K1_DECOMPRESS => 4,
            _ => 0,
        }
    }
}

} // verus!
