//! The columns of the chips of memory.

use vstd::prelude::*;

verus! {

/// The number of columns of `MemoryInitCols`.
pub const NUM_MEMORY_INIT_COLS: usize = 8;

/// One address at a boundary of a shard: the shard and the clock of its
/// last access, the address, the word that it holds, and whether the row
/// is real.
#[derive(Debug, Clone)]
pub struct MemoryInitCols<T> {
    pub shard: T,
    pub timestamp: T,
    pub addr: T,
    pub value: crate::word::Word<T>,
    pub is_real: T,
}


/// The number of columns of `MemoryReadWriteCols`.
pub const NUM_MEMORY_ACCESS_COLS: usize = 13;

/// The columns of one access to memory: the word that the address holds
/// after the access, the shard and the clock of the access before, and the
/// witness that the access is later than the one before.
#[derive(Debug, Clone, Copy)]
pub struct MemoryAccessCols<T> {
    /// The value of the memory access.
    pub value: crate::word::Word<T>,
    /// The previous shard and timestamp that this memory access is being
    /// read from.
    pub prev_shard: T,
    pub prev_clk: T,
    /// Whether the clocks are compared; they are where the shards are the
    /// same, and the shards are compared where they are not.
    pub compare_clk: T,
    /// The difference of the times less one, in a limb of sixteen bits and
    /// a limb of eight.
    pub diff_16bit_limb: T,
    pub diff_8bit_limb: T,
}

/// The columns of a read.
#[derive(Debug, Clone, Copy)]
pub struct MemoryReadCols<T> {
    pub access: MemoryAccessCols<T>,
}

/// The columns of a write.
#[derive(Debug, Clone, Copy)]
pub struct MemoryWriteCols<T> {
    pub prev_value: crate::word::Word<T>,
    pub access: MemoryAccessCols<T>,
}

/// The columns of an access that may be a read or a write.
#[derive(Debug, Clone, Copy)]
pub struct MemoryReadWriteCols<T> {
    pub prev_value: crate::word::Word<T>,
    pub access: MemoryAccessCols<T>,
}

} // verus!
