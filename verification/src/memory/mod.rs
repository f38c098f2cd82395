//! The chips that bookend a shard: for every address touched in the shard,
//! one row with what the address held before the shard, and one row with
//! what it holds after.

pub mod air;
pub mod columns;
pub mod global;
pub mod trace;

pub use columns::{
    MemoryAccessCols, MemoryInitCols, MemoryReadCols, MemoryReadWriteCols, MemoryWriteCols,
};
pub use global::{MemoryChip, MemoryChipType};
