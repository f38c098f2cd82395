//! The witness of an access to memory.

use crate::air::{felts_view, lemma_felts_view_push};
use crate::bytes::{ByteLookupEvent, ByteOpcode};
use crate::events::{MemoryReadRecord, MemoryWriteRecord};
use crate::field::{Felt, P};
use crate::memory::columns::NUM_MEMORY_ACCESS_COLS;
use crate::operations::add::push_word;
use crate::word::le_bytes;
use vstd::prelude::*;

verus! {

/// One access, as the columns see it: the word after and before, and the
/// shard and clock of this access and of the one before.
pub struct Access {
    pub value: u32,
    pub shard: u32,
    pub timestamp: u32,
    pub prev_value: u32,
    pub prev_shard: u32,
    pub prev_timestamp: u32,
}

/// A read, as an access: the word before is the word read.
pub open spec fn read_access(r: MemoryReadRecord) -> Access {
    Access {
        value: r.value,
        shard: r.shard,
        timestamp: r.timestamp,
        prev_value: r.value,
        prev_shard: r.prev_shard,
        prev_timestamp: r.prev_timestamp,
    }
}

/// A write, as an access.
pub open spec fn write_access(r: MemoryWriteRecord) -> Access {
    Access {
        value: r.value,
        shard: r.shard,
        timestamp: r.timestamp,
        prev_value: r.prev_value,
        prev_shard: r.prev_shard,
        prev_timestamp: r.prev_timestamp,
    }
}

/// The difference, less one and on 32 bits, of the times that are
/// compared: the clocks where the shards are the same, the shards where
/// they are not.
pub open spec fn time_difference(a: Access) -> int {
    if a.prev_shard == a.shard {
        (a.timestamp - a.prev_timestamp - 1) % 0x1_0000_0000
    } else {
        (a.shard - a.prev_shard - 1) % 0x1_0000_0000
    }
}

/// The columns of an access.
pub open spec fn access_cols(a: Access) -> Seq<int> {
    le_bytes(a.prev_value as int) + le_bytes(a.value as int) + seq![
        a.prev_shard as int,
        a.prev_timestamp as int,
        if a.prev_shard == a.shard {
            1int
        } else {
            0int
        },
        time_difference(a) % 65536,
        (time_difference(a) / 65536) % 256,
    ]
}

/// The lookups of an access: the range checks of the two limbs of the
/// difference of the times.
pub open spec fn access_lookups(a: Access) -> Seq<ByteLookupEvent> {
    seq![
        ByteLookupEvent {
            opcode: ByteOpcode::U16Range,
            a1: (time_difference(a) % 65536) as u16,
            a2: 0,
            b: 0,
            c: 0,
        },
        ByteLookupEvent {
            opcode: ByteOpcode::U8Range,
            a1: 0,
            a2: 0,
            b: 0,
            c: ((time_difference(a) / 65536) % 256) as u8,
        },
    ]
}

/// The shard and the clock of the access before are canonical field
/// elements.
pub open spec fn access_fits(a: Access) -> bool {
    a.prev_shard < P && a.prev_timestamp < P
}

/// Appends the columns and the lookups of an access.
pub fn populate_access(row: &mut Vec<Felt>, events: &mut Vec<ByteLookupEvent>, a: &Access)
    requires
        access_fits(*a),
    ensures
        felts_view(final(row)@) == felts_view(old(row)@) + access_cols(*a),
        final(row)@.len() == old(row)@.len() + NUM_MEMORY_ACCESS_COLS,
        final(events)@ == old(events)@ + access_lookups(*a),
{
    push_word(row, a.prev_value);
    push_word(row, a.value);
    let ghost r1 = felts_view(row@);

    // Fill columns used for verifying current memory access time value is
    // greater than previous's.
    let use_clk_comparison = a.prev_shard == a.shard;
    let prev_time_value = if use_clk_comparison {
        a.prev_timestamp
    } else {
        a.prev_shard
    };
    let current_time_value = if use_clk_comparison {
        a.timestamp
    } else {
        a.shard
    };
    let diff_minus_one = current_time_value.wrapping_sub(prev_time_value).wrapping_sub(1);
    assert(diff_minus_one == time_difference(*a));
    let diff_16bit_limb: u32 = diff_minus_one % 65536;
    let diff_8bit_limb: u32 = (diff_minus_one / 65536) % 256;
    row.push(Felt::from_canonical_u32(a.prev_shard));
    row.push(Felt::from_canonical_u32(a.prev_timestamp));
    row.push(Felt::from_bool(use_clk_comparison));
    row.push(Felt::from_canonical_u32(diff_16bit_limb));
    row.push(Felt::from_canonical_u32(diff_8bit_limb));

    // Add a byte table lookup with the 16Range op.
    events.push(ByteLookupEvent::new(ByteOpcode::U16Range, diff_16bit_limb as u16, 0, 0, 0));

    // Add a byte table lookup with the U8Range op.
    events.push(ByteLookupEvent::new(ByteOpcode::U8Range, 0, 0, 0, diff_8bit_limb as u8));
    proof {
        assert(felts_view(row@) =~= r1 + seq![
            a.prev_shard as int,
            a.prev_timestamp as int,
            if a.prev_shard == a.shard {
                1int
            } else {
                0int
            },
            time_difference(*a) % 65536,
            (time_difference(*a) / 65536) % 256,
        ]);
        assert(felts_view(row@) =~= felts_view(old(row)@) + access_cols(*a));
        assert(events@ =~= old(events)@ + access_lookups(*a));
    }
}

/// Appends the columns and the lookups of a read.
pub fn populate_read(
    row: &mut Vec<Felt>,
    events: &mut Vec<ByteLookupEvent>,
    record: &MemoryReadRecord,
)
    requires
        access_fits(read_access(*record)),
    ensures
        felts_view(final(row)@) == felts_view(old(row)@) + access_cols(read_access(*record)),
        final(row)@.len() == old(row)@.len() + NUM_MEMORY_ACCESS_COLS,
        final(events)@ == old(events)@ + access_lookups(read_access(*record)),
{
    let a = Access {
        value: record.value,
        shard: record.shard,
        timestamp: record.timestamp,
        prev_value: record.value,
        prev_shard: record.prev_shard,
        prev_timestamp: record.prev_timestamp,
    };
    populate_access(row, events, &a);
}

/// Appends the columns and the lookups of a write.
pub fn populate_write(
    row: &mut Vec<Felt>,
    events: &mut Vec<ByteLookupEvent>,
    record: &MemoryWriteRecord,
)
    requires
        access_fits(write_access(*record)),
    ensures
        felts_view(final(row)@) == felts_view(old(row)@) + access_cols(write_access(*record)),
        final(row)@.len() == old(row)@.len() + NUM_MEMORY_ACCESS_COLS,
        final(events)@ == old(events)@ + access_lookups(write_access(*record)),
{
    let a = Access {
        value: record.value,
        shard: record.shard,
        timestamp: record.timestamp,
        prev_value: record.prev_value,
        prev_shard: record.prev_shard,
        prev_timestamp: record.prev_timestamp,
    };
    populate_access(row, events, &a);
}

/// The number of columns of `MemoryReadCols`.
pub const NUM_MEMORY_READ_COLS: usize = 9;

/// The columns of a read that holds the word once.
pub open spec fn read_cols(a: Access) -> Seq<int> {
    le_bytes(a.value as int) + seq![
        a.prev_shard as int,
        a.prev_timestamp as int,
        if a.prev_shard == a.shard {
            1int
        } else {
            0int
        },
        time_difference(a) % 65536,
        (time_difference(a) / 65536) % 256,
    ]
}

/// Appends the columns of a read that holds the word once, and the
/// lookups of the read.
pub fn populate_read_only(
    row: &mut Vec<Felt>,
    events: &mut Vec<ByteLookupEvent>,
    record: &MemoryReadRecord,
)
    requires
        access_fits(read_access(*record)),
    ensures
        felts_view(final(row)@) == felts_view(old(row)@) + read_cols(read_access(*record)),
        final(row)@.len() == old(row)@.len() + NUM_MEMORY_READ_COLS,
        final(events)@ == old(events)@ + access_lookups(read_access(*record)),
{
    let mut full: Vec<Felt> = Vec::new();
    populate_read(&mut full, events, record);
    let ghost a = read_access(*record);
    assert(felts_view(full@) =~= access_cols(a));
    let mut i: usize = 4;
    while i < 13
        invariant
            4 <= i <= 13,
            full@.len() == 13,
            row@.len() == old(row)@.len() + i - 4,
            felts_view(row@) == felts_view(old(row)@) + felts_view(full@).subrange(4, i as int),
        decreases 13 - i,
    {
        let ghost before = row@;
        row.push(full[i]);
        i = i + 1;
        proof {
            lemma_felts_view_push(before, full@[i - 1]);
            assert(felts_view(row@) =~= felts_view(old(row)@) + felts_view(full@).subrange(
                4,
                i as int,
            ));
        }
    }
    assert(felts_view(full@).subrange(4, 13) =~= read_cols(a));
}

/// The columns of the first `n` writes, one after the other.
pub open spec fn writes_cols(records: Seq<MemoryWriteRecord>, n: nat) -> Seq<int>
    decreases n,
{
    if n == 0 {
        Seq::empty()
    } else {
        writes_cols(records, (n - 1) as nat) + access_cols(write_access(records[n - 1]))
    }
}

/// The columns of the first `n` reads, one after the other.
pub open spec fn reads_cols(records: Seq<MemoryReadRecord>, n: nat) -> Seq<int>
    decreases n,
{
    if n == 0 {
        Seq::empty()
    } else {
        reads_cols(records, (n - 1) as nat) + read_cols(read_access(records[n - 1]))
    }
}

} // verus!
