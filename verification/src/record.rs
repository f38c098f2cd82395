//! The execution record of one shard: the events of the shard, bucket by
//! bucket, and the table that counts the lookups of byte operations.

use crate::bytes::{
    lemma_key_injective, lemma_occurrences_concat, occurrences, word_range_checks,
    ByteLookupEvent, ByteOpcode,
};
use crate::events::{
    AluEvent, Blake3CompressInnerEvent, CpuEvent, MemoryBoundaryEvent, ShaCompressEvent,
    ShaExtendEvent,
};
use crate::program::Program;
use crate::syscall::precompiles::edwards::ed_decompress::EdDecompressEvent;
use crate::syscall::precompiles::k256::decompress::K256DecompressEvent;
use crate::word::{bytes_view, le_bytes, u32_to_le_bytes};
use std::collections::HashMap;
use std::sync::Arc;
use vstd::prelude::*;

verus! {

/// The events of one shard.
pub struct ExecutionRecord {
    /// The number of the shard.
    pub index: u32,
    /// The program that ran.
    pub program: Arc<Program>,
    /// One event per step of the machine.
    pub cpu_events: Vec<CpuEvent>,
    pub add_events: Vec<AluEvent>,
    pub sub_events: Vec<AluEvent>,
    pub mul_events: Vec<AluEvent>,
    pub bitwise_events: Vec<AluEvent>,
    pub shift_events: Vec<AluEvent>,
    pub divrem_events: Vec<AluEvent>,
    pub lt_events: Vec<AluEvent>,
    /// How often each byte operation was looked up, under the key of the
    /// lookup.
    pub byte_lookups: HashMap<u64, usize>,
    pub sha_extend_events: Vec<ShaExtendEvent>,
    pub sha_compress_events: Vec<ShaCompressEvent>,
    pub blake3_compress_inner_events: Vec<Blake3CompressInnerEvent>,
    pub ed_decompress_events: Vec<EdDecompressEvent>,
    pub k256_decompress_events: Vec<K256DecompressEvent>,
    /// The state of each address touched in the shard, before the shard.
    pub memory_initialize_events: Vec<MemoryBoundaryEvent>,
    /// The state of each address touched in the shard, after the shard.
    pub memory_finalize_events: Vec<MemoryBoundaryEvent>,
    /// The digest of the public values that the program committed to.
    pub public_values_digest: [u32; 8],
}

impl ExecutionRecord {
    /// An empty record for shard `index` of `program`.
    pub fn new(index: u32, program: Arc<Program>) -> (r: ExecutionRecord)
        ensures
            r.index == index,
            r.program == program,
            r.is_empty(),
            forall|e: ByteLookupEvent| r.byte_count(e) == 0,
            forall|i: int| 0 <= i < 8 ==> r.public_values_digest[i] == 0,
    {
        ExecutionRecord {
            index,
            program,
            cpu_events: Vec::new(),
            add_events: Vec::new(),
            sub_events: Vec::new(),
            mul_events: Vec::new(),
            bitwise_events: Vec::new(),
            shift_events: Vec::new(),
            divrem_events: Vec::new(),
            lt_events: Vec::new(),
            byte_lookups: HashMap::new(),
            sha_extend_events: Vec::new(),
            sha_compress_events: Vec::new(),
            blake3_compress_inner_events: Vec::new(),
            ed_decompress_events: Vec::new(),
            k256_decompress_events: Vec::new(),
            memory_initialize_events: Vec::new(),
            memory_finalize_events: Vec::new(),
            public_values_digest: [0u32; 8],
        }
    }

    /// No bucket holds an event.
    pub open spec fn is_empty(&self) -> bool {
        &&& self.cpu_events@.len() == 0
        &&& self.add_events@.len() == 0
        &&& self.sub_events@.len() == 0
        &&& self.mul_events@.len() == 0
        &&& self.bitwise_events@.len() == 0
        &&& self.shift_events@.len() == 0
        &&& self.divrem_events@.len() == 0
        &&& self.lt_events@.len() == 0
        &&& self.sha_extend_events@.len() == 0
        &&& self.sha_compress_events@.len() == 0
        &&& self.blake3_compress_inner_events@.len() == 0
        &&& self.ed_decompress_events@.len() == 0
        &&& self.k256_decompress_events@.len() == 0
        &&& self.memory_initialize_events@.len() == 0
        &&& self.memory_finalize_events@.len() == 0
    }

    /// How often the lookup `e` has been counted.
    pub open spec fn byte_count(&self, e: ByteLookupEvent) -> nat {
        if self.byte_lookups@.contains_key(e.key_spec() as u64) {
            self.byte_lookups@[e.key_spec() as u64] as nat
        } else {
            0
        }
    }

    /// Every count can grow by `n` without leaving the range of a count.
    pub open spec fn has_room(&self, n: nat) -> bool {
        forall|e: ByteLookupEvent| #[trigger] self.byte_count(e) + n <= usize::MAX
    }

    /// Everything but the lookup table is as in `other`.
    pub open spec fn same_events(&self, other: &ExecutionRecord) -> bool {
        &&& self.index == other.index
        &&& self.program == other.program
        &&& self.cpu_events == other.cpu_events
        &&& self.add_events == other.add_events
        &&& self.sub_events == other.sub_events
        &&& self.mul_events == other.mul_events
        &&& self.bitwise_events == other.bitwise_events
        &&& self.shift_events == other.shift_events
        &&& self.divrem_events == other.divrem_events
        &&& self.lt_events == other.lt_events
        &&& self.sha_extend_events == other.sha_extend_events
        &&& self.sha_compress_events == other.sha_compress_events
        &&& self.blake3_compress_inner_events == other.blake3_compress_inner_events
        &&& self.ed_decompress_events == other.ed_decompress_events
        &&& self.k256_decompress_events == other.k256_decompress_events
        &&& self.memory_initialize_events == other.memory_initialize_events
        &&& self.memory_finalize_events == other.memory_finalize_events
        &&& self.public_values_digest == other.public_values_digest
    }

    /// The counts of `self` are those of `before` and the occurrences in
    /// `added`.
    pub open spec fn counts_grew_by(
        &self,
        before: &ExecutionRecord,
        added: Seq<ByteLookupEvent>,
    ) -> bool {
        forall|e: ByteLookupEvent| #[trigger]
            self.byte_count(e) == before.byte_count(e) + occurrences(added, e)
    }

    /// Counts one more lookup of `event`.
    pub fn add_byte_lookup_event(&mut self, event: ByteLookupEvent)
        requires
            old(self).byte_count(event) < usize::MAX,
        ensures
            final(self).same_events(old(self)),
            final(self).counts_grew_by(old(self), seq![event]),
    {
        let k = event.key();
        let n: usize = match self.byte_lookups.get(&k) {
            Some(c) => *c,
            None => 0,
        };
        self.byte_lookups.insert(k, n + 1);
        proof {
            assert forall|e: ByteLookupEvent| #[trigger]
                self.byte_count(e) == old(self).byte_count(e) + occurrences(seq![event], e) by {
                assert(seq![event].drop_last() =~= Seq::<ByteLookupEvent>::empty());
                assert(occurrences(seq![event].drop_last(), e) == 0);
                if e.key_spec() == event.key_spec() {
                    lemma_key_injective(e, event);
                }
            }
        }
    }

    /// Counts the lookups of `events`.
    pub fn add_byte_lookup_events(&mut self, events: &Vec<ByteLookupEvent>)
        requires
            old(self).has_room(events@.len()),
        ensures
            final(self).same_events(old(self)),
            final(self).counts_grew_by(old(self), events@),
    {
        let mut i: usize = 0;
        while i < events.len()
            invariant
                i <= events@.len(),
                old(self).has_room(events@.len()),
                self.same_events(old(self)),
                self.counts_grew_by(old(self), events@.subrange(0, i as int)),
            decreases events@.len() - i,
        {
            let ghost mid = *self;
            let ghost done = events@.subrange(0, i as int);
            proof {
                lemma_occurrences_bound(done, events@[i as int]);
                assert(old(self).byte_count(events@[i as int]) + events@.len() <= usize::MAX);
            }
            self.add_byte_lookup_event(events[i]);
            proof {
                assert(events@.subrange(0, i + 1) =~= done + seq![events@[i as int]]);
                assert forall|e: ByteLookupEvent| #[trigger]
                    self.byte_count(e) == old(self).byte_count(e) + occurrences(
                        events@.subrange(0, i + 1),
                        e,
                    ) by {
                    lemma_occurrences_concat(done, seq![events@[i as int]], e);
                    assert(self.byte_count(e) == mid.byte_count(e) + occurrences(
                        seq![events@[i as int]],
                        e,
                    ));
                    assert(mid.byte_count(e) == old(self).byte_count(e) + occurrences(done, e));
                }
            }
            i = i + 1;
        }
        assert(events@.subrange(0, i as int) =~= events@);
    }

    /// Counts the check that `b` and `c` are bytes.
    pub fn add_u8_range_check(&mut self, b: u8, c: u8)
        requires
            old(self).byte_count(ByteLookupEvent::range_check(b, c)) < usize::MAX,
        ensures
            final(self).same_events(old(self)),
            final(self).counts_grew_by(old(self), seq![ByteLookupEvent::range_check(b, c)]),
    {
        self.add_byte_lookup_event(ByteLookupEvent::new(ByteOpcode::U8Range, 0, 0, b, c));
    }

    /// Counts the range checks of the four bytes of a word, two at a time.
    pub fn add_u8_range_checks(&mut self, bytes: &[u8; 4])
        requires
            old(self).has_room(2),
        ensures
            final(self).same_events(old(self)),
            final(self).counts_grew_by(old(self), word_range_checks(bytes_view(*bytes))),
    {
        let ghost e0 = ByteLookupEvent::range_check(bytes[0], bytes[1]);
        let ghost e1 = ByteLookupEvent::range_check(bytes[2], bytes[3]);
        assert(old(self).byte_count(e0) + 2 <= usize::MAX);
        self.add_u8_range_check(bytes[0], bytes[1]);
        let ghost mid = *self;
        proof {
            assert(seq![e0].drop_last() =~= Seq::<ByteLookupEvent>::empty());
            assert(old(self).byte_count(e1) + 2 <= usize::MAX);
            lemma_occurrences_bound(seq![e0], e1);
            assert(mid.byte_count(e1) == old(self).byte_count(e1) + occurrences(seq![e0], e1));
        }
        self.add_u8_range_check(bytes[2], bytes[3]);
        proof {
            assert(word_range_checks(bytes_view(*bytes)) =~= seq![e0] + seq![e1]);
            assert forall|e: ByteLookupEvent| #[trigger]
                self.byte_count(e) == old(self).byte_count(e) + occurrences(
                    word_range_checks(bytes_view(*bytes)),
                    e,
                ) by {
                lemma_occurrences_concat(seq![e0], seq![e1], e);
                assert(self.byte_count(e) == mid.byte_count(e) + occurrences(seq![e1], e));
                assert(mid.byte_count(e) == old(self).byte_count(e) + occurrences(seq![e0], e));
            }
        }
    }
}

/// No event occurs more often than the sequence is long.
pub proof fn lemma_occurrences_bound(es: Seq<ByteLookupEvent>, e: ByteLookupEvent)
    ensures
        occurrences(es, e) <= es.len(),
    decreases es.len(),
{
    if es.len() > 0 {
        lemma_occurrences_bound(es.drop_last(), e);
    }
}

impl Default for ExecutionRecord {
    fn default() -> (r: ExecutionRecord)
        ensures
            r.index == 0,
            r.is_empty(),
            r.program.instructions@.len() == 0,
            forall|e: ByteLookupEvent| r.byte_count(e) == 0,
    {
        ExecutionRecord::new(0, Arc::new(Program::new(Vec::new(), 0, 0)))
    }
}

} // verus!
