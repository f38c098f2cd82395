//! The memory of the machine: a sparse map from addresses to words, each
//! with the shard and clock of its last access. The registers live at the
//! addresses below thirty-two.
//!
//! Within a shard the memory remembers which addresses were touched and
//! what they held before, so that the boundary of two shards can be checked
//! address by address.

use crate::events::{MemoryBoundaryEvent, MemoryReadRecord, MemoryRecord, MemoryWriteRecord};
use std::collections::BTreeMap;
use std::collections::HashMap;
use vstd::prelude::*;

verus! {

/// What an address holds that was never accessed.
pub open spec fn untouched(image: Map<u32, u32>, addr: u32) -> MemoryRecord {
    MemoryRecord {
        value: crate::program::Program::image_value(image, addr),
        shard: 0,
        timestamp: 0,
    }
}

/// The boundary event that states that `addr` holds `entry`.
pub open spec fn boundary(addr: u32, entry: MemoryRecord) -> MemoryBoundaryEvent {
    MemoryBoundaryEvent {
        addr,
        value: entry.value,
        shard: entry.shard,
        timestamp: entry.timestamp,
    }
}

/// A read of the word at `addr` in the shard `shard` at the time `t`:
/// what every address holds after it, and the record of the read.
pub open spec fn timed_read(es: Map<u32, MemoryRecord>, addr: u32, shard: u32, t: u32) -> (
    Map<u32, MemoryRecord>,
    MemoryReadRecord,
) {
    (
        es.insert(addr, MemoryRecord { value: es[addr].value, shard, timestamp: t }),
        MemoryReadRecord {
            value: es[addr].value,
            shard,
            timestamp: t,
            prev_shard: es[addr].shard,
            prev_timestamp: es[addr].timestamp,
        },
    )
}

/// A write of `value` to the word at `addr` in the shard `shard` at the
/// time `t`: what every address holds after it, and the record of the
/// write.
pub open spec fn timed_write(
    es: Map<u32, MemoryRecord>,
    addr: u32,
    value: u32,
    shard: u32,
    t: u32,
) -> (Map<u32, MemoryRecord>, MemoryWriteRecord) {
    (
        es.insert(addr, MemoryRecord { value, shard, timestamp: t }),
        MemoryWriteRecord {
            value,
            shard,
            timestamp: t,
            prev_value: es[addr].value,
            prev_shard: es[addr].shard,
            prev_timestamp: es[addr].timestamp,
        },
    )
}

/// Reads of the `n` words from `addr` on, one after the other, all in
/// the shard `shard` at the time `t`: what every address holds after them,
/// and the records of the reads.
pub open spec fn timed_reads(es: Map<u32, MemoryRecord>, addr: u32, shard: u32, t: u32, n: nat) -> (
    Map<u32, MemoryRecord>,
    Seq<MemoryReadRecord>,
)
    decreases n,
{
    if n == 0 {
        (es, Seq::empty())
    } else {
        let before = timed_reads(es, addr, shard, t, (n - 1) as nat);
        let here = timed_read(before.0, (addr + 4 * (n - 1)) as u32, shard, t);
        (here.0, before.1.push(here.1))
    }
}

/// Writes of the first `n` of `words` to the words from `addr` on, one
/// after the other, all in the shard `shard` at the time `t`: what every
/// address holds after them, and the records of the writes.
pub open spec fn timed_writes(
    es: Map<u32, MemoryRecord>,
    addr: u32,
    words: Seq<u32>,
    shard: u32,
    t: u32,
    n: nat,
) -> (Map<u32, MemoryRecord>, Seq<MemoryWriteRecord>)
    decreases n,
{
    if n == 0 {
        (es, Seq::empty())
    } else {
        let before = timed_writes(es, addr, words, shard, t, (n - 1) as nat);
        let here = timed_write(before.0, (addr + 4 * (n - 1)) as u32, words[n - 1], shard, t);
        (here.0, before.1.push(here.1))
    }
}

/// Reads of the `n` words from `addr` on, one after the other, in the
/// shard `shard`; the first at the time `t`, each four ticks after the one
/// before: what every address holds after them, and the records of the
/// reads.
pub open spec fn stepped_reads(
    es: Map<u32, MemoryRecord>,
    addr: u32,
    shard: u32,
    t: u32,
    n: nat,
) -> (Map<u32, MemoryRecord>, Seq<MemoryReadRecord>)
    decreases n,
{
    if n == 0 {
        (es, Seq::empty())
    } else {
        let before = stepped_reads(es, addr, shard, t, (n - 1) as nat);
        let here = timed_read(
            before.0,
            (addr + 4 * (n - 1)) as u32,
            shard,
            (t + 4 * (n - 1)) as u32,
        );
        (here.0, before.1.push(here.1))
    }
}

/// Writes of the first `n` of `words` to the words from `addr` on, one
/// after the other, in the shard `shard`; the first at the time `t`, each
/// four ticks after the one before: what every address holds after them,
/// and the records of the writes.
pub open spec fn stepped_writes(
    es: Map<u32, MemoryRecord>,
    addr: u32,
    words: Seq<u32>,
    shard: u32,
    t: u32,
    n: nat,
) -> (Map<u32, MemoryRecord>, Seq<MemoryWriteRecord>)
    decreases n,
{
    if n == 0 {
        (es, Seq::empty())
    } else {
        let before = stepped_writes(es, addr, words, shard, t, (n - 1) as nat);
        let here = timed_write(
            before.0,
            (addr + 4 * (n - 1)) as u32,
            words[n - 1],
            shard,
            (t + 4 * (n - 1)) as u32,
        );
        (here.0, before.1.push(here.1))
    }
}

/// One access to memory.
pub enum MemOp {
    Read(u32),
    Write(u32, u32),
}

/// The values of memory after one access: a write changes the word at its
/// address, a read changes nothing.
pub open spec fn apply_op(values: Map<u32, u32>, op: MemOp) -> Map<u32, u32> {
    match op {
        MemOp::Read(_) => values,
        MemOp::Write(addr, v) => values.insert(addr, v),
    }
}

/// The values of memory after a sequence of accesses.
pub open spec fn apply_ops(values: Map<u32, u32>, ops: Seq<MemOp>) -> Map<u32, u32>
    decreases ops.len(),
{
    if ops.len() == 0 {
        values
    } else {
        apply_op(apply_ops(values, ops.drop_last()), ops.last())
    }
}

/// The value of the last write to `addr` among `ops`, if there is one.
pub open spec fn last_write(ops: Seq<MemOp>, addr: u32) -> Option<u32>
    decreases ops.len(),
{
    if ops.len() == 0 {
        None
    } else {
        match ops.last() {
            MemOp::Write(a, v) if a == addr => Some(v),
            _ => last_write(ops.drop_last(), addr),
        }
    }
}

/// Memory consistency: after any interleaving of reads and writes, an
/// address holds the value of the most recent write to it, or what it held
/// at first where nothing was written to it.
pub proof fn lemma_read_sees_last_write(init: Map<u32, u32>, ops: Seq<MemOp>, addr: u32)
    requires
        init.dom().contains(addr),
    ensures
        apply_ops(init, ops).dom().contains(addr),
        apply_ops(init, ops)[addr] == (match last_write(ops, addr) {
            Some(v) => v,
            None => init[addr],
        }),
    decreases ops.len(),
{
    if ops.len() > 0 {
        lemma_read_sees_last_write(init, ops.drop_last(), addr);
    }
}

/// The memory of the machine.
pub struct Memory {
    /// What each address holds that was ever accessed.
    pub cells: HashMap<u32, MemoryRecord>,
    /// What the addresses held before the first access: the image of the
    /// program.
    pub image: BTreeMap<u32, u32>,
    /// The number of the current shard; the first is one.
    pub shard: u32,
    /// The addresses touched in the current shard, in the order of their
    /// first access.
    pub touched: Vec<u32>,
    /// What each touched address held before the shard, in the same order.
    pub initial: Vec<MemoryBoundaryEvent>,
    /// What every address held when the shard began.
    pub at_start: Ghost<Map<u32, MemoryRecord>>,
}

impl Memory {
    /// What `addr` holds.
    pub open spec fn entry(&self, addr: u32) -> MemoryRecord {
        if self.cells@.contains_key(addr) {
            self.cells@[addr]
        } else {
            untouched(self.image@, addr)
        }
    }

    /// What every address holds, with the time of its last access.
    pub open spec fn entries(&self) -> Map<u32, MemoryRecord> {
        Map::total(|a: u32| self.entry(a))
    }

    /// The word at every address.
    pub closed spec fn values(&self) -> Map<u32, u32> {
        Map::total(|a: u32| self.entry(a).value)
    }

    /// Every address has a word: that of its entry.
    pub proof fn lemma_values(&self, a: u32)
        ensures
            self.values().dom().contains(a),
            self.values()[a] == self.entry(a).value,
    {
    }

    /// What `addr` held when the current shard began.
    pub open spec fn entry_at_start(&self, addr: u32) -> MemoryRecord {
        if self.at_start@.contains_key(addr) {
            self.at_start@[addr]
        } else {
            untouched(self.image@, addr)
        }
    }

    /// The invariant of the memory: no access lies in a later shard; the
    /// touched addresses are those accessed in the current shard, each
    /// once; and what is remembered of each is what it held when the shard
    /// began.
    pub closed spec fn wf(&self) -> bool {
        &&& self.shard >= 1
        &&& forall|a: u32| (#[trigger] self.entry(a)).shard <= self.shard
        &&& self.touched@.len() == self.initial@.len()
        &&& forall|i: int|
            0 <= i < self.touched@.len() ==> (#[trigger] self.initial@[i]) == boundary(
                self.touched@[i],
                self.entry_at_start(self.touched@[i]),
            )
        &&& forall|i: int|
            0 <= i < self.touched@.len() ==> self.entry(#[trigger] self.touched@[i]).shard
                == self.shard
        &&& forall|a: u32|
            (#[trigger] self.entry(a)).shard == self.shard ==> self.touched@.contains(a)
        &&& forall|a: u32|
            (#[trigger] self.entry(a)).shard != self.shard ==> self.entry(a)
                == self.entry_at_start(a)
        &&& forall|a: u32| (#[trigger] self.entry_at_start(a)).shard < self.shard
        &&& self.touched@.no_duplicates()
    }

    /// What the invariant says of the shards: the current shard is the
    /// first or a later one, no entry lies in a later shard, and what the
    /// memory remembers of a touched address is what the address held when
    /// the shard began.
    pub proof fn lemma_wf_facts(&self)
        requires
            self.wf(),
        ensures
            self.shard >= 1,
            forall|a: u32| (#[trigger] self.entry(a)).shard <= self.shard,
            self.touched@.len() == self.initial@.len(),
            forall|i: int|
                0 <= i < self.touched@.len() ==> (#[trigger] self.initial@[i]) == boundary(
                    self.touched@[i],
                    self.entry_at_start(self.touched@[i]),
                ),
            forall|a: u32|
                (#[trigger] self.entry(a)).shard != self.shard ==> self.entry(a)
                    == self.entry_at_start(a),
            self.touched@.no_duplicates(),
    {
    }

    /// A memory that holds `image` and nothing else, at the start of the
    /// first shard.
    pub fn new(image: &BTreeMap<u32, u32>) -> (r: Memory)
        ensures
            r.wf(),
            r.shard == 1,
            r.touched@.len() == 0,
            forall|a: u32|
                r.entry(a) == (MemoryRecord {
                    value: crate::program::Program::image_value(image@, a),
                    shard: 0,
                    timestamp: 0,
                }),
            forall|a: u32|
                #[trigger] r.values()[a] == crate::program::Program::image_value(image@, a),
    {
        let cells: HashMap<u32, MemoryRecord> = HashMap::new();
        let r = Memory {
            cells,
            image: image.clone(),
            shard: 1,
            touched: Vec::new(),
            initial: Vec::new(),
            at_start: Ghost(Map::empty()),
        };
        r
    }

    /// What `addr` holds, without an access.
    pub fn get(&self, addr: u32) -> (r: MemoryRecord)
        ensures
            r == self.entry(addr),
            r.value == self.values()[addr],
    {
        broadcast use vstd::std_specs::btree::group_btree_axioms;

        match self.cells.get(&addr) {
            Some(e) => *e,
            None => match self.image.get(&addr) {
                Some(v) => MemoryRecord { value: *v, shard: 0, timestamp: 0 },
                None => MemoryRecord { value: 0, shard: 0, timestamp: 0 },
            },
        }
    }

    /// Notes that `addr` is accessed: where it is the first access in the
    /// shard, remembers what the address held.
    fn touch(&mut self, addr: u32, timestamp: u32) -> (prev: MemoryRecord)
        requires
            old(self).wf(),
        ensures
            prev == old(self).entry(addr),
            final(self).shard == old(self).shard,
            final(self).at_start == old(self).at_start,
            final(self).image == old(self).image,
            final(self).touched@.len() == final(self).initial@.len(),
            prev.shard == old(self).shard ==> {
                &&& final(self).touched@ == old(self).touched@
                &&& final(self).initial@ == old(self).initial@
            },
            prev.shard != old(self).shard ==> {
                &&& final(self).touched@ == old(self).touched@.push(addr)
                &&& final(self).initial@ == old(self).initial@.push(boundary(addr, prev))
            },
            forall|a: u32|
                a != addr ==> (#[trigger] final(self).entry(a)) == old(self).entry(a),
            final(self).entry(addr) == (MemoryRecord {
                value: prev.value,
                shard: old(self).shard,
                timestamp,
            }),
            final(self).wf(),
    {
        let prev = self.get(addr);
        if prev.shard != self.shard {
            proof {
                assert(!self.touched@.contains(addr)) by {
                    if self.touched@.contains(addr) {
                        let i = choose|i: int|
                            0 <= i < self.touched@.len() && self.touched@[i] == addr;
                        assert(self.entry(self.touched@[i]).shard == self.shard);
                    }
                }
            }
            self.touched.push(addr);
            self.initial.push(
                MemoryBoundaryEvent {
                    addr,
                    value: prev.value,
                    shard: prev.shard,
                    timestamp: prev.timestamp,
                },
            );
        }
        self.cells.insert(addr, MemoryRecord { value: prev.value, shard: self.shard, timestamp });
        proof {
            assert forall|a: u32| a != addr implies (#[trigger] self.entry(a)) == old(self).entry(
                a,
            ) by {}
            assert forall|i: int| 0 <= i < self.touched@.len() implies self.entry(
                #[trigger] self.touched@[i],
            ).shard == self.shard by {
                if i < old(self).touched@.len() {
                    assert(self.touched@[i] == old(self).touched@[i]);
                    assert(old(self).entry(old(self).touched@[i]).shard == old(self).shard);
                }
            }
            assert forall|a: u32| (#[trigger] self.entry(a)).shard == self.shard implies self.touched@.contains(
                a,
            ) by {
                if a == addr {
                    if prev.shard != old(self).shard {
                        assert(self.touched@[old(self).touched@.len() as int] == addr);
                    } else {
                        assert(old(self).touched@.contains(addr));
                    }
                } else {
                    assert(old(self).entry(a).shard == old(self).shard);
                    assert(old(self).touched@.contains(a));
                    let i = choose|i: int|
                        0 <= i < old(self).touched@.len() && old(self).touched@[i] == a;
                    assert(self.touched@[i] == a);
                }
            }
            assert forall|i: int| 0 <= i < self.touched@.len() implies (
            #[trigger] self.initial@[i]) == boundary(
                self.touched@[i],
                self.entry_at_start(self.touched@[i]),
            ) by {
                if i < old(self).touched@.len() {
                    assert(self.initial@[i] == old(self).initial@[i]);
                } else {
                    assert(old(self).entry(addr) == old(self).entry_at_start(addr));
                }
            }
            assert forall|a: u32| (#[trigger] self.entry(a)).shard != self.shard implies self.entry(
                a,
            ) == self.entry_at_start(a) by {
                assert(old(self).entry(a).shard != old(self).shard);
            }
            assert forall|a: u32| (#[trigger] self.entry(a)).shard <= self.shard by {
                assert(old(self).entry(a).shard <= old(self).shard);
            }
            assert forall|a: u32| (#[trigger] self.entry_at_start(a)).shard < self.shard by {
                assert(old(self).entry_at_start(a).shard < old(self).shard);
            }
        }
        prev
    }

    /// Reads the word at `addr`, at time `timestamp` of the current shard.
    pub fn read(&mut self, addr: u32, timestamp: u32) -> (r: MemoryReadRecord)
        requires
            old(self).wf(),
        ensures
            final(self).wf(),
            final(self).values() == apply_op(old(self).values(), MemOp::Read(addr)),
            r.value == old(self).values()[addr],
            r == (MemoryReadRecord {
                value: old(self).entry(addr).value,
                shard: old(self).shard,
                timestamp,
                prev_shard: old(self).entry(addr).shard,
                prev_timestamp: old(self).entry(addr).timestamp,
            }),
            final(self).shard == old(self).shard,
            final(self).at_start == old(self).at_start,
            final(self).image == old(self).image,
            forall|a: u32|
                a != addr ==> (#[trigger] final(self).entry(a)) == old(self).entry(a),
            final(self).entry(addr) == (MemoryRecord {
                value: r.value,
                shard: old(self).shard,
                timestamp,
            }),
            old(self).initial@.is_prefix_of(final(self).initial@),
            old(self).touched@.is_prefix_of(final(self).touched@),
    {
        let prev = self.touch(addr, timestamp);
        proof {
            assert(self.values() =~= old(self).values());
        }
        MemoryReadRecord {
            value: prev.value,
            shard: self.shard,
            timestamp,
            prev_shard: prev.shard,
            prev_timestamp: prev.timestamp,
        }
    }

    /// Writes `value` to the word at `addr`, at time `timestamp` of the
    /// current shard.
    pub fn write(&mut self, addr: u32, value: u32, timestamp: u32) -> (r: MemoryWriteRecord)
        requires
            old(self).wf(),
        ensures
            final(self).wf(),
            final(self).values() == apply_op(old(self).values(), MemOp::Write(addr, value)),
            r.prev_value == old(self).values()[addr],
            r == (MemoryWriteRecord {
                value,
                shard: old(self).shard,
                timestamp,
                prev_value: old(self).entry(addr).value,
                prev_shard: old(self).entry(addr).shard,
                prev_timestamp: old(self).entry(addr).timestamp,
            }),
            final(self).shard == old(self).shard,
            final(self).at_start == old(self).at_start,
            final(self).image == old(self).image,
            forall|a: u32|
                a != addr ==> (#[trigger] final(self).entry(a)) == old(self).entry(a),
            final(self).entry(addr) == (MemoryRecord { value, shard: old(self).shard, timestamp }),
            old(self).initial@.is_prefix_of(final(self).initial@),
            old(self).touched@.is_prefix_of(final(self).touched@),
    {
        let prev = self.touch(addr, timestamp);
        let ghost mid = *self;
        self.cells.insert(addr, MemoryRecord { value, shard: self.shard, timestamp });
        proof {
            assert forall|a: u32| a != addr implies (#[trigger] self.entry(a)) == mid.entry(a) by {}
            assert(self.values() =~= old(self).values().insert(addr, value));
            assert forall|a: u32| (#[trigger] self.entry(a)).shard == self.shard implies self.touched@.contains(
                a,
            ) by {
                assert(mid.entry(a).shard == mid.shard);
            }
            assert forall|a: u32| (#[trigger] self.entry(a)).shard != self.shard implies self.entry(
                a,
            ) == self.entry_at_start(a) by {
                assert(mid.entry(a).shard != mid.shard);
            }
            assert forall|a: u32| (#[trigger] self.entry(a)).shard <= self.shard by {
                assert(mid.entry(a).shard <= mid.shard);
            }
            assert forall|i: int| 0 <= i < self.touched@.len() implies self.entry(
                #[trigger] self.touched@[i],
            ).shard == self.shard by {
                assert(mid.entry(mid.touched@[i]).shard == mid.shard);
            }
            assert forall|a: u32| (#[trigger] self.entry_at_start(a)).shard < self.shard by {
                assert(mid.entry_at_start(a).shard < mid.shard);
            }
        }
        MemoryWriteRecord {
            value,
            shard: self.shard,
            timestamp,
            prev_value: prev.value,
            prev_shard: prev.shard,
            prev_timestamp: prev.timestamp,
        }
    }

    /// Ends the current shard. Gives, for each address touched in it and in
    /// the order of the first accesses, what the address held before the
    /// shard and what it holds now; then the next shard begins, with no
    /// address touched.
    pub fn end_shard(&mut self) -> (r: (Vec<MemoryBoundaryEvent>, Vec<MemoryBoundaryEvent>))
        requires
            old(self).wf(),
            old(self).shard < u32::MAX,
        ensures
            final(self).wf(),
            final(self).shard == old(self).shard + 1,
            final(self).touched@.len() == 0,
            final(self).values() == old(self).values(),
            forall|a: u32| #[trigger] final(self).entry(a) == old(self).entry(a),
            forall|a: u32| #[trigger] final(self).entry_at_start(a) == old(self).entry(a),
            r.0@ == old(self).initial@,
            r.1@.len() == old(self).touched@.len(),
            forall|i: int|
                0 <= i < r.1@.len() ==> (#[trigger] r.1@[i]) == boundary(
                    old(self).touched@[i],
                    old(self).entry(old(self).touched@[i]),
                ),
    {
        let mut last: Vec<MemoryBoundaryEvent> = Vec::new();
        let mut i: usize = 0;
        while i < self.touched.len()
            invariant
                i <= self.touched@.len(),
                *self == *old(self),
                last@.len() == i,
                forall|k: int|
                    0 <= k < i ==> (#[trigger] last@[k]) == boundary(
                        self.touched@[k],
                        self.entry(self.touched@[k]),
                    ),
            decreases self.touched@.len() - i,
        {
            let addr = self.touched[i];
            let e = self.get(addr);
            last.push(
                MemoryBoundaryEvent {
                    addr,
                    value: e.value,
                    shard: e.shard,
                    timestamp: e.timestamp,
                },
            );
            i = i + 1;
        }
        let mut first: Vec<MemoryBoundaryEvent> = Vec::new();
        std::mem::swap(&mut first, &mut self.initial);
        self.touched = Vec::new();
        self.shard = self.shard + 1;
        self.at_start = Ghost(self.cells@);
        proof {
            assert forall|a: u32| #[trigger] self.entry(a) == old(self).entry(a) by {}
            assert forall|a: u32| #[trigger] self.entry_at_start(a) == old(self).entry(a) by {}
            assert(self.values() =~= old(self).values());
            assert forall|a: u32| (#[trigger] self.entry(a)).shard <= self.shard by {
                assert(old(self).entry(a).shard <= old(self).shard);
            }
            assert forall|a: u32| (#[trigger] self.entry(a)).shard == self.shard implies self.touched@.contains(
                a,
            ) by {
                assert(old(self).entry(a).shard <= old(self).shard);
            }
            assert forall|a: u32| (#[trigger] self.entry_at_start(a)).shard < self.shard by {
                assert(old(self).entry(a).shard <= old(self).shard);
            }
        }
        (first, last)
    }
}

} // verus!
