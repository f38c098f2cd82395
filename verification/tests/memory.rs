use std::collections::BTreeMap;
use zkvm_core::events::{MemoryBoundaryEvent, MemoryReadRecord, MemoryRecord, MemoryWriteRecord};
use zkvm_core::runtime::memory::Memory;

#[test]
fn a_read_sees_the_last_write() {
    let mut memory = Memory::new(&BTreeMap::from([(0x100, 7), (0x104, 9)]));
    assert_eq!(memory.read(0x100, 1).value, 7);
    memory.write(0x100, 11, 2);
    memory.write(0x104, 13, 3);
    memory.write(0x100, 17, 4);
    assert_eq!(memory.read(0x104, 5).value, 13);
    assert_eq!(memory.read(0x100, 6).value, 17);
    // An address that was never written holds what the image gave it, or
    // zero.
    assert_eq!(memory.read(0x200, 7).value, 0);
    assert_eq!(memory.get(0x100), MemoryRecord { value: 17, shard: 1, timestamp: 6 });
}

#[test]
fn every_interleaving_of_two_writers_reads_the_latest() {
    // All orders of the writes 1, 2, 3 and reads between them.
    let orders = [[1u32, 2, 3], [1, 3, 2], [2, 1, 3], [2, 3, 1], [3, 1, 2], [3, 2, 1]];
    for order in orders {
        let mut memory = Memory::new(&BTreeMap::from([(0x40, 99)]));
        let mut last = 99;
        let mut time = 0;
        for v in order {
            time += 1;
            assert_eq!(memory.read(0x40, time).value, last);
            time += 1;
            memory.write(0x40, v, time);
            last = v;
        }
        assert_eq!(memory.read(0x40, time + 1).value, last);
    }
}

#[test]
fn an_address_outside_the_image_holds_zero() {
    let memory = Memory::new(&BTreeMap::from([(0x100, 7)]));
    assert_eq!(memory.get(0x100), MemoryRecord { value: 7, shard: 0, timestamp: 0 });
    assert_eq!(memory.get(0x104), MemoryRecord { value: 0, shard: 0, timestamp: 0 });
}

#[test]
fn the_records_say_when_the_address_was_accessed_before() {
    let mut memory = Memory::new(&BTreeMap::from([(0x100, 7)]));
    assert_eq!(
        memory.read(0x100, 3),
        MemoryReadRecord { value: 7, shard: 1, timestamp: 3, prev_shard: 0, prev_timestamp: 0 }
    );
    assert_eq!(
        memory.write(0x100, 8, 5),
        MemoryWriteRecord {
            value: 8,
            shard: 1,
            timestamp: 5,
            prev_value: 7,
            prev_shard: 1,
            prev_timestamp: 3
        }
    );
}

#[test]
fn the_end_of_a_shard_is_the_start_of_the_next() {
    let mut memory = Memory::new(&BTreeMap::from([(0x100, 7)]));
    memory.write(0x100, 8, 5);
    memory.read(0x104, 6);
    let (initial, last) = memory.end_shard();
    assert_eq!(
        initial,
        vec![
            MemoryBoundaryEvent { addr: 0x100, value: 7, shard: 0, timestamp: 0 },
            MemoryBoundaryEvent { addr: 0x104, value: 0, shard: 0, timestamp: 0 },
        ]
    );
    assert_eq!(
        last,
        vec![
            MemoryBoundaryEvent { addr: 0x100, value: 8, shard: 1, timestamp: 5 },
            MemoryBoundaryEvent { addr: 0x104, value: 0, shard: 1, timestamp: 6 },
        ]
    );
    // The next shard starts from what the last one left.
    assert_eq!(
        memory.read(0x100, 1),
        MemoryReadRecord { value: 8, shard: 2, timestamp: 1, prev_shard: 1, prev_timestamp: 5 }
    );
    let (initial, last) = memory.end_shard();
    assert_eq!(initial, vec![MemoryBoundaryEvent { addr: 0x100, value: 8, shard: 1, timestamp: 5 }]);
    assert_eq!(last, vec![MemoryBoundaryEvent { addr: 0x100, value: 8, shard: 2, timestamp: 1 }]);
    // A shard without accesses has no rows at its boundaries.
    let (initial, last) = memory.end_shard();
    assert!(initial.is_empty() && last.is_empty());
}
