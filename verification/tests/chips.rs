use std::collections::BTreeMap;
use std::sync::Arc;
use zkvm_core::air::AirBuilder;
use zkvm_core::alu::shift::{ShiftChip, NUM_SHIFT_COLS};
use zkvm_core::alu::sub::{SubChip, NUM_SUB_COLS};
use zkvm_core::events::{AluEvent, MemoryReadRecord, MemoryWriteRecord};
use zkvm_core::stark::shard::DebugError;
use zkvm_core::syscall::precompiles::edwards::ed_decompress::EdDecompressEvent;
use zkvm_core::field::Felt;
use zkvm_core::program::{Instruction, Opcode, Program, ProgramChip, NUM_PROGRAM_COLS};
use zkvm_core::record::ExecutionRecord;
use zkvm_core::stark::debug::{check_rows, ConstraintFailure, RowsError};
use zkvm_core::stark::machine::TableAir;
use zkvm_core::stark::riscv::RiscvAir;
use zkvm_core::stark::shard::debug_constraints;
use zkvm_core::trace::Trace;

fn ints(t: &Trace) -> Vec<u32> {
    t.values.iter().map(|f: &Felt| f.as_canonical_u32()).collect()
}

fn row(t: &Trace, i: usize) -> Vec<u32> {
    ints(t)[i * t.width..(i + 1) * t.width].to_vec()
}

#[test]
fn mod_generate_trace() {
    let mut shard = ExecutionRecord::default();
    shard.shift_events = vec![AluEvent::new(0, Opcode::SLL, 14, 8, 6)];
    let chip = ShiftChip::new();
    let trace = chip.generate_trace(&shard, &mut ExecutionRecord::default());
    println!("{:?}", ints(&trace));
    assert_eq!(trace.width, NUM_SHIFT_COLS);
    assert_eq!(trace.values.len(), 4 * NUM_SHIFT_COLS);
    // a = 14, b = 8, c = 6, each as four bytes, then the three selectors.
    assert_eq!(row(&trace, 0), vec![14, 0, 0, 0, 8, 0, 0, 0, 6, 0, 0, 0, 1, 0, 0]);
    assert_eq!(row(&trace, 1), vec![0; 15]);
}

#[test]
fn generate_trace() {
    let mut shard = ExecutionRecord::default();
    shard.sub_events = vec![AluEvent::new(0, Opcode::SUB, 14, 8, 6)];
    let chip = SubChip {};
    let trace = chip.generate_trace(&shard, &mut ExecutionRecord::default());
    println!("{:?}", ints(&trace));
    assert_eq!(trace.width, NUM_SUB_COLS);
    assert_eq!(trace.values.len(), 4 * NUM_SUB_COLS);
}

#[test]
fn program_generate_trace() {
    // main:
    //     addi x29, x0, 5
    //     addi x30, x0, 37
    //     add x31, x30, x29
    let instructions = vec![
        Instruction::new(Opcode::ADD, 29, 0, 5, false, true),
        Instruction::new(Opcode::ADD, 30, 0, 37, false, true),
        Instruction::new(Opcode::ADD, 31, 30, 29, false, false),
    ];
    let mut shard = ExecutionRecord::default();
    shard.program = Arc::new(Program {
        instructions,
        pc_start: 0,
        pc_base: 0,
        memory_image: BTreeMap::new(),
    });
    let chip = ProgramChip::new();
    let trace = chip.generate_trace(&shard, &mut ExecutionRecord::default());
    println!("{:?}", ints(&trace));
    assert_eq!(trace.width, NUM_PROGRAM_COLS);
    assert_eq!(trace.values.len(), 4 * NUM_PROGRAM_COLS);
    // The program counter of the three instructions.
    assert_eq!(row(&trace, 0)[0], 0);
    assert_eq!(row(&trace, 1)[0], 4);
    assert_eq!(row(&trace, 2)[0], 8);
    assert_eq!(row(&trace, 3), vec![0; 37]);
}

#[test]
fn subtraction_row_of_fourteen_less_eight() {
    let mut shard = ExecutionRecord::default();
    shard.sub_events = vec![AluEvent::new(0, Opcode::SUB, 6, 14, 8)];
    let chip = SubChip {};
    let mut output = ExecutionRecord::default();
    let trace = chip.generate_trace(&shard, &mut output);
    // a = 6, b = 14, c = 8, no borrow, and the row is real.
    assert_eq!(row(&trace, 0), vec![6, 0, 0, 0, 14, 0, 0, 0, 8, 0, 0, 0, 0, 0, 0, 1]);
    for i in 1..4 {
        assert_eq!(row(&trace, i), vec![0; 16]);
    }
    let air = TableAir::Sub(SubChip {});
    assert_eq!(check_rows(&air.chip(), &None, &trace), Ok(()));
}

#[test]
fn subtraction_with_borrows() {
    let mut shard = ExecutionRecord::default();
    // 0x0100 - 1 = 0x00ff: the lowest limb borrows.
    shard.sub_events = vec![
        AluEvent::new(0, Opcode::SUB, 0xff, 0x100, 1),
        AluEvent::new(0, Opcode::SUB, 5u32.wrapping_sub(7), 5, 7),
    ];
    let chip = SubChip {};
    let trace = chip.generate_trace(&shard, &mut ExecutionRecord::default());
    assert_eq!(row(&trace, 0), vec![0xff, 0, 0, 0, 0, 1, 0, 0, 1, 0, 0, 0, 1, 0, 0, 1]);
    assert_eq!(row(&trace, 1), vec![254, 255, 255, 255, 5, 0, 0, 0, 7, 0, 0, 0, 1, 1, 1, 1]);
    let air = TableAir::Sub(SubChip {});
    assert_eq!(check_rows(&air.chip(), &None, &trace), Ok(()));
}

#[test]
fn a_wrong_difference_is_caught_on_its_row() {
    let mut shard = ExecutionRecord::default();
    shard.sub_events = vec![
        AluEvent::new(0, Opcode::SUB, 6, 14, 8),
        AluEvent::new(0, Opcode::SUB, 7, 14, 8),
    ];
    let chip = SubChip {};
    let trace = chip.generate_trace(&shard, &mut ExecutionRecord::default());
    let air = TableAir::Sub(SubChip {});
    match check_rows(&air.chip(), &None, &trace) {
        Err(RowsError::Violation(ConstraintFailure { row, .. })) => assert_eq!(row, 1),
        other => panic!("{:?}", other),
    }
    match debug_constraints(&shard) {
        Err(e) => {
            let text = format!("{:?}", e);
            assert!(text.contains("Sub"), "{}", text);
        },
        Ok(()) => panic!("accepted"),
    }
}

#[test]
fn traces_of_another_width_have_the_wrong_shape() {
    let air = TableAir::Sub(SubChip {});
    let trace = Trace { values: vec![Felt::zero(); 60], width: 15 };
    assert_eq!(check_rows(&air.chip(), &None, &trace), Err(RowsError::Shape));
}

#[test]
fn every_chip_pads_an_empty_record_to_four_rows_or_more() {
    let shard = ExecutionRecord::default();
    for air in TableAir::get_all() {
        let mut output = ExecutionRecord::default();
        let trace = air.generate_trace(&shard, &mut output).unwrap();
        assert_eq!(trace.width, air.width());
        let height = trace.values.len() / trace.width;
        assert_eq!(trace.values.len() % trace.width, 0);
        assert!(height >= 4, "{}", air.name());
        assert!(height.is_power_of_two(), "{}", air.name());
    }
}

#[test]
fn five_events_are_padded_to_eight_rows() {
    let mut shard = ExecutionRecord::default();
    for i in 0..5 {
        shard.sub_events.push(AluEvent::new(0, Opcode::SUB, 10 - i, 10, i));
    }
    let trace = SubChip {}.generate_trace(&shard, &mut ExecutionRecord::default());
    assert_eq!(trace.values.len(), 8 * NUM_SUB_COLS);
}

#[test]
fn the_chips_have_their_names_in_order() {
    let names: Vec<String> = TableAir::get_all().iter().map(|c| c.name()).collect();
    assert_eq!(
        names,
        vec![
            "Program",
            "EdDecompress",
            "K256Decompress",
            "Sub",
            "Shift",
            "MemoryInit",
            "MemoryFinalize",
            "Byte"
        ]
    );
}

#[test]
fn an_empty_record_is_accepted() {
    let shard = ExecutionRecord::default();
    assert!(debug_constraints(&shard).is_ok());
}

#[test]
fn the_subtraction_chip_counts_six_range_checks_for_an_event() {
    let mut shard = ExecutionRecord::default();
    shard.sub_events = vec![AluEvent::new(0, Opcode::SUB, 6, 14, 8)];
    let mut output = ExecutionRecord::default();
    SubChip {}.generate_trace(&shard, &mut output);
    let total: usize = output.byte_lookups.values().sum();
    assert_eq!(total, 6);
}

#[test]
fn a_builder_collects_what_a_chip_declares() {
    let mut builder = AirBuilder::new();
    SubChip {}.eval(&mut builder);
    assert_eq!(builder.constraints.len(), 14);
    assert_eq!(builder.receives.len(), 1);
}

fn decompression_of(y0: u8, shard: u32) -> EdDecompressEvent {
    let mut y_bytes = [0u8; 32];
    y_bytes[0] = y0;
    let read = MemoryReadRecord { value: 0, shard, timestamp: 8, prev_shard: 0, prev_timestamp: 0 };
    let write = MemoryWriteRecord {
        value: 0,
        shard,
        timestamp: 8,
        prev_value: 0,
        prev_shard: 0,
        prev_timestamp: 0,
    };
    EdDecompressEvent {
        shard,
        clk: 8,
        ptr: 0x1000,
        sign: false,
        y_bytes,
        decompressed_x_bytes: [0u8; 32],
        x_memory_records: [write; 8],
        y_memory_records: [read; 8],
    }
}

#[test]
fn a_decompression_without_a_root_has_no_trace() {
    // y = 2 is the coordinate of no point.
    let mut shard = ExecutionRecord::default();
    shard.ed_decompress_events.push(decompression_of(2, 1));
    match debug_constraints(&shard) {
        Err(DebugError::NoTrace(name)) => assert_eq!(name, "EdDecompress"),
        other => panic!("{:?}", other),
    }
}

#[test]
fn an_event_that_is_no_field_element_does_not_fit_the_table() {
    let mut shard = ExecutionRecord::default();
    shard.ed_decompress_events.push(decompression_of(3, u32::MAX));
    match debug_constraints(&shard) {
        Err(DebugError::Shape(name)) => assert_eq!(name, "EdDecompress"),
        other => panic!("{:?}", other),
    }
}

#[test]
fn a_decompression_whose_written_x_is_wrong_is_caught() {
    // y = 3 has a root, but the x written to memory is zero.
    let mut shard = ExecutionRecord::default();
    shard.ed_decompress_events.push(decompression_of(3, 1));
    match debug_constraints(&shard) {
        Err(DebugError::Violation(name, failure)) => {
            assert_eq!(name, "EdDecompress");
            assert_eq!(failure.row, 0);
        },
        other => panic!("{:?}", other),
    }
}

#[test]
fn the_machine_lists_its_chips_in_order() {
    let v = RiscvAir::get_all();
    assert_eq!(v.len(), 32);
    assert!(matches!(v[0], RiscvAir::Cpu(_)));
    assert!(matches!(v[1], RiscvAir::Program(_)));
    assert!(matches!(v[2], RiscvAir::Sha256Extend(_)));
    assert!(matches!(v[3], RiscvAir::Sha256Compress(_)));
    assert!(matches!(v[20], RiscvAir::Add(_)));
    assert!(matches!(v[30], RiscvAir::ByteLookup(_)));
    assert!(matches!(v[31], RiscvAir::Bls12381Decompress(_)));
    assert!(!v.iter().any(|c| matches!(c, RiscvAir::Blake3Compress(_))));
    // The tables that the library holds, in the order of the list.
    let names: Vec<String> = RiscvAir::tables().iter().map(|c| c.name()).collect();
    assert_eq!(
        names,
        vec![
            "Program",
            "EdDecompress",
            "K256Decompress",
            "Sub",
            "Shift",
            "MemoryInit",
            "MemoryFinalize",
            "Byte"
        ]
    );
    assert!(v[0].table().is_none());
    assert!(v[1].table().is_some());
    assert_eq!(RiscvAir::machine().len(), 8);
    assert!(RiscvAir::machine().iter().all(|chip| chip.is_well_formed()));
}
