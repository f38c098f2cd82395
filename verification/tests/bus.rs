use zkvm_core::air::{EvalPoint, Expr, Interaction, InteractionKind};
use zkvm_core::alu::shift::ShiftChip;
use zkvm_core::alu::sub::SubChip;
use zkvm_core::bytes::{ByteChip, ByteLookupEvent, ByteOpcode};
use zkvm_core::events::AluEvent;
use zkvm_core::extension::Ext;
use zkvm_core::field::Felt;
use zkvm_core::program::{Instruction, Opcode, Program};
use zkvm_core::runtime::Runtime;
use zkvm_core::syscall::precompiles::edwards::ed_decompress::EdDecompressChip;
use zkvm_core::syscall::SyscallCode;
use zkvm_core::record::ExecutionRecord;
use zkvm_core::stark::machine::TableAir;
use zkvm_core::stark::permutation::{fingerprint_on_row, generate_permutation_trace, power};
use zkvm_core::trace::Trace;

fn f(n: u32) -> Felt {
    Felt::from_canonical_u32(n)
}

fn alpha() -> Ext {
    Ext::new(f(3), f(1), f(4), f(1))
}

fn beta() -> Ext {
    Ext::new(f(2), f(7), f(1), f(8))
}

fn no_columns() -> Trace {
    Trace { values: Vec::new(), width: 0 }
}

fn of_kind(xs: Vec<Interaction>, kind: InteractionKind) -> Vec<Interaction> {
    xs.into_iter().filter(|x| x.kind == kind).collect()
}

#[test]
fn the_range_checks_of_the_subtraction_meet_the_table_of_bytes() {
    let mut shard = ExecutionRecord::default();
    shard.sub_events = vec![
        AluEvent::new(0, Opcode::SUB, 6, 14, 8),
        AluEvent::new(0, Opcode::SUB, 0xff, 0x100, 1),
        AluEvent::new(0, Opcode::SUB, 6, 14, 8),
    ];
    let mut counted = ExecutionRecord::default();
    let sub_trace = SubChip {}.generate_trace(&shard, &mut counted);
    let sub = TableAir::Sub(SubChip {}).chip();
    let sends = of_kind(sub.sends, InteractionKind::Byte);
    assert_eq!(sends.len(), 6);
    let sent = generate_permutation_trace(
        &sends,
        &Vec::new(),
        &no_columns(),
        &sub_trace,
        4,
        alpha(),
        beta(),
    )
    .unwrap();
    assert_ne!(sent.cumulative_sum, Ext::zero());

    let table = ByteChip::new();
    let prep = table.generate_preprocessed_trace();
    let main = table.generate_trace(&counted, &mut ExecutionRecord::default());
    let byte = TableAir::ByteLookup(ByteChip::new()).chip();
    let received = generate_permutation_trace(
        &Vec::new(),
        &byte.receives,
        &prep,
        &main,
        65536,
        alpha(),
        beta(),
    )
    .unwrap();
    assert_eq!(sent.cumulative_sum.add(received.cumulative_sum), Ext::zero());
    assert_eq!(received.rows.len(), 65536);

    // One lookup less in the table, and the bus is out of balance.
    let mut fewer = ExecutionRecord::default();
    SubChip {}.generate_trace(
        &{
            let mut s = ExecutionRecord::default();
            s.sub_events = shard.sub_events[..2].to_vec();
            s
        },
        &mut fewer,
    );
    let main = table.generate_trace(&fewer, &mut ExecutionRecord::default());
    let received = generate_permutation_trace(
        &Vec::new(),
        &byte.receives,
        &prep,
        &main,
        65536,
        alpha(),
        beta(),
    )
    .unwrap();
    assert_ne!(sent.cumulative_sum.add(received.cumulative_sum), Ext::zero());
}

/// A sender of operations: the opcode and the three words in thirteen
/// columns, and in the last whether the row sends.
fn sender() -> Vec<Interaction> {
    vec![Interaction {
        values: (0..13).map(Expr::Local).collect(),
        multiplicity: Expr::Local(13),
        kind: InteractionKind::Alu,
    }]
}

fn sender_trace(rows: &[[u32; 14]]) -> Trace {
    let mut values = Vec::new();
    for i in 0..4 {
        for j in 0..14 {
            values.push(f(if i < rows.len() { rows[i][j] } else { 0 }));
        }
    }
    Trace { values, width: 14 }
}

#[test]
fn a_shift_sent_is_the_shift_received() {
    let mut shard = ExecutionRecord::default();
    shard.shift_events = vec![AluEvent::new(0, Opcode::SLL, 14, 8, 6)];
    let trace = ShiftChip::new().generate_trace(&shard, &mut ExecutionRecord::default());
    let shift = TableAir::Shift(ShiftChip::new()).chip();
    let received = generate_permutation_trace(
        &Vec::new(),
        &shift.receives,
        &no_columns(),
        &trace,
        4,
        alpha(),
        beta(),
    )
    .unwrap();

    let sll = Opcode::SLL.as_u32();
    let sent = |row: [u32; 14]| {
        generate_permutation_trace(
            &sender(),
            &Vec::new(),
            &no_columns(),
            &sender_trace(&[row]),
            4,
            alpha(),
            beta(),
        )
        .unwrap()
        .cumulative_sum
    };
    let same = sent([sll, 14, 0, 0, 0, 8, 0, 0, 0, 6, 0, 0, 0, 1]);
    assert_eq!(same.add(received.cumulative_sum), Ext::zero());
    // Another result, another opcode, or no row that sends: no balance.
    let other = sent([sll, 15, 0, 0, 0, 8, 0, 0, 0, 6, 0, 0, 0, 1]);
    assert_ne!(other.add(received.cumulative_sum), Ext::zero());
    let other = sent([Opcode::SRL.as_u32(), 14, 0, 0, 0, 8, 0, 0, 0, 6, 0, 0, 0, 1]);
    assert_ne!(other.add(received.cumulative_sum), Ext::zero());
    let other = sent([sll, 14, 0, 0, 0, 8, 0, 0, 0, 6, 0, 0, 0, 0]);
    assert_eq!(other, Ext::zero());
}

#[test]
fn the_running_sum_ends_in_the_cumulative_sum() {
    let rows = [
        [5, 1, 0, 0, 0, 2, 0, 0, 0, 3, 0, 0, 0, 1],
        [5, 4, 0, 0, 0, 5, 0, 0, 0, 6, 0, 0, 0, 2],
    ];
    let trace = sender_trace(&rows);
    let t = generate_permutation_trace(
        &sender(),
        &Vec::new(),
        &no_columns(),
        &trace,
        4,
        alpha(),
        beta(),
    )
    .unwrap();
    assert_eq!(t.rows.len(), 4);
    assert_eq!(t.rows[3].phi, t.cumulative_sum);
    // The rows without a tuple add nothing.
    assert_eq!(t.rows[1].phi, t.rows[2].phi);
    assert_eq!(t.rows[1].phi, t.cumulative_sum);
    // The first row adds one over the fingerprint of its tuple, the second
    // twice as much over its own.
    let point = |r: usize| EvalPoint {
        prep_local: Vec::new(),
        prep_next: Vec::new(),
        main_local: rows[r].iter().map(|v| f(*v)).collect(),
        main_next: rows[r].iter().map(|v| f(*v)).collect(),
        is_first_row: f(0),
        is_last_row: f(0),
        is_transition: f(0),
    };
    let print0 = fingerprint_on_row(&sender()[0], &point(0), alpha(), beta());
    let print1 = fingerprint_on_row(&sender()[0], &point(1), alpha(), beta());
    let first = print0.try_inverse().unwrap();
    assert_eq!(t.rows[0].phi, first);
    let second = print1.try_inverse().unwrap();
    assert_eq!(t.cumulative_sum, first.add(second).add(second));
    assert_eq!(t.rows[0].reciprocals, vec![first]);
}

#[test]
fn a_fingerprint_is_the_bus_and_the_tuple() {
    // alpha to the number of the bus, and the tuple weighed by the powers
    // of beta.
    let x = Interaction {
        values: vec![Expr::Local(0), Expr::Local(1)],
        multiplicity: Expr::Const(1),
        kind: InteractionKind::Alu,
    };
    let point = EvalPoint {
        prep_local: Vec::new(),
        prep_next: Vec::new(),
        main_local: vec![f(7), f(9)],
        main_next: vec![f(0), f(0)],
        is_first_row: f(0),
        is_last_row: f(0),
        is_transition: f(0),
    };
    let a = alpha();
    let expected = a.mul(a).mul(a).add(Ext::from_base(f(7))).add(beta().mul(Ext::from_base(f(9))));
    assert_eq!(fingerprint_on_row(&x, &point, alpha(), beta()), expected);
    assert_eq!(power(a, 0), Ext::one());
    assert_eq!(power(a, 3), a.mul(a).mul(a));
}

#[test]
fn lookups_are_counted_by_what_they_look_up() {
    let mut record = ExecutionRecord::default();
    record.add_byte_lookup_event(ByteLookupEvent::new(ByteOpcode::AND, 0, 0, 1, 2));
    record.add_byte_lookup_event(ByteLookupEvent::new(ByteOpcode::AND, 0, 0, 1, 2));
    record.add_byte_lookup_event(ByteLookupEvent::new(ByteOpcode::AND, 0, 0, 2, 1));
    record.add_u8_range_check(3, 4);
    record.add_u8_range_checks(&[3, 4, 5, 6]);
    let count = |e: ByteLookupEvent| record.byte_lookups.get(&e.key()).copied().unwrap_or(0);
    assert_eq!(count(ByteLookupEvent::new(ByteOpcode::AND, 0, 0, 1, 2)), 2);
    assert_eq!(count(ByteLookupEvent::new(ByteOpcode::AND, 0, 0, 2, 1)), 1);
    assert_eq!(count(ByteLookupEvent::new(ByteOpcode::U8Range, 0, 0, 3, 4)), 2);
    assert_eq!(count(ByteLookupEvent::new(ByteOpcode::U8Range, 0, 0, 5, 6)), 1);
    assert_eq!(count(ByteLookupEvent::new(ByteOpcode::OR, 0, 0, 1, 2)), 0);
    assert_eq!(record.byte_lookups.len(), 4);
}

#[test]
fn the_range_checks_of_the_accesses_meet_the_table_of_bytes() {
    // A program that decompresses the base point of ed25519.
    let mut y = [0x66u8; 32];
    y[0] = 0x58;
    let instructions = vec![
        Instruction::new(Opcode::ADD, 5, 0, SyscallCode::ED_DECOMPRESS.syscall_id(), false, true),
        Instruction::new(Opcode::ADD, 10, 0, 0x1000, false, true),
        Instruction::new(Opcode::ECALL, 5, 10, 11, false, false),
    ];
    let mut program = Program::new(instructions, 0, 0);
    for (i, c) in y.chunks(4).enumerate() {
        program
            .memory_image.insert(0x1020 + 4 * i as u32, u32::from_le_bytes([c[0], c[1], c[2], c[3]]));
    }
    let mut runtime = Runtime::new(program);
    assert_eq!(runtime.run(), Ok(()));
    let shard = &runtime.shards[0];

    let air = TableAir::Ed25519Decompress(EdDecompressChip::new());
    let mut counted = ExecutionRecord::default();
    let trace = air.generate_trace(shard, &mut counted).unwrap();
    let total: usize = counted.byte_lookups.values().sum();
    assert_eq!(total, 32);
    let sends = of_kind(air.chip().sends, InteractionKind::Byte);
    assert_eq!(sends.len(), 32);
    let sent = generate_permutation_trace(
        &sends,
        &Vec::new(),
        &no_columns(),
        &trace,
        4,
        alpha(),
        beta(),
    )
    .unwrap();

    let table = ByteChip::new();
    let prep = table.generate_preprocessed_trace();
    let main = table.generate_trace(&counted, &mut ExecutionRecord::default());
    let byte = TableAir::ByteLookup(ByteChip::new()).chip();
    let received = generate_permutation_trace(
        &Vec::new(),
        &byte.receives,
        &prep,
        &main,
        65536,
        alpha(),
        beta(),
    )
    .unwrap();
    assert_ne!(sent.cumulative_sum, Ext::zero());
    assert_eq!(sent.cumulative_sum.add(received.cumulative_sum), Ext::zero());
}
