use zkvm_core::program::{Instruction, Opcode, Program};
use zkvm_core::runtime::{ExecutionError, Runtime};
use zkvm_core::syscall::SyscallCode;
use zkvm_core::utils::prove::{get_cycles, run_test, ProgramVerificationError};

fn simple_program() -> Program {
    // addi x29, x0, 5; addi x30, x0, 37; add x31, x30, x29
    let instructions = vec![
        Instruction::new(Opcode::ADD, 29, 0, 5, false, true),
        Instruction::new(Opcode::ADD, 30, 0, 37, false, true),
        Instruction::new(Opcode::ADD, 31, 30, 29, false, false),
    ];
    Program::new(instructions, 0, 0)
}

#[test]
fn add_program_runs_three_steps() {
    let mut runtime = Runtime::new(simple_program());
    assert_eq!(runtime.run(), Ok(()));
    assert_eq!(runtime.state.global_clk, 3);
    assert_eq!(runtime.register(31), 42);
    assert_eq!(runtime.register(29), 5);
    assert_eq!(runtime.register(30), 37);
    assert_eq!(runtime.shards.len(), 1);
    assert_eq!(runtime.shards[0].cpu_events.len(), 3);
    assert_eq!(runtime.shards[0].add_events.len(), 3);
}

#[test]
fn get_cycles_counts_steps() {
    assert_eq!(get_cycles(simple_program()), Ok(3));
}

#[test]
fn subtraction_of_fourteen_and_eight() {
    let instructions = vec![
        Instruction::new(Opcode::ADD, 5, 0, 14, false, true),
        Instruction::new(Opcode::ADD, 6, 0, 8, false, true),
        Instruction::new(Opcode::SUB, 7, 5, 6, false, false),
    ];
    let mut runtime = Runtime::new(Program::new(instructions, 0, 0));
    assert_eq!(runtime.run(), Ok(()));
    assert_eq!(runtime.register(7), 6);
    let shard = &runtime.shards[0];
    assert_eq!(shard.sub_events.len(), 1);
    assert_eq!(shard.sub_events[0].a, 6);
    assert_eq!(shard.sub_events[0].b, 14);
    assert_eq!(shard.sub_events[0].c, 8);
}

#[test]
fn unimplemented_instruction_is_fatal() {
    let instructions = vec![Instruction::new(Opcode::UNIMP, 0, 0, 0, false, false)];
    let mut runtime = Runtime::new(Program::new(instructions, 0, 0));
    assert_eq!(runtime.run(), Err(ExecutionError::Unimplemented(0)));
}

fn run_of(instructions: Vec<Instruction>) -> (Runtime, Result<(), ExecutionError>) {
    let mut runtime = Runtime::new(Program::new(instructions, 0, 0));
    let r = runtime.run();
    (runtime, r)
}

#[test]
fn a_breakpoint_is_fatal() {
    let (_, r) = run_of(vec![
        Instruction::new(Opcode::ADD, 5, 0, 1, false, true),
        Instruction::new(Opcode::EBREAK, 0, 0, 0, false, false),
    ]);
    assert_eq!(r, Err(ExecutionError::Breakpoint(4)));
}

#[test]
fn a_word_is_loaded_from_an_aligned_address_only() {
    let (_, r) = run_of(vec![
        Instruction::new(Opcode::ADD, 6, 0, 0x1002, false, true),
        Instruction::new(Opcode::LW, 7, 6, 0, false, true),
    ]);
    assert_eq!(r, Err(ExecutionError::MisalignedAccess(0x1002)));
    let (_, r) = run_of(vec![
        Instruction::new(Opcode::ADD, 6, 0, 0x1001, false, true),
        Instruction::new(Opcode::SH, 7, 6, 0, false, true),
    ]);
    assert_eq!(r, Err(ExecutionError::MisalignedAccess(0x1001)));
}

#[test]
fn the_registers_are_no_memory_for_loads_and_stores() {
    let (_, r) = run_of(vec![Instruction::new(Opcode::SW, 7, 0, 8, false, true)]);
    assert_eq!(r, Err(ExecutionError::UnmappedAccess(8)));
    let (_, r) = run_of(vec![Instruction::new(Opcode::LW, 7, 0, 28, false, true)]);
    assert_eq!(r, Err(ExecutionError::UnmappedAccess(28)));
}

#[test]
fn there_are_thirty_two_registers() {
    let (_, r) = run_of(vec![Instruction::new(Opcode::ADD, 32, 0, 1, false, true)]);
    assert_eq!(r, Err(ExecutionError::InvalidRegister(32)));
    let (_, r) = run_of(vec![Instruction::new(Opcode::ADD, 3, 40, 1, false, true)]);
    assert_eq!(r, Err(ExecutionError::InvalidRegister(40)));
}

#[test]
fn a_call_without_a_handler_is_fatal() {
    let (_, r) = run_of(vec![
        Instruction::new(Opcode::ADD, 5, 0, 0x999, false, true),
        Instruction::new(Opcode::ECALL, 5, 10, 11, false, false),
    ]);
    assert_eq!(r, Err(ExecutionError::UnsupportedSyscall(0x999)));
}

#[test]
fn reading_more_input_than_there_is_is_refused() {
    let (_, r) = run_of(vec![
        Instruction::new(Opcode::ADD, 5, 0, SyscallCode::LWA.syscall_id(), false, true),
        Instruction::new(Opcode::ADD, 11, 0, 4, false, true),
        Instruction::new(Opcode::ECALL, 5, 10, 11, false, false),
    ]);
    assert_eq!(r, Err(ExecutionError::InvalidSyscallArguments(SyscallCode::LWA.syscall_id())));
}

#[test]
fn register_zero_stays_zero() {
    let (runtime, r) = run_of(vec![
        Instruction::new(Opcode::ADD, 0, 0, 7, false, true),
        Instruction::new(Opcode::ADD, 6, 0, 0, false, false),
    ]);
    assert_eq!(r, Ok(()));
    assert_eq!(runtime.register(0), 0);
    assert_eq!(runtime.register(6), 0);
}

#[test]
fn arithmetic_of_the_machine() {
    let (runtime, r) = run_of(vec![
        Instruction::new(Opcode::ADD, 6, 0, 0xffff_fff0, false, true),
        Instruction::new(Opcode::ADD, 7, 6, 0x20, false, true),
        Instruction::new(Opcode::SUB, 8, 0, 6, false, false),
        Instruction::new(Opcode::SRA, 9, 6, 2, false, true),
        Instruction::new(Opcode::SRL, 13, 6, 2, false, true),
        Instruction::new(Opcode::SLL, 14, 0, 6, true, true),
        Instruction::new(Opcode::SLT, 15, 6, 1, false, true),
        Instruction::new(Opcode::SLTU, 16, 6, 1, false, true),
        Instruction::new(Opcode::MULHU, 17, 6, 6, false, false),
        Instruction::new(Opcode::DIV, 18, 6, 0, false, true),
        Instruction::new(Opcode::REM, 19, 6, 0, false, true),
        Instruction::new(Opcode::DIV, 20, 6, 3, false, true),
        Instruction::new(Opcode::REMU, 21, 6, 7, false, true),
        Instruction::new(Opcode::XOR, 22, 6, 0xff, false, true),
    ]);
    assert_eq!(r, Ok(()));
    assert_eq!(runtime.register(7), 0x10);
    assert_eq!(runtime.register(8), 0x10);
    assert_eq!(runtime.register(9), 0xffff_fffc);
    assert_eq!(runtime.register(13), 0x3fff_fffc);
    assert_eq!(runtime.register(14), 0);
    assert_eq!(runtime.register(15), 1);
    assert_eq!(runtime.register(16), 0);
    assert_eq!(runtime.register(17), 0xffff_ffe0);
    assert_eq!(runtime.register(18), 0xffff_ffff);
    assert_eq!(runtime.register(19), 0xffff_fff0);
    assert_eq!(runtime.register(20), (-16i32 / 3) as u32);
    assert_eq!(runtime.register(21), 0xffff_fff0u32 % 7);
    assert_eq!(runtime.register(22), 0xffff_ff0f);
}

#[test]
fn a_shift_left_of_eight_by_six() {
    let (runtime, r) = run_of(vec![
        Instruction::new(Opcode::ADD, 6, 0, 8, false, true),
        Instruction::new(Opcode::SLL, 7, 6, 6, false, true),
    ]);
    assert_eq!(r, Ok(()));
    assert_eq!(runtime.register(7), 512);
    let events = &runtime.shards[0].shift_events;
    assert_eq!(events.len(), 1);
    assert_eq!((events[0].a, events[0].b, events[0].c), (512, 8, 6));
}

#[test]
fn loads_and_stores_of_bytes_and_halves() {
    let (runtime, r) = run_of(vec![
        Instruction::new(Opcode::ADD, 6, 0, 0x1000, false, true),
        Instruction::new(Opcode::ADD, 7, 0, 0x8899_aabb, false, true),
        Instruction::new(Opcode::SW, 7, 6, 0, false, true),
        Instruction::new(Opcode::LB, 8, 6, 1, false, true),
        Instruction::new(Opcode::LBU, 9, 6, 1, false, true),
        Instruction::new(Opcode::LH, 13, 6, 2, false, true),
        Instruction::new(Opcode::LHU, 14, 6, 2, false, true),
        Instruction::new(Opcode::SB, 0, 6, 3, false, true),
        Instruction::new(Opcode::LW, 15, 6, 0, false, true),
    ]);
    assert_eq!(r, Ok(()));
    assert_eq!(runtime.register(8), 0xffff_ffaa);
    assert_eq!(runtime.register(9), 0xaa);
    assert_eq!(runtime.register(13), 0xffff_8899);
    assert_eq!(runtime.register(14), 0x8899);
    assert_eq!(runtime.register(15), 0x0099_aabb);
    assert_eq!(runtime.word(0x1000), 0x0099_aabb);
}

#[test]
fn a_branch_skips_and_a_jump_links() {
    let (runtime, r) = run_of(vec![
        Instruction::new(Opcode::ADD, 6, 0, 1, false, true),
        Instruction::new(Opcode::BNE, 6, 0, 8, false, true),
        Instruction::new(Opcode::ADD, 7, 0, 99, false, true),
        Instruction::new(Opcode::JAL, 8, 8, 0, true, true),
        Instruction::new(Opcode::ADD, 9, 0, 99, false, true),
        Instruction::new(Opcode::AUIPC, 13, 0x100, 0, true, true),
    ]);
    assert_eq!(r, Ok(()));
    assert_eq!(runtime.register(7), 0);
    assert_eq!(runtime.register(8), 16);
    assert_eq!(runtime.register(9), 0);
    assert_eq!(runtime.register(13), 20 + 0x100);
    assert_eq!(runtime.state.global_clk, 4);
}

#[test]
fn halting_moves_the_program_counter_to_zero() {
    let instructions = vec![
        Instruction::new(Opcode::ADD, 5, 0, SyscallCode::HALT.syscall_id(), false, true),
        Instruction::new(Opcode::ECALL, 5, 10, 11, false, false),
        Instruction::new(Opcode::ADD, 6, 0, 99, false, true),
    ];
    let mut runtime = Runtime::new(Program::new(instructions, 0x1000, 0x1000));
    assert_eq!(runtime.run(), Ok(()));
    assert_eq!(runtime.state.pc, 0);
    assert_eq!(runtime.register(6), 0);
    assert_eq!(runtime.state.global_clk, 2);
}

#[test]
fn committed_words_are_in_the_digest_of_the_record() {
    let instructions = vec![
        Instruction::new(Opcode::ADD, 5, 0, SyscallCode::COMMIT.syscall_id(), false, true),
        Instruction::new(Opcode::ADD, 10, 0, 3, false, true),
        Instruction::new(Opcode::ADD, 11, 0, 0xabcd, false, true),
        Instruction::new(Opcode::ECALL, 5, 10, 11, false, false),
    ];
    let (runtime, r) = run_of(instructions);
    assert_eq!(r, Ok(()));
    assert_eq!(runtime.shards[0].public_values_digest, [0, 0, 0, 0xabcd, 0, 0, 0, 0]);
    let (_, r) = run_of(vec![
        Instruction::new(Opcode::ADD, 5, 0, SyscallCode::COMMIT.syscall_id(), false, true),
        Instruction::new(Opcode::ADD, 10, 0, 8, false, true),
        Instruction::new(Opcode::ECALL, 5, 10, 11, false, false),
    ]);
    assert_eq!(r, Err(ExecutionError::InvalidSyscallArguments(SyscallCode::COMMIT.syscall_id())));
}

fn read_input(rd: u32, bytes: u32) -> Vec<Instruction> {
    vec![
        Instruction::new(Opcode::ADD, 5, 0, SyscallCode::LWA.syscall_id(), false, true),
        Instruction::new(Opcode::ADD, 11, 0, bytes, false, true),
        Instruction::new(Opcode::ECALL, 5, 10, 11, false, false),
        Instruction::new(Opcode::ADD, rd, 5, 0, false, true),
    ]
}

/// A program that reads two points, each two numbers of eight bytes and a
/// flag, adds them and writes their sum.
fn io_program() -> Program {
    const OUT: u32 = 0x2000;
    let mut instructions = Vec::new();
    for (rd, bytes) in [(6, 4), (7, 4), (8, 4), (9, 4), (13, 1), (14, 4), (15, 4), (16, 4), (17, 4), (18, 1)] {
        instructions.extend(read_input(rd, bytes));
    }
    instructions.extend(vec![
        Instruction::new(Opcode::ADD, 19, 6, 14, false, false),
        Instruction::new(Opcode::ADD, 20, 7, 15, false, false),
        Instruction::new(Opcode::ADD, 21, 8, 16, false, false),
        Instruction::new(Opcode::ADD, 22, 9, 17, false, false),
        Instruction::new(Opcode::AND, 23, 13, 18, false, false),
        Instruction::new(Opcode::ADD, 24, 0, OUT, false, true),
        Instruction::new(Opcode::SW, 19, 24, 0, false, true),
        Instruction::new(Opcode::SW, 20, 24, 4, false, true),
        Instruction::new(Opcode::SW, 21, 24, 8, false, true),
        Instruction::new(Opcode::SW, 22, 24, 12, false, true),
        Instruction::new(Opcode::SB, 23, 24, 16, false, true),
        Instruction::new(Opcode::ADD, 5, 0, SyscallCode::WRITE.syscall_id(), false, true),
        Instruction::new(Opcode::ADD, 10, 0, 3, false, true),
        Instruction::new(Opcode::ADD, 11, 0, OUT, false, true),
        Instruction::new(Opcode::ADD, 12, 0, 17, false, true),
        Instruction::new(Opcode::ECALL, 5, 10, 11, false, false),
    ]);
    Program::new(instructions, 0, 0)
}

#[test]
fn test_io_run() {
    let mut runtime = Runtime::new(io_program());
    let points = ((3usize, 5usize, true), (8usize, 19usize, true));
    runtime.write_stdin_slice(&bincode::serialize(&points.0).unwrap());
    runtime.write_stdin_slice(&bincode::serialize(&points.1).unwrap());
    assert_eq!(runtime.run(), Ok(()));
    let mut buf = [0u8; 17];
    assert!(runtime.has_stdout(17));
    runtime.read_stdout_slice(&mut buf);
    let added_point: (usize, usize, bool) = bincode::deserialize(&buf).unwrap();
    assert_eq!(added_point, (11, 24, true));
    assert!(!runtime.has_stdout(1));
}

#[test]
fn output_to_another_stream_is_dropped() {
    let instructions = vec![
        Instruction::new(Opcode::ADD, 5, 0, SyscallCode::WRITE.syscall_id(), false, true),
        Instruction::new(Opcode::ADD, 10, 0, 1, false, true),
        Instruction::new(Opcode::ADD, 11, 0, 0x2000, false, true),
        Instruction::new(Opcode::ADD, 12, 0, 4, false, true),
        Instruction::new(Opcode::ECALL, 5, 10, 11, false, false),
    ];
    let (runtime, r) = run_of(instructions);
    assert_eq!(r, Ok(()));
    assert!(runtime.has_stdout(0));
    assert!(!runtime.has_stdout(1));
}

#[test]
fn a_full_shard_is_followed_by_a_new_one() {
    let mut instructions = vec![Instruction::new(Opcode::ADD, 6, 0, 0x1000, false, true)];
    for i in 0..10u32 {
        instructions.push(Instruction::new(Opcode::ADD, 7, 0, 100 + i, false, true));
        instructions.push(Instruction::new(Opcode::SW, 7, 6, 4 * (i % 3), false, true));
    }
    let mut runtime = Runtime::with_shard_size(Program::new(instructions, 0, 0), 8);
    assert_eq!(runtime.run(), Ok(()));
    assert_eq!(runtime.state.global_clk, 21);
    assert_eq!(runtime.shards.len(), 3);
    assert_eq!(runtime.shards[0].cpu_events.len(), 8);
    assert_eq!(runtime.shards[1].cpu_events.len(), 8);
    assert_eq!(runtime.shards[2].cpu_events.len(), 5);
    for n in 0..2 {
        let earlier = &runtime.shards[n];
        let later = &runtime.shards[n + 1];
        assert_eq!(later.index, earlier.index + 1);
        assert!(!earlier.memory_finalize_events.is_empty());
        // Whatever the later shard touches first is as the earlier left it.
        let mut met = 0;
        for init in later.memory_initialize_events.iter() {
            for fin in earlier.memory_finalize_events.iter() {
                if init.addr == fin.addr {
                    assert_eq!(init, fin);
                    met += 1;
                }
            }
        }
        assert!(met > 0);
    }
    // Every address written in the first shard is finalized there with the
    // value last written.
    let first = &runtime.shards[0];
    let at = |addr: u32| first.memory_finalize_events.iter().find(|e| e.addr == addr).unwrap();
    // The first eight steps store 100, 101 and 102 at 0x1000, 0x1004 and
    // 0x1008; the store of 103 is the first step of the next shard.
    assert_eq!(at(0x1000).value, 100);
    assert_eq!(at(0x1004).value, 101);
    assert_eq!(at(0x1008).value, 102);
    assert_eq!(runtime.word(0x1000), 109);
    assert_eq!(runtime.word(0x1004), 107);
    assert_eq!(runtime.word(0x1008), 108);
}

#[test]
fn a_shard_of_no_steps_holds_one() {
    let mut runtime = Runtime::with_shard_size(simple_program(), 0);
    assert_eq!(runtime.run(), Ok(()));
    assert_eq!(runtime.shards.len(), 3);
}

#[test]
fn a_fault_gives_get_cycles_no_number() {
    let program = Program::new(vec![Instruction::new(Opcode::UNIMP, 0, 0, 0, false, false)], 0, 0);
    assert_eq!(get_cycles(program), Err(ExecutionError::Unimplemented(0)));
}

#[test]
fn an_empty_program_stops_at_once() {
    assert_eq!(get_cycles(Program::new(Vec::new(), 0, 0)), Ok(0));
}

#[test]
fn a_program_passes_the_test_of_the_machine() {
    let instructions = vec![
        Instruction::new(Opcode::ADD, 5, 0, 14, false, true),
        Instruction::new(Opcode::ADD, 6, 0, 8, false, true),
        Instruction::new(Opcode::SUB, 7, 5, 6, false, false),
        Instruction::new(Opcode::SLL, 14, 6, 6, false, true),
        Instruction::new(Opcode::ADD, 8, 0, 0x1000, false, true),
        Instruction::new(Opcode::SW, 7, 8, 0, false, true),
    ];
    assert!(run_test(Program::new(instructions, 0, 0)).is_ok());
}

#[test]
fn a_fault_fails_the_test_of_the_machine() {
    let program = Program::new(vec![Instruction::new(Opcode::EBREAK, 0, 0, 0, false, false)], 0, 0);
    match run_test(program) {
        Err(ProgramVerificationError::Execution(e)) => assert_eq!(e, ExecutionError::Breakpoint(0)),
        other => panic!("{:?}", other),
    }
}

#[test]
fn a_clock_that_would_leave_its_range_stops_the_run() {
    let mut runtime = Runtime::new(simple_program());
    runtime.state.clk = u32::MAX - 3;
    assert_eq!(runtime.run(), Err(ExecutionError::ClockOverflow));
}
