use curve25519_dalek::edwards::CompressedEdwardsY;
use k256::elliptic_curve::sec1::ToEncodedPoint;
use zkvm_core::events::MemoryReadRecord;
use zkvm_core::program::{Instruction, Opcode, Program};
use zkvm_core::runtime::{ExecutionError, Runtime};
use zkvm_core::syscall::SyscallCode;
use zkvm_core::utils::prove::run_test;

const PTR: u32 = 0x1000;

fn words_of(bytes: &[u8]) -> Vec<u32> {
    bytes.chunks(4).map(|c| u32::from_le_bytes([c[0], c[1], c[2], c[3]])).collect()
}

/// A program that makes one call with the arguments `PTR` and `arg2`; the
/// words of `image` stand at `PTR + offset` before the first step.
fn call_program(code: SyscallCode, arg2: u32, offset: u32, image: &[u8]) -> Program {
    let instructions = vec![
        Instruction::new(Opcode::ADD, 5, 0, code.syscall_id(), false, true),
        Instruction::new(Opcode::ADD, 10, 0, PTR, false, true),
        Instruction::new(Opcode::ADD, 11, 0, arg2, false, true),
        Instruction::new(Opcode::ECALL, 5, 10, 11, false, false),
    ];
    let mut program = Program::new(instructions, 0, 0);
    for (i, w) in words_of(image).iter().enumerate() {
        program.memory_image.insert(PTR + offset + 4 * i as u32, *w);
    }
    program
}

fn base_point_y() -> [u8; 32] {
    let mut y = [0x66u8; 32];
    y[0] = 0x58;
    y
}

const BASE_POINT_X: [u8; 32] = [
    0x1a, 0xd5, 0x25, 0x8f, 0x60, 0x2d, 0x56, 0xc9, 0xb2, 0xa7, 0x25, 0x95, 0x60, 0xc7, 0x2c, 0x69,
    0x5c, 0xdc, 0xd6, 0xfd, 0x31, 0xe2, 0xa4, 0xc0, 0xfe, 0x53, 0x6e, 0xcd, 0xd3, 0x36, 0x69, 0x21,
];

#[test]
fn test_ed_decompress() {
    let program = call_program(SyscallCode::ED_DECOMPRESS, 0, 32, &base_point_y());
    run_test(program).unwrap();
}

#[test]
fn ed_decompress_writes_x_of_the_base_point() {
    let program = call_program(SyscallCode::ED_DECOMPRESS, 0, 32, &base_point_y());
    let mut runtime = Runtime::new(program);
    assert_eq!(runtime.run(), Ok(()));
    let expected = words_of(&BASE_POINT_X);
    for i in 0..8 {
        assert_eq!(runtime.word(PTR + 4 * i as u32), expected[i], "word {}", i);
    }
    assert_eq!(runtime.shards[0].ed_decompress_events.len(), 1);
    assert_eq!(runtime.shards[0].ed_decompress_events[0].decompressed_x_bytes, BASE_POINT_X);
}

fn key_bytes(i: u8) -> [u8; 32] {
    let mut bytes = [0u8; 32];
    for (k, b) in bytes.iter_mut().enumerate() {
        *b = (k as u8).wrapping_mul(37).wrapping_add(i.wrapping_mul(101)).wrapping_add(1);
    }
    bytes[0] &= 0x7f;
    bytes
}

#[test]
fn test_k256_decompress() {
    for i in 0..10 {
        let secret_key = k256::SecretKey::from_slice(&key_bytes(i)).unwrap();
        let public_key = secret_key.public_key();
        let encoded = public_key.to_encoded_point(false);
        let decompressed = encoded.as_bytes();
        let compressed_point = public_key.to_encoded_point(true);
        let compressed = compressed_point.as_bytes();
        assert_eq!(compressed.len(), 33);

        // The slice: the parity in its first byte, `x` in its second half,
        // least significant byte first.
        let mut x_le = [0u8; 32];
        x_le.copy_from_slice(&compressed[1..]);
        x_le.reverse();
        let mut program = call_program(SyscallCode::SECP256K1_DECOMPRESS, 0, 32, &x_le);
        program.memory_image.insert(PTR, (compressed[0] & 1) as u32);
        let mut runtime = Runtime::new(program);
        assert_eq!(runtime.run(), Ok(()));

        let mut result = [0u8; 65];
        result[0] = 4;
        result[1..33].copy_from_slice(&compressed[1..]);
        let mut y_le = Vec::new();
        for k in 0..8 {
            y_le.extend_from_slice(&runtime.word(PTR + 4 * k).to_le_bytes());
        }
        y_le.reverse();
        result[33..].copy_from_slice(&y_le);
        assert_eq!(result, decompressed);

        let mut program = call_program(SyscallCode::SECP256K1_DECOMPRESS, 0, 32, &x_le);
        program.memory_image.insert(PTR, (compressed[0] & 1) as u32);
        run_test(program).unwrap();
    }
}

#[test]
fn k256_decompress_refuses_an_x_without_a_point() {
    // x = 5 is the coordinate of no point: 5^3 + 7 = 132 is no square.
    let mut x_le = [0u8; 32];
    x_le[0] = 5;
    let program = call_program(SyscallCode::SECP256K1_DECOMPRESS, 0, 32, &x_le);
    let mut runtime = Runtime::new(program);
    assert_eq!(
        runtime.run(),
        Err(ExecutionError::InvalidSyscallArguments(SyscallCode::SECP256K1_DECOMPRESS.syscall_id()))
    );
}

#[test]
fn ed_decompress_with_the_sign_set_gives_the_other_root() {
    let program = call_program(SyscallCode::ED_DECOMPRESS, 1, 32, &base_point_y());
    let mut runtime = Runtime::new(program);
    assert_eq!(runtime.run(), Ok(()));
    // p - x, with p = 2^255 - 19.
    let mut x = Vec::new();
    for k in 0..8 {
        x.extend_from_slice(&runtime.word(PTR + 4 * k).to_le_bytes());
    }
    let mut p = [0xffu8; 32];
    p[0] = 0xed;
    p[31] = 0x7f;
    let mut borrow = 0i32;
    let mut expected = [0u8; 32];
    for k in 0..32 {
        let d = p[k] as i32 - BASE_POINT_X[k] as i32 - borrow;
        expected[k] = d.rem_euclid(256) as u8;
        borrow = if d < 0 { 1 } else { 0 };
    }
    assert_eq!(x, expected.to_vec());
    let program = call_program(SyscallCode::ED_DECOMPRESS, 1, 32, &base_point_y());
    run_test(program).unwrap();
}

#[test]
fn ed_decompress_agrees_with_the_curve_library() {
    // y = 2 is the coordinate of no point; y of the base point is.
    let mut two = [0u8; 32];
    two[0] = 2;
    for y in [two, base_point_y()] {
        let expected = CompressedEdwardsY(y).decompress().is_some();
        let program = call_program(SyscallCode::ED_DECOMPRESS, 0, 32, &y);
        let mut runtime = Runtime::new(program);
        assert_eq!(runtime.run().is_ok(), expected);
    }
}

#[test]
fn ed_decompress_refuses_a_sign_that_is_no_bit() {
    let program = call_program(SyscallCode::ED_DECOMPRESS, 2, 32, &base_point_y());
    let mut runtime = Runtime::new(program);
    assert_eq!(
        runtime.run(),
        Err(ExecutionError::InvalidSyscallArguments(SyscallCode::ED_DECOMPRESS.syscall_id()))
    );
}

#[test]
fn a_precompile_refuses_a_pointer_that_is_not_aligned() {
    let instructions = vec![
        Instruction::new(Opcode::ADD, 5, 0, SyscallCode::ED_DECOMPRESS.syscall_id(), false, true),
        Instruction::new(Opcode::ADD, 10, 0, PTR + 2, false, true),
        Instruction::new(Opcode::ECALL, 5, 10, 11, false, false),
    ];
    let mut runtime = Runtime::new(Program::new(instructions, 0, 0));
    assert_eq!(runtime.run(), Err(ExecutionError::MisalignedAccess(PTR + 2)));
}

const SHA_IV: [u32; 8] = [
    0x6a09e667, 0xbb67ae85, 0x3c6ef372, 0xa54ff53a, 0x510e527f, 0x9b05688c, 0x1f83d9ab, 0x5be0cd19,
];

#[test]
fn sha256_of_abc() {
    const W: u32 = 0x2000;
    const H: u32 = 0x3000;
    let instructions = vec![
        Instruction::new(Opcode::ADD, 5, 0, SyscallCode::SHA_EXTEND.syscall_id(), false, true),
        Instruction::new(Opcode::ADD, 10, 0, W, false, true),
        Instruction::new(Opcode::ECALL, 5, 10, 11, false, false),
        Instruction::new(Opcode::ADD, 5, 0, SyscallCode::SHA_COMPRESS.syscall_id(), false, true),
        Instruction::new(Opcode::ADD, 10, 0, W, false, true),
        Instruction::new(Opcode::ADD, 11, 0, H, false, true),
        Instruction::new(Opcode::ECALL, 5, 10, 11, false, false),
    ];
    let mut program = Program::new(instructions, 0, 0);
    // The one block of the message "abc", padded.
    let mut block = [0u32; 16];
    block[0] = 0x61626380;
    block[15] = 24;
    for i in 0..16 {
        program.memory_image.insert(W + 4 * i as u32, block[i]);
    }
    for i in 0..8 {
        program.memory_image.insert(H + 4 * i as u32, SHA_IV[i]);
    }
    let mut runtime = Runtime::new(program);
    assert_eq!(runtime.run(), Ok(()));
    let digest: Vec<u32> = (0..8).map(|i| runtime.word(H + 4 * i)).collect();
    assert_eq!(
        digest,
        vec![
            0xba7816bf, 0x8f01cfea, 0x414140de, 0x5dae2223, 0xb00361a3, 0x96177a9c, 0xb410ff61,
            0xf20015ad
        ]
    );
    let shard = &runtime.shards[0];
    assert_eq!(shard.sha_extend_events.len(), 1);
    assert_eq!(shard.sha_compress_events.len(), 1);
    // Two instructions and a call of 48 * 20 extra ticks, then three
    // instructions and a call of 320.
    assert_eq!(runtime.state.global_clk, 7);

    // The accesses of the compression are four ticks apart: the state is
    // read, then the schedule, then the state is written.
    let e = &shard.sha_compress_events[0];
    for i in 0..8 {
        let r = &e.h_read_records[i];
        assert_eq!((r.value, r.shard, r.timestamp), (SHA_IV[i], 1, e.clk + 4 * i as u32));
        let w = &e.h_write_records[i];
        assert_eq!(
            (w.value, w.prev_value, w.shard, w.timestamp),
            (digest[i], SHA_IV[i], 1, e.clk + 288 + 4 * i as u32)
        );
        assert_eq!((w.prev_shard, w.prev_timestamp), (1, e.clk + 4 * i as u32));
    }
    for j in 0..64 {
        let r = &e.w_i_read_records[j];
        assert_eq!((r.value, r.timestamp), (e.w[j], e.clk + 32 + 4 * j as u32));
    }
    // The extension of a word takes twenty ticks: four reads and the
    // write.
    let x = &shard.sha_extend_events[0];
    for k in 0..48 {
        assert_eq!(x.w_i_minus_15_reads[k].timestamp, x.clk + 20 * k as u32);
        assert_eq!(x.w_i_minus_2_reads[k].timestamp, x.clk + 20 * k as u32 + 4);
        assert_eq!(x.w_i_minus_16_reads[k].timestamp, x.clk + 20 * k as u32 + 8);
        assert_eq!(x.w_i_minus_7_reads[k].timestamp, x.clk + 20 * k as u32 + 12);
        assert_eq!(x.w_i_writes[k].timestamp, x.clk + 20 * k as u32 + 16);
        assert_eq!(x.w_i_writes[k].value, e.w[16 + k]);
        assert_eq!(x.w_i_minus_16_reads[k].value, e.w[k]);
    }
    assert_eq!(e.clk, x.clk + 960 + 4 + 12);

    // The rows of the compression: eighty for the event, padded to 128.
    let chip = zkvm_core::syscall::precompiles::sha256::compress::ShaCompressChip;
    let mut output = zkvm_core::record::ExecutionRecord::default();
    let trace = chip.generate_trace(shard, &mut output);
    assert_eq!(trace.width, 255);
    assert_eq!(trace.values.len(), 128 * 255);
}

#[test]
fn blake3_of_the_empty_input() {
    const STATE: u32 = 0x2000;
    const MESSAGE: u32 = 0x3000;
    let instructions = vec![
        Instruction::new(
            Opcode::ADD,
            5,
            0,
            SyscallCode::BLAKE3_COMPRESS_INNER.syscall_id(),
            false,
            true,
        ),
        Instruction::new(Opcode::ADD, 10, 0, STATE, false, true),
        Instruction::new(Opcode::ADD, 11, 0, MESSAGE, false, true),
        Instruction::new(Opcode::ECALL, 5, 10, 11, false, false),
    ];
    let mut program = Program::new(instructions, 0, 0);
    // The chaining value, four words of the initial vector, the counter,
    // the length of the block and the flags of a chunk that is the root.
    let mut state = [0u32; 16];
    state[..8].copy_from_slice(&SHA_IV);
    state[8..12].copy_from_slice(&SHA_IV[..4]);
    state[15] = 11;
    for i in 0..16 {
        program.memory_image.insert(STATE + 4 * i as u32, state[i]);
    }
    let mut runtime = Runtime::new(program);
    assert_eq!(runtime.run(), Ok(()));
    let mut hash = Vec::new();
    for i in 0..8 {
        let word = runtime.word(STATE + 4 * i) ^ runtime.word(STATE + 4 * (i + 8));
        hash.extend_from_slice(&word.to_le_bytes());
    }
    let expected: [u8; 32] = [
        0xaf, 0x13, 0x49, 0xb9, 0xf5, 0xf9, 0xa1, 0xa6, 0xa0, 0x40, 0x4d, 0xea, 0x36, 0xdc, 0xc9,
        0x49, 0x9b, 0xcb, 0x25, 0xc9, 0xad, 0xc1, 0x12, 0xb7, 0xcc, 0x9a, 0x93, 0xca, 0xe4, 0x1f,
        0x32, 0x62,
    ];
    assert_eq!(hash, expected.to_vec());
    let event = &runtime.shards[0].blake3_compress_inner_events[0];
    assert_eq!(event.message_reads.len(), 112);
    assert_eq!(event.state_writes.len(), 224);
}

#[test]
fn the_mixing_function_of_blake3() {
    let r = zkvm_core::syscall::precompiles::blake3::g_func([1, 2, 3, 4, 5, 6]);
    assert_eq!(r, [0x1000ce, 0x879c3839, 0xce0c1c03, 0xce001c00]);
}

#[test]
fn the_event_of_a_k256_decompression_says_what_was_read_and_written() {
    let secret_key = k256::SecretKey::from_slice(&key_bytes(3)).unwrap();
    let point = secret_key.public_key().to_encoded_point(true);
    let compressed = point.as_bytes();
    let mut x_le = [0u8; 32];
    x_le.copy_from_slice(&compressed[1..]);
    x_le.reverse();
    let mut program = call_program(SyscallCode::SECP256K1_DECOMPRESS, 0, 32, &x_le);
    program.memory_image.insert(PTR, (compressed[0] & 1) as u32);
    let mut runtime = Runtime::new(program);
    assert_eq!(runtime.run(), Ok(()));
    let e = &runtime.shards[0].k256_decompress_events[0];
    assert_eq!(e.shard, 1);
    // Three instructions of four ticks came before the call.
    assert_eq!(e.clk, 12);
    assert_eq!(e.ptr, PTR);
    assert_eq!(e.is_odd, compressed[0] & 1 == 1);
    assert_eq!(e.x_bytes, x_le);
    for k in 0..8 {
        let r = &e.x_memory_records[k];
        let word = u32::from_le_bytes([x_le[4 * k], x_le[4 * k + 1], x_le[4 * k + 2], x_le[4 * k + 3]]);
        assert_eq!((r.value, r.shard, r.timestamp, r.prev_shard, r.prev_timestamp), (word, 1, 12, 0, 0));
        let w = &e.y_memory_records[k];
        assert_eq!((w.shard, w.timestamp, w.prev_shard, w.prev_timestamp), (1, 12, 0, 0));
        assert_eq!(w.value, runtime.word(PTR + 4 * k as u32));
        assert_eq!(w.prev_value, if k == 0 { (compressed[0] & 1) as u32 } else { 0 });
    }
}

#[test]
fn the_records_of_blake3_hold_the_words_and_the_times() {
    const STATE: u32 = 0x2000;
    const MESSAGE: u32 = 0x3000;
    let instructions = vec![
        Instruction::new(
            Opcode::ADD,
            5,
            0,
            SyscallCode::BLAKE3_COMPRESS_INNER.syscall_id(),
            false,
            true,
        ),
        Instruction::new(Opcode::ADD, 10, 0, STATE, false, true),
        Instruction::new(Opcode::ADD, 11, 0, MESSAGE, false, true),
        Instruction::new(Opcode::ECALL, 5, 10, 11, false, false),
    ];
    let mut program = Program::new(instructions, 0, 0);
    for i in 0..16u32 {
        program.memory_image.insert(STATE + 4 * i, 100 + i);
        program.memory_image.insert(MESSAGE + 4 * i, 200 + i);
    }
    let mut runtime = Runtime::new(program);
    assert_eq!(runtime.run(), Ok(()));
    let e = &runtime.shards[0].blake3_compress_inner_events[0];
    assert_eq!((e.shard, e.clk), (1, 12));
    // The first call reads the words 0 and 1 of the message at the clock
    // of the call, and every later call four ticks after the one before.
    assert_eq!(
        e.message_reads[0],
        MemoryReadRecord { value: 200, shard: 1, timestamp: 12, prev_shard: 0, prev_timestamp: 0 }
    );
    assert_eq!(
        e.message_reads[1],
        MemoryReadRecord { value: 201, shard: 1, timestamp: 12, prev_shard: 0, prev_timestamp: 0 }
    );
    // The second round begins with the words 2 and 6, read before in the
    // calls 1 and 3 of the first round.
    assert_eq!(
        e.message_reads[16],
        MemoryReadRecord { value: 202, shard: 1, timestamp: 44, prev_shard: 1, prev_timestamp: 16 }
    );
    assert_eq!(
        e.message_reads[17],
        MemoryReadRecord { value: 206, shard: 1, timestamp: 44, prev_shard: 1, prev_timestamp: 24 }
    );
    for k in 0..56 {
        for i in 0..2 {
            assert_eq!(e.message_reads[2 * k + i].timestamp, 12 + 4 * k as u32);
        }
        for i in 0..4 {
            let w = &e.state_writes[4 * k + i];
            assert_eq!((w.shard, w.timestamp), (1, 12 + 4 * k as u32));
        }
    }
    // The first call writes the words 0, 4, 8 and 12 of the state.
    let first = zkvm_core::syscall::precompiles::blake3::g_func([100, 104, 108, 112, 200, 201]);
    for i in 0..4 {
        let w = &e.state_writes[i];
        assert_eq!((w.value, w.prev_value), (first[i], 100 + 4 * i as u32));
        assert_eq!((w.prev_shard, w.prev_timestamp), (0, 0));
    }
    // The last call of the compression wrote the word 14 last.
    assert_eq!(e.state_writes[223].value, runtime.word(STATE + 4 * 14));
}
