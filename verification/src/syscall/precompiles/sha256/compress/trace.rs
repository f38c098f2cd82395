//! The trace of the compression chip.

use super::columns::NUM_SHA_COMPRESS_COLS;
use super::{round, round_temp1, round_temp2, rounds, ShaCompressChip};
use crate::air::{felts_view, lemma_concat_assoc, lemma_felts_view_push};
use crate::bytes::{ByteLookupEvent, ByteOpcode};
use crate::events::ShaCompressEvent;
use crate::field::{Felt, P};
use crate::memory::trace::{
    access_cols, access_fits, access_lookups, populate_read, populate_write, read_access,
    write_access,
};
use crate::operations::add::{
    add_cols, add_lookups, push_word, push_zeros, AddOperation,
};
use crate::operations::bitwise::{
    bytewise_cols, bytewise_lookups, not_cols, not_lookups, AndOperation, NotOperation,
    XorOperation,
};
use crate::operations::fixed_rotate_right::{
    rotate_cols, rotate_lookups, FixedRotateRightOperation,
};
use crate::record::ExecutionRecord;
use crate::syscall::precompiles::sha256::{
    add32, add_words, big_sigma0, big_sigma1, choose_bits, majority, rotr, SHA_COMPRESS_K,
};
use crate::trace::{append_row, padded_height, padded_trace, zeros, Trace};
use crate::word::le_bytes;
use vstd::prelude::*;

verus! {

/// The number of rows that one compression takes.
pub const ROWS_PER_EVENT: usize = 80;

/// A sequence of `n` flags of which only flag `i` is set.
pub open spec fn one_hot(n: nat, i: int) -> Seq<int> {
    Seq::new(
        n,
        |k: int|
            if k == i {
                1int
            } else {
                0int
            },
    )
}

/// The bytes of eight words, word by word.
pub open spec fn words_cols(v: Seq<u32>) -> Seq<int> {
    le_bytes(v[0] as int) + le_bytes(v[1] as int) + le_bytes(v[2] as int) + le_bytes(v[3] as int)
        + le_bytes(v[4] as int) + le_bytes(v[5] as int) + le_bytes(v[6] as int) + le_bytes(
        v[7] as int,
    )
}

/// The first sum of a round in the order in which the chip adds: the
/// schedule word before the constant.
pub open spec fn chip_temp1(s: Seq<u32>, w: u32, k: u32) -> u32 {
    add32(add32(add32(add32(s[7], big_sigma1(s[4])), choose_bits(s[4], s[5], s[6])), w), k)
}

/// The columns of the operations of a round that work on `e`, `f`, `g`
/// and `h`, up to the first sum.
#[verifier::opaque]
pub open spec fn round_cols_e(s: Seq<u32>, w: u32, k: u32) -> Seq<int> {
    let e = s[4];
    let e_rr_6 = rotr(e, 6);
    let e_rr_11 = rotr(e, 11);
    let e_rr_25 = rotr(e, 25);
    let s1i = e_rr_6 ^ e_rr_11;
    let e_and_f = e & s[5];
    let e_not = !e;
    let e_not_and_g = e_not & s[6];
    rotate_cols(e, 6) + rotate_cols(e, 11) + rotate_cols(e, 25) + bytewise_cols(
        ByteOpcode::XOR,
        e_rr_6,
        e_rr_11,
    ) + bytewise_cols(ByteOpcode::XOR, s1i, e_rr_25) + bytewise_cols(ByteOpcode::AND, e, s[5])
        + not_cols(e) + bytewise_cols(ByteOpcode::AND, e_not, s[6]) + bytewise_cols(
        ByteOpcode::XOR,
        e_and_f,
        e_not_and_g,
    ) + le_bytes(chip_temp1(s, w, k) as int) + zeros(24)
}

/// The lookups of the operations of a round that work on `e`, `f` and
/// `g`.
#[verifier::opaque]
pub open spec fn round_lookups_e(s: Seq<u32>) -> Seq<ByteLookupEvent> {
    let e = s[4];
    let e_rr_6 = rotr(e, 6);
    let e_rr_11 = rotr(e, 11);
    let e_rr_25 = rotr(e, 25);
    let s1i = e_rr_6 ^ e_rr_11;
    let e_and_f = e & s[5];
    let e_not = !e;
    let e_not_and_g = e_not & s[6];
    rotate_lookups(e, 6) + rotate_lookups(e, 11) + rotate_lookups(e, 25) + bytewise_lookups(
        ByteOpcode::XOR,
        e_rr_6,
        e_rr_11,
    ) + bytewise_lookups(ByteOpcode::XOR, s1i, e_rr_25) + bytewise_lookups(
        ByteOpcode::AND,
        e,
        s[5],
    ) + not_lookups(e) + bytewise_lookups(ByteOpcode::AND, e_not, s[6]) + bytewise_lookups(
        ByteOpcode::XOR,
        e_and_f,
        e_not_and_g,
    )
}

/// The columns of the operations of a round that work on `a`, `b`, `c`
/// and `d`, and of the sums that close the round.
#[verifier::opaque]
pub open spec fn round_cols_a(s: Seq<u32>, temp1: u32) -> Seq<int> {
    let a = s[0];
    let a_rr_2 = rotr(a, 2);
    let a_rr_13 = rotr(a, 13);
    let a_rr_22 = rotr(a, 22);
    let s0i = a_rr_2 ^ a_rr_13;
    let s0 = s0i ^ a_rr_22;
    let a_and_b = a & s[1];
    let a_and_c = a & s[2];
    let b_and_c = s[1] & s[2];
    let maji = a_and_b ^ a_and_c;
    let maj = maji ^ b_and_c;
    let temp2 = add32(s0, maj);
    rotate_cols(a, 2) + rotate_cols(a, 13) + rotate_cols(a, 22) + bytewise_cols(
        ByteOpcode::XOR,
        a_rr_2,
        a_rr_13,
    ) + bytewise_cols(ByteOpcode::XOR, s0i, a_rr_22) + bytewise_cols(ByteOpcode::AND, a, s[1])
        + bytewise_cols(ByteOpcode::AND, a, s[2]) + bytewise_cols(ByteOpcode::AND, s[1], s[2])
        + bytewise_cols(ByteOpcode::XOR, a_and_b, a_and_c) + bytewise_cols(
        ByteOpcode::XOR,
        maji,
        b_and_c,
    ) + add_cols(s0, maj) + add_cols(s[3], temp1) + add_cols(temp1, temp2)
}

/// The lookups of the operations of a round that work on `a`, `b`, `c`
/// and `d`, and of the sums that close the round.
#[verifier::opaque]
pub open spec fn round_lookups_a(s: Seq<u32>, temp1: u32) -> Seq<ByteLookupEvent> {
    let a = s[0];
    let a_rr_2 = rotr(a, 2);
    let a_rr_13 = rotr(a, 13);
    let a_rr_22 = rotr(a, 22);
    let s0i = a_rr_2 ^ a_rr_13;
    let s0 = s0i ^ a_rr_22;
    let a_and_b = a & s[1];
    let a_and_c = a & s[2];
    let b_and_c = s[1] & s[2];
    let maji = a_and_b ^ a_and_c;
    let maj = maji ^ b_and_c;
    let temp2 = add32(s0, maj);
    rotate_lookups(a, 2) + rotate_lookups(a, 13) + rotate_lookups(a, 22) + bytewise_lookups(
        ByteOpcode::XOR,
        a_rr_2,
        a_rr_13,
    ) + bytewise_lookups(ByteOpcode::XOR, s0i, a_rr_22) + bytewise_lookups(
        ByteOpcode::AND,
        a,
        s[1],
    ) + bytewise_lookups(ByteOpcode::AND, a, s[2]) + bytewise_lookups(
        ByteOpcode::AND,
        s[1],
        s[2],
    ) + bytewise_lookups(ByteOpcode::XOR, a_and_b, a_and_c) + bytewise_lookups(
        ByteOpcode::XOR,
        maji,
        b_and_c,
    ) + add_lookups(s0, maj) + add_lookups(s[3], temp1) + add_lookups(temp1, temp2)
}

/// The columns of the operations of a round on the working variables `s`.
pub open spec fn round_cols(s: Seq<u32>, w: u32, k: u32) -> Seq<int> {
    round_cols_e(s, w, k) + round_cols_a(s, chip_temp1(s, w, k))
}

/// The lookups of the operations of a round, in the order in which they
/// are made.
pub open spec fn round_lookups(s: Seq<u32>, w: u32, k: u32) -> Seq<ByteLookupEvent> {
    round_lookups_e(s) + round_lookups_a(s, chip_temp1(s, w, k))
}

/// The operations of a round fill 173 columns.
pub proof fn lemma_round_cols_len(s: Seq<u32>, w: u32, k: u32)
    ensures
        round_cols(s, w, k).len() == 173,
{
    reveal(round_cols_e);
    reveal(round_cols_a);
}

/// The sum of three words does not depend on the order of the last two.
pub proof fn lemma_add32_swap(x: u32, a: u32, b: u32)
    ensures
        add32(add32(x, a), b) == add32(add32(x, b), a),
{
}

/// The working variables after a round, from the sums that the chip
/// makes, are those of the round of the hash function.
pub proof fn lemma_chip_round(s: Seq<u32>, w: u32, k: u32)
    requires
        s.len() == 8,
    ensures
        chip_temp1(s, w, k) == round_temp1(s, w, k),
{
    lemma_add32_swap(add32(add32(s[7], big_sigma1(s[4])), choose_bits(s[4], s[5], s[6])), w, k);
}

/// The operations of a round on `e`, `f`, `g` and `h`: appends their
/// columns and lookups, and gives the first sum of the round.
fn populate_round_e(
    row: &mut Vec<Felt>,
    events: &mut Vec<ByteLookupEvent>,
    s: &[u32; 8],
    w: u32,
    k: u32,
) -> (temp1: u32)
    ensures
        temp1 == chip_temp1(s@, w, k),
        felts_view(final(row)@) == felts_view(old(row)@) + round_cols_e(s@, w, k),
        final(events)@ == old(events)@ + round_lookups_e(s@),
{
    let e = s[4];
    let f = s[5];
    let g = s[6];
    let h = s[7];
    let ghost r0 = felts_view(row@);
    let ghost l0 = events@;
    let e_rr_6 = FixedRotateRightOperation::<Felt>::populate(row, events, e, 6);
    let ghost mut cols = rotate_cols(e, 6);
    let ghost mut looks = rotate_lookups(e, 6);
    let e_rr_11 = FixedRotateRightOperation::<Felt>::populate(row, events, e, 11);
    proof {
        lemma_concat_assoc(r0, cols, rotate_cols(e, 11));
        lemma_concat_assoc(l0, looks, rotate_lookups(e, 11));
        cols = cols + rotate_cols(e, 11);
        looks = looks + rotate_lookups(e, 11);
    }
    let e_rr_25 = FixedRotateRightOperation::<Felt>::populate(row, events, e, 25);
    proof {
        lemma_concat_assoc(r0, cols, rotate_cols(e, 25));
        lemma_concat_assoc(l0, looks, rotate_lookups(e, 25));
        cols = cols + rotate_cols(e, 25);
        looks = looks + rotate_lookups(e, 25);
    }
    let s1_intermediate = XorOperation::<Felt>::populate(row, events, e_rr_6, e_rr_11);
    proof {
        lemma_concat_assoc(r0, cols, bytewise_cols(ByteOpcode::XOR, e_rr_6, e_rr_11));
        lemma_concat_assoc(l0, looks, bytewise_lookups(ByteOpcode::XOR, e_rr_6, e_rr_11));
        cols = cols + bytewise_cols(ByteOpcode::XOR, e_rr_6, e_rr_11);
        looks = looks + bytewise_lookups(ByteOpcode::XOR, e_rr_6, e_rr_11);
    }
    let s1 = XorOperation::<Felt>::populate(row, events, s1_intermediate, e_rr_25);
    proof {
        lemma_concat_assoc(r0, cols, bytewise_cols(ByteOpcode::XOR, s1_intermediate, e_rr_25));
        lemma_concat_assoc(
            l0,
            looks,
            bytewise_lookups(ByteOpcode::XOR, s1_intermediate, e_rr_25),
        );
        cols = cols + bytewise_cols(ByteOpcode::XOR, s1_intermediate, e_rr_25);
        looks = looks + bytewise_lookups(ByteOpcode::XOR, s1_intermediate, e_rr_25);
    }
    let e_and_f = AndOperation::<Felt>::populate(row, events, e, f);
    proof {
        lemma_concat_assoc(r0, cols, bytewise_cols(ByteOpcode::AND, e, f));
        lemma_concat_assoc(l0, looks, bytewise_lookups(ByteOpcode::AND, e, f));
        cols = cols + bytewise_cols(ByteOpcode::AND, e, f);
        looks = looks + bytewise_lookups(ByteOpcode::AND, e, f);
    }
    let e_not = NotOperation::<Felt>::populate(row, events, e);
    proof {
        lemma_concat_assoc(r0, cols, not_cols(e));
        lemma_concat_assoc(l0, looks, not_lookups(e));
        cols = cols + not_cols(e);
        looks = looks + not_lookups(e);
    }
    let e_not_and_g = AndOperation::<Felt>::populate(row, events, e_not, g);
    proof {
        lemma_concat_assoc(r0, cols, bytewise_cols(ByteOpcode::AND, e_not, g));
        lemma_concat_assoc(l0, looks, bytewise_lookups(ByteOpcode::AND, e_not, g));
        cols = cols + bytewise_cols(ByteOpcode::AND, e_not, g);
        looks = looks + bytewise_lookups(ByteOpcode::AND, e_not, g);
    }
    let ch = XorOperation::<Felt>::populate(row, events, e_and_f, e_not_and_g);
    proof {
        lemma_concat_assoc(r0, cols, bytewise_cols(ByteOpcode::XOR, e_and_f, e_not_and_g));
        lemma_concat_assoc(l0, looks, bytewise_lookups(ByteOpcode::XOR, e_and_f, e_not_and_g));
        cols = cols + bytewise_cols(ByteOpcode::XOR, e_and_f, e_not_and_g);
        looks = looks + bytewise_lookups(ByteOpcode::XOR, e_and_f, e_not_and_g);
    }
    // Only the value of `temp1` is filled in: the sum of five words is not
    // constrained by this chip.
    let temp1 = add_words(add_words(add_words(add_words(h, s1), ch), w), k);
    push_word(row, temp1);
    proof {
        lemma_concat_assoc(r0, cols, le_bytes(temp1 as int));
        cols = cols + le_bytes(temp1 as int);
    }
    push_zeros(row, 24);
    proof {
        lemma_concat_assoc(r0, cols, zeros(24));
        cols = cols + zeros(24);
        reveal(round_cols_e);
        reveal(round_lookups_e);
        assert(s1 == big_sigma1(e));
        assert(ch == choose_bits(e, f, g));
        assert(cols == round_cols_e(s@, w, k));
        assert(looks == round_lookups_e(s@));
    }
    temp1
}

/// The operations of a round on `a`, `b`, `c` and `d` and the sums that
/// close the round: appends their columns and lookups, and gives the new
/// `a` and the new `e`.
fn populate_round_a(
    row: &mut Vec<Felt>,
    events: &mut Vec<ByteLookupEvent>,
    s: &[u32; 8],
    temp1: u32,
) -> (r: (u32, u32))
    ensures
        r.0 == add32(temp1, round_temp2(s@)),
        r.1 == add32(s@[3], temp1),
        felts_view(final(row)@) == felts_view(old(row)@) + round_cols_a(s@, temp1),
        final(events)@ == old(events)@ + round_lookups_a(s@, temp1),
{
    let a = s[0];
    let b = s[1];
    let c = s[2];
    let d = s[3];
    let ghost r0 = felts_view(row@);
    let ghost l0 = events@;
    let a_rr_2 = FixedRotateRightOperation::<Felt>::populate(row, events, a, 2);
    let ghost mut cols = rotate_cols(a, 2);
    let ghost mut looks = rotate_lookups(a, 2);
    let a_rr_13 = FixedRotateRightOperation::<Felt>::populate(row, events, a, 13);
    proof {
        lemma_concat_assoc(r0, cols, rotate_cols(a, 13));
        lemma_concat_assoc(l0, looks, rotate_lookups(a, 13));
        cols = cols + rotate_cols(a, 13);
        looks = looks + rotate_lookups(a, 13);
    }
    let a_rr_22 = FixedRotateRightOperation::<Felt>::populate(row, events, a, 22);
    proof {
        lemma_concat_assoc(r0, cols, rotate_cols(a, 22));
        lemma_concat_assoc(l0, looks, rotate_lookups(a, 22));
        cols = cols + rotate_cols(a, 22);
        looks = looks + rotate_lookups(a, 22);
    }
    let s0_intermediate = XorOperation::<Felt>::populate(row, events, a_rr_2, a_rr_13);
    proof {
        lemma_concat_assoc(r0, cols, bytewise_cols(ByteOpcode::XOR, a_rr_2, a_rr_13));
        lemma_concat_assoc(l0, looks, bytewise_lookups(ByteOpcode::XOR, a_rr_2, a_rr_13));
        cols = cols + bytewise_cols(ByteOpcode::XOR, a_rr_2, a_rr_13);
        looks = looks + bytewise_lookups(ByteOpcode::XOR, a_rr_2, a_rr_13);
    }
    let s0 = XorOperation::<Felt>::populate(row, events, s0_intermediate, a_rr_22);
    proof {
        lemma_concat_assoc(r0, cols, bytewise_cols(ByteOpcode::XOR, s0_intermediate, a_rr_22));
        lemma_concat_assoc(
            l0,
            looks,
            bytewise_lookups(ByteOpcode::XOR, s0_intermediate, a_rr_22),
        );
        cols = cols + bytewise_cols(ByteOpcode::XOR, s0_intermediate, a_rr_22);
        looks = looks + bytewise_lookups(ByteOpcode::XOR, s0_intermediate, a_rr_22);
    }
    let a_and_b = AndOperation::<Felt>::populate(row, events, a, b);
    proof {
        lemma_concat_assoc(r0, cols, bytewise_cols(ByteOpcode::AND, a, b));
        lemma_concat_assoc(l0, looks, bytewise_lookups(ByteOpcode::AND, a, b));
        cols = cols + bytewise_cols(ByteOpcode::AND, a, b);
        looks = looks + bytewise_lookups(ByteOpcode::AND, a, b);
    }
    let a_and_c = AndOperation::<Felt>::populate(row, events, a, c);
    proof {
        lemma_concat_assoc(r0, cols, bytewise_cols(ByteOpcode::AND, a, c));
        lemma_concat_assoc(l0, looks, bytewise_lookups(ByteOpcode::AND, a, c));
        cols = cols + bytewise_cols(ByteOpcode::AND, a, c);
        looks = looks + bytewise_lookups(ByteOpcode::AND, a, c);
    }
    let b_and_c = AndOperation::<Felt>::populate(row, events, b, c);
    proof {
        lemma_concat_assoc(r0, cols, bytewise_cols(ByteOpcode::AND, b, c));
        lemma_concat_assoc(l0, looks, bytewise_lookups(ByteOpcode::AND, b, c));
        cols = cols + bytewise_cols(ByteOpcode::AND, b, c);
        looks = looks + bytewise_lookups(ByteOpcode::AND, b, c);
    }
    let maj_intermediate = XorOperation::<Felt>::populate(row, events, a_and_b, a_and_c);
    proof {
        lemma_concat_assoc(r0, cols, bytewise_cols(ByteOpcode::XOR, a_and_b, a_and_c));
        lemma_concat_assoc(l0, looks, bytewise_lookups(ByteOpcode::XOR, a_and_b, a_and_c));
        cols = cols + bytewise_cols(ByteOpcode::XOR, a_and_b, a_and_c);
        looks = looks + bytewise_lookups(ByteOpcode::XOR, a_and_b, a_and_c);
    }
    let maj = XorOperation::<Felt>::populate(row, events, maj_intermediate, b_and_c);
    proof {
        lemma_concat_assoc(r0, cols, bytewise_cols(ByteOpcode::XOR, maj_intermediate, b_and_c));
        lemma_concat_assoc(
            l0,
            looks,
            bytewise_lookups(ByteOpcode::XOR, maj_intermediate, b_and_c),
        );
        cols = cols + bytewise_cols(ByteOpcode::XOR, maj_intermediate, b_and_c);
        looks = looks + bytewise_lookups(ByteOpcode::XOR, maj_intermediate, b_and_c);
    }
    let temp2 = AddOperation::<Felt>::populate(row, events, s0, maj);
    proof {
        lemma_concat_assoc(r0, cols, add_cols(s0, maj));
        lemma_concat_assoc(l0, looks, add_lookups(s0, maj));
        cols = cols + add_cols(s0, maj);
        looks = looks + add_lookups(s0, maj);
    }
    let d_add_temp1 = AddOperation::<Felt>::populate(row, events, d, temp1);
    proof {
        lemma_concat_assoc(r0, cols, add_cols(d, temp1));
        lemma_concat_assoc(l0, looks, add_lookups(d, temp1));
        cols = cols + add_cols(d, temp1);
        looks = looks + add_lookups(d, temp1);
    }
    let temp1_add_temp2 = AddOperation::<Felt>::populate(row, events, temp1, temp2);
    proof {
        lemma_concat_assoc(r0, cols, add_cols(temp1, temp2));
        lemma_concat_assoc(l0, looks, add_lookups(temp1, temp2));
        cols = cols + add_cols(temp1, temp2);
        looks = looks + add_lookups(temp1, temp2);
        reveal(round_cols_a);
        reveal(round_lookups_a);
        assert(s0 == big_sigma0(a));
        assert(maj == majority(a, b, c));
        assert(cols == round_cols_a(s@, temp1));
        assert(looks == round_lookups_a(s@, temp1));
    }
    (temp1_add_temp2, d_add_temp1)
}

/// The operations of one round: appends their columns and lookups, and
/// gives the working variables after the round.
fn populate_round(
    row: &mut Vec<Felt>,
    events: &mut Vec<ByteLookupEvent>,
    s: &[u32; 8],
    w: u32,
    k: u32,
) -> (r: [u32; 8])
    ensures
        r@ == round(s@, w, k),
        felts_view(final(row)@) == felts_view(old(row)@) + round_cols(s@, w, k),
        final(events)@ == old(events)@ + round_lookups(s@, w, k),
{
    let ghost r0 = felts_view(row@);
    let ghost l0 = events@;
    let temp1 = populate_round_e(row, events, s, w, k);
    let (new_a, new_e) = populate_round_a(row, events, s, temp1);
    let r = [new_a, s[0], s[1], s[2], new_e, s[4], s[5], s[6]];
    proof {
        lemma_chip_round(s@, w, k);
        lemma_concat_assoc(r0, round_cols_e(s@, w, k), round_cols_a(s@, temp1));
        lemma_concat_assoc(l0, round_lookups_e(s@), round_lookups_a(s@, temp1));
        assert(r@ =~= round(s@, w, k));
    }
    r
}

/// The columns that every row of an event starts with: the shard, the
/// clock, the two pointers, and whether the row is the first of the event.
pub open spec fn header_cols(e: &ShaCompressEvent, start: int) -> Seq<int> {
    seq![e.shard as int, e.clk as int, e.w_ptr as int, e.h_ptr as int, start]
}

/// The hash state as far as the first `j + 1` rows have loaded it.
pub open spec fn loaded(h: Seq<u32>, j: int) -> Seq<u32> {
    Seq::new(
        8,
        |i: int|
            if i <= j {
                h[i]
            } else {
                0u32
            },
    )
}

/// The working variables of an event after all rounds.
pub open spec fn final_state(e: &ShaCompressEvent) -> Seq<u32> {
    rounds(e.h@, e.w@, SHA_COMPRESS_K@, 64)
}

/// Row `j` of the eight rows that load the hash state.
#[verifier::opaque]
pub open spec fn load_row(e: &ShaCompressEvent, j: int) -> Seq<int> {
    header_cols(
        e,
        if j == 0 {
            1
        } else {
            0
        },
    ) + one_hot(8, j) + one_hot(10, 0) + access_cols(read_access(e.h_read_records@[j])) + seq![
        e.h_ptr + 4 * j,
    ] + words_cols(loaded(e.h@, j)) + zeros(184) + seq![0int, 1int]
}

/// Row `j` of the sixty-four rows that run the rounds.
#[verifier::opaque]
pub open spec fn compress_row(e: &ShaCompressEvent, j: int) -> Seq<int> {
    let s = rounds(e.h@, e.w@, SHA_COMPRESS_K@, j);
    header_cols(e, 0) + one_hot(8, j % 8) + one_hot(10, 1 + j / 8) + access_cols(
        read_access(e.w_i_read_records@[j]),
    ) + seq![e.w_ptr + 4 * j] + words_cols(s) + round_cols(s, e.w@[j], SHA_COMPRESS_K@[j])
        + zeros(11) + seq![1int, 1int]
}

/// Row `j` of the eight rows that add the working variables to the hash
/// state and store it.
#[verifier::opaque]
pub open spec fn store_row(e: &ShaCompressEvent, j: int) -> Seq<int> {
    let v = final_state(e);
    header_cols(e, 0) + one_hot(8, j) + one_hot(10, 9) + access_cols(
        write_access(e.h_write_records@[j]),
    ) + seq![e.h_ptr + 4 * j] + words_cols(v) + zeros(173) + le_bytes(v[j] as int) + add_cols(
        e.h@[j],
        v[j],
    ) + seq![0int, 1int]
}

/// Row `r` of the eighty rows of an event.
pub open spec fn event_row(e: &ShaCompressEvent, r: int) -> Seq<int> {
    if r < 8 {
        load_row(e, r)
    } else if r < 72 {
        compress_row(e, r - 8)
    } else {
        store_row(e, r - 72)
    }
}

/// The lookups that row `r` of an event rests on.
pub open spec fn row_lookups(e: &ShaCompressEvent, r: int) -> Seq<ByteLookupEvent> {
    if r < 8 {
        access_lookups(read_access(e.h_read_records@[r]))
    } else if r < 72 {
        access_lookups(read_access(e.w_i_read_records@[r - 8])) + round_lookups(
            rounds(e.h@, e.w@, SHA_COMPRESS_K@, r - 8),
            e.w@[r - 8],
            SHA_COMPRESS_K@[r - 8],
        )
    } else {
        access_lookups(write_access(e.h_write_records@[r - 72])) + add_lookups(
            e.h@[r - 72],
            final_state(e)[r - 72],
        )
    }
}

/// The lookups that the first `n` rows of an event rest on.
pub open spec fn rows_lookups(e: &ShaCompressEvent, n: nat) -> Seq<ByteLookupEvent>
    decreases n,
{
    if n == 0 {
        Seq::empty()
    } else {
        rows_lookups(e, (n - 1) as nat) + row_lookups(e, n - 1)
    }
}

/// The lookups that the rows of the events rest on, event by event.
pub open spec fn sha_lookups(es: Seq<ShaCompressEvent>) -> Seq<ByteLookupEvent>
    decreases es.len(),
{
    if es.len() == 0 {
        Seq::empty()
    } else {
        sha_lookups(es.drop_last()) + rows_lookups(&es.last(), 80)
    }
}

/// The event has the shape that the chip asks for: the schedule and the
/// records are complete, and whatever goes into a column is a canonical
/// field element.
pub open spec fn event_fits(e: &ShaCompressEvent) -> bool {
    &&& e.shard < P
    &&& e.clk < P
    &&& e.w_ptr + 256 < P
    &&& e.h_ptr + 32 < P
    &&& e.w@.len() == 64
    &&& e.h_read_records@.len() == 8
    &&& e.w_i_read_records@.len() == 64
    &&& e.h_write_records@.len() == 8
    &&& forall|j: int|
        0 <= j < 8 ==> access_fits(read_access(#[trigger] e.h_read_records@[j]))
    &&& forall|j: int|
        0 <= j < 64 ==> access_fits(read_access(#[trigger] e.w_i_read_records@[j]))
    &&& forall|j: int|
        0 <= j < 8 ==> access_fits(write_access(#[trigger] e.h_write_records@[j]))
    &&& forall|j: int| 0 <= j < 8 ==> (#[trigger] e.h_read_records@[j]).value == e.h@[j]
}

/// Whether the event has the shape that the chip asks for.
pub fn event_fits_check(e: &ShaCompressEvent) -> (r: bool)
    ensures
        r == event_fits(e),
{
    if e.shard >= P || e.clk >= P || e.w_ptr >= P - 256 || e.h_ptr >= P - 32 || e.w.len() != 64
        || e.h_read_records.len() != 8 || e.w_i_read_records.len() != 64
        || e.h_write_records.len() != 8 {
        return false;
    }
    let mut j: usize = 0;
    while j < 8
        invariant
            j <= 8,
            e.h_read_records@.len() == 8,
            e.h_write_records@.len() == 8,
            forall|k: int| 0 <= k < j ==> access_fits(read_access(#[trigger] e.h_read_records@[k])),
            forall|k: int|
                0 <= k < j ==> access_fits(write_access(#[trigger] e.h_write_records@[k])),
            forall|k: int| 0 <= k < j ==> (#[trigger] e.h_read_records@[k]).value == e.h@[k],
        decreases 8 - j,
    {
        let r = &e.h_read_records[j];
        let w = &e.h_write_records[j];
        if r.prev_shard >= P || r.prev_timestamp >= P || w.prev_shard >= P || w.prev_timestamp
            >= P || r.value != e.h[j] {
            proof {
                assert(!(access_fits(read_access(e.h_read_records@[j as int])) && access_fits(
                    write_access(e.h_write_records@[j as int]),
                ) && e.h_read_records@[j as int].value == e.h@[j as int]));
            }
            return false;
        }
        j = j + 1;
    }
    let mut j: usize = 0;
    while j < 64
        invariant
            j <= 64,
            e.w_i_read_records@.len() == 64,
            forall|k: int|
                0 <= k < j ==> access_fits(read_access(#[trigger] e.w_i_read_records@[k])),
        decreases 64 - j,
    {
        let r = &e.w_i_read_records[j];
        if r.prev_shard >= P || r.prev_timestamp >= P {
            proof {
                assert(!access_fits(read_access(e.w_i_read_records@[j as int])));
            }
            return false;
        }
        j = j + 1;
    }
    true
}

/// Whether every event has the shape that the chip asks for.
pub fn events_fit_check(es: &Vec<ShaCompressEvent>) -> (r: bool)
    ensures
        r == events_fit(es@),
{
    let mut i: usize = 0;
    while i < es.len()
        invariant
            i <= es@.len(),
            forall|k: int| 0 <= k < i ==> event_fits(#[trigger] &es@[k]),
        decreases es@.len() - i,
    {
        if !event_fits_check(&es[i]) {
            return false;
        }
        i = i + 1;
    }
    true
}

/// Appends the columns that every row of an event starts with, and the
/// flags of its place among the eighty rows.
fn push_header(row: &mut Vec<Felt>, e: &ShaCompressEvent, start: bool, octet: usize, octet_num: usize)
    requires
        e.shard < P,
        e.clk < P,
        e.w_ptr < P,
        e.h_ptr < P,
        old(row)@.len() == 0,
        octet < 8,
        octet_num < 10,
    ensures
        felts_view(final(row)@) == header_cols(
            e,
            if start {
                1
            } else {
                0
            },
        ) + one_hot(8, octet as int) + one_hot(10, octet_num as int),
{
    row.push(Felt::from_canonical_u32(e.shard));
    row.push(Felt::from_canonical_u32(e.clk));
    row.push(Felt::from_canonical_u32(e.w_ptr));
    row.push(Felt::from_canonical_u32(e.h_ptr));
    row.push(Felt::from_bool(start));
    let mut i: usize = 0;
    while i < 8
        invariant
            i <= 8,
            octet < 8,
            row@.len() == 5 + i,
            felts_view(row@) == header_cols(
                e,
                if start {
                    1
                } else {
                    0
                },
            ) + one_hot(8, octet as int).subrange(0, i as int),
        decreases 8 - i,
    {
        let ghost before = row@;
        let f = Felt::from_bool(i == octet);
        row.push(f);
        i = i + 1;
        proof {
            lemma_felts_view_push(before, f);
            assert(felts_view(row@) =~= header_cols(
                e,
                if start {
                    1
                } else {
                    0
                },
            ) + one_hot(8, octet as int).subrange(0, i as int));
        }
    }
    assert(one_hot(8, octet as int).subrange(0, 8) =~= one_hot(8, octet as int));
    let ghost mid = felts_view(row@);
    let mut i: usize = 0;
    while i < 10
        invariant
            i <= 10,
            octet_num < 10,
            row@.len() == 13 + i,
            felts_view(row@) == mid + one_hot(10, octet_num as int).subrange(0, i as int),
        decreases 10 - i,
    {
        let ghost before = row@;
        let f = Felt::from_bool(i == octet_num);
        row.push(f);
        i = i + 1;
        proof {
            lemma_felts_view_push(before, f);
            assert(felts_view(row@) =~= mid + one_hot(10, octet_num as int).subrange(
                0,
                i as int,
            ));
        }
    }
    assert(one_hot(10, octet_num as int).subrange(0, 10) =~= one_hot(10, octet_num as int));
}

/// Appends the bytes of eight words.
fn push_words(row: &mut Vec<Felt>, v: &[u32; 8])
    ensures
        felts_view(final(row)@) == felts_view(old(row)@) + words_cols(v@),
{
    let ghost r0 = felts_view(row@);
    push_word(row, v[0]);
    let ghost mut cols = le_bytes(v[0] as int);
    push_word(row, v[1]);
    proof {
        lemma_concat_assoc(r0, cols, le_bytes(v[1] as int));
        cols = cols + le_bytes(v[1] as int);
    }
    push_word(row, v[2]);
    proof {
        lemma_concat_assoc(r0, cols, le_bytes(v[2] as int));
        cols = cols + le_bytes(v[2] as int);
    }
    push_word(row, v[3]);
    proof {
        lemma_concat_assoc(r0, cols, le_bytes(v[3] as int));
        cols = cols + le_bytes(v[3] as int);
    }
    push_word(row, v[4]);
    proof {
        lemma_concat_assoc(r0, cols, le_bytes(v[4] as int));
        cols = cols + le_bytes(v[4] as int);
    }
    push_word(row, v[5]);
    proof {
        lemma_concat_assoc(r0, cols, le_bytes(v[5] as int));
        cols = cols + le_bytes(v[5] as int);
    }
    push_word(row, v[6]);
    proof {
        lemma_concat_assoc(r0, cols, le_bytes(v[6] as int));
        cols = cols + le_bytes(v[6] as int);
    }
    push_word(row, v[7]);
    proof {
        lemma_concat_assoc(r0, cols, le_bytes(v[7] as int));
        cols = cols + le_bytes(v[7] as int);
        assert(cols == words_cols(v@));
    }
}

/// Appends one element to a row.
fn push_one(row: &mut Vec<Felt>, x: Felt)
    ensures
        felts_view(final(row)@) == felts_view(old(row)@) + seq![x@],
{
    row.push(x);
    assert(felts_view(row@) =~= felts_view(old(row)@) + seq![x@]);
}

/// Row `j` of the rows that load the hash state.
fn make_load_row(e: &ShaCompressEvent, j: usize, events: &mut Vec<ByteLookupEvent>) -> (row: Vec<
    Felt,
>)
    requires
        event_fits(e),
        j < 8,
    ensures
        felts_view(row@) == load_row(e, j as int),
        final(events)@ == old(events)@ + row_lookups(e, j as int),
{
    proof {
        reveal(load_row);
    }
    let mut row: Vec<Felt> = Vec::new();
    push_header(&mut row, e, j == 0, j, 0);
    let ghost mut cols = felts_view(row@);
    let ghost r0 = Seq::<int>::empty();
    populate_read(&mut row, events, &e.h_read_records[j]);
    proof {
        cols = cols + access_cols(read_access(e.h_read_records@[j as int]));
    }
    let addr = Felt::from_canonical_u32(e.h_ptr + (j as u32) * 4);
    push_one(&mut row, addr);
    proof {
        cols = cols + seq![e.h_ptr + 4 * j];
    }
    let mut v = [0u32; 8];
    let mut i: usize = 0;
    while i <= j
        invariant
            i <= j + 1,
            j < 8,
            forall|k: int| 0 <= k < 8 ==> v@[k] == (if k < i {
                e.h@[k]
            } else {
                0u32
            }),
        decreases j + 1 - i,
    {
        v[i] = e.h[i];
        i = i + 1;
    }
    assert(v@ =~= loaded(e.h@, j as int));
    push_words(&mut row, &v);
    proof {
        cols = cols + words_cols(loaded(e.h@, j as int));
    }
    push_zeros(&mut row, 184);
    proof {
        cols = cols + zeros(184);
    }
    push_one(&mut row, Felt::zero());
    push_one(&mut row, Felt::one());
    proof {
        assert(felts_view(row@) =~= cols + seq![0int, 1int]);
    }
    row
}

/// Row `j` of the rows that run the rounds, and the working variables
/// after the round.
fn make_compress_row(
    e: &ShaCompressEvent,
    j: usize,
    s: &[u32; 8],
    events: &mut Vec<ByteLookupEvent>,
) -> (r: (Vec<Felt>, [u32; 8]))
    requires
        event_fits(e),
        j < 64,
        s@ == rounds(e.h@, e.w@, SHA_COMPRESS_K@, j as int),
    ensures
        felts_view(r.0@) == compress_row(e, j as int),
        r.1@ == rounds(e.h@, e.w@, SHA_COMPRESS_K@, j + 1),
        final(events)@ == old(events)@ + row_lookups(e, 8 + j),
{
    proof {
        reveal(compress_row);
    }
    let mut row: Vec<Felt> = Vec::new();
    push_header(&mut row, e, false, j % 8, 1 + j / 8);
    let ghost mut cols = felts_view(row@);
    let ghost l0 = events@;
    populate_read(&mut row, events, &e.w_i_read_records[j]);
    proof {
        cols = cols + access_cols(read_access(e.w_i_read_records@[j as int]));
    }
    let addr = Felt::from_canonical_u32(e.w_ptr + (j as u32) * 4);
    push_one(&mut row, addr);
    proof {
        cols = cols + seq![e.w_ptr + 4 * j];
    }
    push_words(&mut row, s);
    proof {
        cols = cols + words_cols(s@);
    }
    let next = populate_round(&mut row, events, s, e.w[j], SHA_COMPRESS_K[j]);
    proof {
        assert(rounds(e.h@, e.w@, SHA_COMPRESS_K@, j + 1) == round(
            rounds(e.h@, e.w@, SHA_COMPRESS_K@, j as int),
            e.w@[j as int],
            SHA_COMPRESS_K@[j as int],
        ));
        cols = cols + round_cols(s@, e.w@[j as int], SHA_COMPRESS_K@[j as int]);
        lemma_concat_assoc(
            l0,
            access_lookups(read_access(e.w_i_read_records@[j as int])),
            round_lookups(s@, e.w@[j as int], SHA_COMPRESS_K@[j as int]),
        );
    }
    push_zeros(&mut row, 11);
    proof {
        cols = cols + zeros(11);
    }
    push_one(&mut row, Felt::one());
    push_one(&mut row, Felt::one());
    proof {
        assert(felts_view(row@) =~= cols + seq![1int, 1int]);
    }
    (row, next)
}

/// Row `j` of the rows that add the working variables to the hash state
/// and store it.
fn make_store_row(
    e: &ShaCompressEvent,
    j: usize,
    v: &[u32; 8],
    events: &mut Vec<ByteLookupEvent>,
) -> (row: Vec<Felt>)
    requires
        event_fits(e),
        j < 8,
        v@ == final_state(e),
    ensures
        felts_view(row@) == store_row(e, j as int),
        final(events)@ == old(events)@ + row_lookups(e, 72 + j),
{
    proof {
        reveal(store_row);
    }
    let mut row: Vec<Felt> = Vec::new();
    push_header(&mut row, e, false, j, 9);
    let ghost mut cols = felts_view(row@);
    let ghost l0 = events@;
    populate_write(&mut row, events, &e.h_write_records[j]);
    proof {
        cols = cols + access_cols(write_access(e.h_write_records@[j as int]));
    }
    let addr = Felt::from_canonical_u32(e.h_ptr + (j as u32) * 4);
    push_one(&mut row, addr);
    proof {
        cols = cols + seq![e.h_ptr + 4 * j];
    }
    push_words(&mut row, v);
    proof {
        cols = cols + words_cols(v@);
    }
    push_zeros(&mut row, 173);
    proof {
        cols = cols + zeros(173);
    }
    push_word(&mut row, v[j]);
    proof {
        cols = cols + le_bytes(v@[j as int] as int);
    }
    let _ = AddOperation::<Felt>::populate(&mut row, events, e.h[j], v[j]);
    proof {
        cols = cols + add_cols(e.h@[j as int], v@[j as int]);
        lemma_concat_assoc(
            l0,
            access_lookups(write_access(e.h_write_records@[j as int])),
            add_lookups(e.h@[j as int], v@[j as int]),
        );
    }
    push_one(&mut row, Felt::zero());
    push_one(&mut row, Felt::one());
    proof {
        assert(felts_view(row@) =~= cols + seq![0int, 1int]);
    }
    row
}

proof fn lemma_load_row_len(e: &ShaCompressEvent, j: int)
    ensures
        load_row(e, j).len() == 255,
{
    reveal(load_row);
    let a = header_cols(
        e,
        if j == 0 {
            1
        } else {
            0
        },
    ) + one_hot(8, j) + one_hot(10, 0);
    assert(a.len() == 23);
    let b = a + access_cols(read_access(e.h_read_records@[j])) + seq![e.h_ptr + 4 * j];
    assert(b.len() == 37);
    let c = b + words_cols(loaded(e.h@, j));
    assert(words_cols(loaded(e.h@, j)).len() == 32);
    assert(c.len() == 69);
}

proof fn lemma_compress_row_len(e: &ShaCompressEvent, j: int)
    ensures
        compress_row(e, j).len() == 255,
{
    reveal(compress_row);
    let s = rounds(e.h@, e.w@, SHA_COMPRESS_K@, j);
    lemma_round_cols_len(s, e.w@[j], SHA_COMPRESS_K@[j]);
    let a = header_cols(e, 0) + one_hot(8, j % 8) + one_hot(10, 1 + j / 8);
    assert(a.len() == 23);
    let b = a + access_cols(read_access(e.w_i_read_records@[j])) + seq![e.w_ptr + 4 * j];
    assert(b.len() == 37);
    assert(words_cols(s).len() == 32);
    let c = b + words_cols(s);
    assert(c.len() == 69);
    let d = c + round_cols(s, e.w@[j], SHA_COMPRESS_K@[j]);
    assert(d.len() == 242);
}

proof fn lemma_store_row_len(e: &ShaCompressEvent, j: int)
    ensures
        store_row(e, j).len() == 255,
{
    reveal(store_row);
    let v = final_state(e);
    let a = header_cols(e, 0) + one_hot(8, j) + one_hot(10, 9);
    assert(a.len() == 23);
    let b = a + access_cols(write_access(e.h_write_records@[j])) + seq![e.h_ptr + 4 * j];
    assert(b.len() == 37);
    assert(words_cols(v).len() == 32);
    let c = b + words_cols(v);
    assert(c.len() == 69);
    let d = c + zeros(173) + le_bytes(v[j] as int);
    assert(d.len() == 246);
    assert(add_cols(e.h@[j], v[j]).len() == 7);
}

/// Every row of an event fills all columns of the chip.
pub proof fn lemma_event_row_len(e: &ShaCompressEvent, r: int)
    requires
        0 <= r < 80,
    ensures
        event_row(e, r).len() == NUM_SHA_COMPRESS_COLS,
{
    if r < 8 {
        lemma_load_row_len(e, r);
    } else if r < 72 {
        lemma_compress_row_len(e, r - 8);
    } else {
        lemma_store_row_len(e, r - 72);
    }
}

/// Appends the eighty rows of an event to the rows that `values` holds,
/// and the lookups that they rest on to `lookups`.
fn append_event_rows(
    values: &mut Vec<Felt>,
    e: &ShaCompressEvent,
    lookups: &mut Vec<ByteLookupEvent>,
    count: usize,
)
    requires
        event_fits(e),
        old(values)@.len() == count * 255,
        count + 80 <= usize::MAX,
    ensures
        final(values)@.len() == (count + 80) * 255,
        forall|k: int|
            0 <= k < count ==> #[trigger] final(values)@.subrange(k * 255, (k + 1) * 255) == old(
                values,
            )@.subrange(k * 255, (k + 1) * 255),
        forall|r: int|
            0 <= r < 80 ==> felts_view(
                #[trigger] final(values)@.subrange((count + r) * 255, (count + r + 1) * 255),
            ) == event_row(e, r),
        final(lookups)@ == old(lookups)@ + rows_lookups(e, 80),
{
    let ghost l0 = lookups@;
    let ghost v0 = values@;
    // Load a, b, c, d, e, f, g, h.
    let mut j: usize = 0;
    while j < 8
        invariant
            j <= 8,
            event_fits(e),
            v0.len() == count * 255,
            count + 80 <= usize::MAX,
            values@.len() == (count + j) * 255,
            forall|k: int|
                0 <= k < count ==> #[trigger] values@.subrange(k * 255, (k + 1) * 255)
                    == v0.subrange(k * 255, (k + 1) * 255),
            forall|r: int|
                0 <= r < j ==> felts_view(
                    #[trigger] values@.subrange((count + r) * 255, (count + r + 1) * 255),
                ) == event_row(e, r),
            lookups@ == l0 + rows_lookups(e, j as nat),
        decreases 8 - j,
    {
        let ghost done = rows_lookups(e, j as nat);
        let row = make_load_row(e, j, lookups);
        proof {
            lemma_event_row_len(e, j as int);
            lemma_concat_assoc(l0, done, row_lookups(e, j as int));
        }
        append_row(values, &row, NUM_SHA_COMPRESS_COLS, count + j);
        j = j + 1;
    }
    // Perform the compress operation.
    let mut s = e.h;
    let mut j: usize = 0;
    while j < 64
        invariant
            j <= 64,
            event_fits(e),
            v0.len() == count * 255,
            count + 80 <= usize::MAX,
            values@.len() == (count + 8 + j) * 255,
            s@ == rounds(e.h@, e.w@, SHA_COMPRESS_K@, j as int),
            forall|k: int|
                0 <= k < count ==> #[trigger] values@.subrange(k * 255, (k + 1) * 255)
                    == v0.subrange(k * 255, (k + 1) * 255),
            forall|r: int|
                0 <= r < 8 + j ==> felts_view(
                    #[trigger] values@.subrange((count + r) * 255, (count + r + 1) * 255),
                ) == event_row(e, r),
            lookups@ == l0 + rows_lookups(e, (8 + j) as nat),
        decreases 64 - j,
    {
        let ghost done = rows_lookups(e, (8 + j) as nat);
        let (row, next) = make_compress_row(e, j, &s, lookups);
        proof {
            lemma_event_row_len(e, 8 + j);
            lemma_concat_assoc(l0, done, row_lookups(e, 8 + j));
        }
        append_row(values, &row, NUM_SHA_COMPRESS_COLS, count + 8 + j);
        s = next;
        j = j + 1;
    }
    // Store a, b, c, d, e, f, g, h.
    let mut j: usize = 0;
    while j < 8
        invariant
            j <= 8,
            event_fits(e),
            v0.len() == count * 255,
            count + 80 <= usize::MAX,
            values@.len() == (count + 72 + j) * 255,
            s@ == final_state(e),
            forall|k: int|
                0 <= k < count ==> #[trigger] values@.subrange(k * 255, (k + 1) * 255)
                    == v0.subrange(k * 255, (k + 1) * 255),
            forall|r: int|
                0 <= r < 72 + j ==> felts_view(
                    #[trigger] values@.subrange((count + r) * 255, (count + r + 1) * 255),
                ) == event_row(e, r),
            lookups@ == l0 + rows_lookups(e, (72 + j) as nat),
        decreases 8 - j,
    {
        let ghost done = rows_lookups(e, (72 + j) as nat);
        let row = make_store_row(e, j, &s, lookups);
        proof {
            lemma_event_row_len(e, 72 + j);
            lemma_concat_assoc(l0, done, row_lookups(e, 72 + j));
        }
        append_row(values, &row, NUM_SHA_COMPRESS_COLS, count + 72 + j);
        j = j + 1;
    }
}

/// All events have the shape that the chip asks for.
pub open spec fn events_fit(es: Seq<ShaCompressEvent>) -> bool {
    forall|i: int| 0 <= i < es.len() ==> event_fits(#[trigger] &es[i])
}

impl ShaCompressChip {
    /// The name of the chip.
    pub fn name(&self) -> (r: String)
        ensures
            r@ == "ShaCompress"@,
    {
        "ShaCompress".to_string()
    }

    /// The number of columns of the main trace.
    pub fn width(&self) -> (r: usize)
        ensures
            r == NUM_SHA_COMPRESS_COLS,
    {
        NUM_SHA_COMPRESS_COLS
    }

    /// Whether the shard needs the table of this chip at all.
    pub fn included(&self, shard: &ExecutionRecord) -> (r: bool)
        ensures
            r == (shard.sha_compress_events@.len() > 0),
    {
        shard.sha_compress_events.len() > 0
    }

    /// The trace of the chip for a shard: eighty rows for every
    /// compression, in the order of the events, then rows of zeros up to
    /// the padded height. The rows of an event hold the working variables
    /// of the hash function round by round. The lookups that the rows rest
    /// on are counted in `output`.
    pub fn generate_trace(&self, input: &ExecutionRecord, output: &mut ExecutionRecord) -> (trace:
        Trace)
        requires
            events_fit(input.sha_compress_events@),
            old(output).has_room(sha_lookups(input.sha_compress_events@).len()),
            padded_height((80 * input.sha_compress_events@.len()) as nat) * NUM_SHA_COMPRESS_COLS
                <= usize::MAX,
        ensures
            trace.width == NUM_SHA_COMPRESS_COLS,
            trace.values@.len() == padded_height((80 * input.sha_compress_events@.len()) as nat)
                * NUM_SHA_COMPRESS_COLS,
            forall|i: int, r: int|
                0 <= i < input.sha_compress_events@.len() && 0 <= r < 80 ==> #[trigger] trace.row(
                    80 * i + r,
                ) == event_row(&input.sha_compress_events@[i], r),
            forall|k: int|
                80 * input.sha_compress_events@.len() <= k < padded_height(
                    (80 * input.sha_compress_events@.len()) as nat,
                ) ==> #[trigger] trace.row(k) == zeros(255),
            final(output).same_events(old(output)),
            final(output).counts_grew_by(old(output), sha_lookups(input.sha_compress_events@)),
    {
        let n = input.sha_compress_events.len();
        proof {
            crate::trace::lemma_padded_height((80 * n) as nat);
        }
        let mut values: Vec<Felt> = Vec::new();
        let mut new_byte_lookup_events: Vec<ByteLookupEvent> = Vec::new();
        let mut i: usize = 0;
        while i < n
            invariant
                i <= n,
                n == input.sha_compress_events@.len(),
                80 * n <= usize::MAX,
                events_fit(input.sha_compress_events@),
                values@.len() == (80 * i) * 255,
                forall|k: int, r: int|
                    0 <= k < i && 0 <= r < 80 ==> felts_view(
                        #[trigger] values@.subrange((80 * k + r) * 255, (80 * k + r + 1) * 255),
                    ) == event_row(&input.sha_compress_events@[k], r),
                new_byte_lookup_events@ == sha_lookups(
                    input.sha_compress_events@.subrange(0, i as int),
                ),
            decreases n - i,
        {
            let e = &input.sha_compress_events[i];
            let ghost before = values@;
            let ghost done = input.sha_compress_events@.subrange(0, i as int);
            let ghost next = input.sha_compress_events@.subrange(0, i + 1);
            proof {
                assert(next.drop_last() =~= done);
                assert(next.last() == input.sha_compress_events@[i as int]);
            }
            append_event_rows(&mut values, e, &mut new_byte_lookup_events, 80 * i);
            proof {
                assert forall|k: int, r: int| 0 <= k < i + 1 && 0 <= r < 80 implies felts_view(
                    #[trigger] values@.subrange((80 * k + r) * 255, (80 * k + r + 1) * 255),
                ) == event_row(&input.sha_compress_events@[k], r) by {
                    if k < i {
                        let q = 80 * k + r;
                        assert(values@.subrange(q * 255, (q + 1) * 255) == before.subrange(
                            q * 255,
                            (q + 1) * 255,
                        ));
                    } else {
                        assert(80 * k + r == 80 * i + r);
                    }
                }
            }
            i = i + 1;
        }
        assert(input.sha_compress_events@.subrange(0, n as int) =~= input.sha_compress_events@);
        output.add_byte_lookup_events(&new_byte_lookup_events);
        let ghost content = values@;
        let trace = padded_trace(values, NUM_SHA_COMPRESS_COLS, 80 * n);
        proof {
            assert forall|i: int, r: int|
                0 <= i < input.sha_compress_events@.len() && 0 <= r < 80 implies #[trigger] trace.row(
                80 * i + r,
            ) == event_row(&input.sha_compress_events@[i], r) by {
                let q = 80 * i + r;
                assert(trace.row(q) == felts_view(content.subrange(q * 255, (q + 1) * 255)));
            }
        }
        trace
    }
}

} // verus!
