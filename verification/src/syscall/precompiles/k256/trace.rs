//! The rows of the decompression of a point of secp256k1.

use crate::air::{felts_view, lemma_concat_assoc};
use crate::bytes::event::ByteLookupEvent;
use crate::events::{MemoryReadRecord, MemoryWriteRecord};
use crate::field::{Felt, P};
use crate::memory::trace::{
    access_fits, access_lookups, populate_read_only, populate_write, read_access, reads_cols,
    write_access, writes_cols,
};
use crate::operations::add::push_zeros;
use crate::operations::field::field_op::{
    append_all, field_op_cols, ints, op_result, FieldOpCols, FieldOperation,
};
use crate::operations::field::field_sqrt::{is_root, sqrt_cols, FieldSqrtCols};
use crate::operations::field::params::{FieldKind, ZERO_LIMBS};
use crate::record::ExecutionRecord;
use crate::syscall::precompiles::k256::columns::{
    K256DecompressCols, B_LIMBS, NUM_K256_DECOMPRESS_COLS,
};
use crate::syscall::precompiles::k256::decompress::{
    reversed, K256DecompressChip, K256DecompressEvent,
};
use crate::trace::{append_row, padded_height, padded_with, zeros, Trace};
use crate::utils::bigint::{bytes32_of, le_nat, lemma_bytes32_of};
use crate::utils::ec::weierstrass::secp256k1::{secp256k1_root, secp256k1_sqrt};
use vstd::prelude::*;

verus! {

/// The limbs of an `x` for which `x^3 + 7` has a root; it stands in the
/// rows that fill the trace up.
pub const DUMMY_X: [u8; 32] = [
    0, 126, 219, 205, 46, 130, 64, 91, 212, 57, 195, 220, 13, 226, 212, 201, 250, 45, 252, 18, 10,
    53, 233, 9, 205, 178, 128, 67, 217, 215, 252, 112,
];

/// The limbs of the result of an operation of the field of secp256k1.
pub open spec fn k256_op(op: FieldOperation, a: Seq<u8>, b: Seq<u8>) -> Seq<u8> {
    bytes32_of(op_result(op, le_nat(a), le_nat(b), FieldKind::Secp256k1))
}

/// The limbs of `x^2`.
pub open spec fn k256_x_2(x: Seq<u8>) -> Seq<u8> {
    k256_op(FieldOperation::Mul, x, x)
}

/// The limbs of `x^3`.
pub open spec fn k256_x_3(x: Seq<u8>) -> Seq<u8> {
    k256_op(FieldOperation::Mul, k256_x_2(x), x)
}

/// The limbs of `x^3 + 7`, the square of `y`.
pub open spec fn k256_square(x: Seq<u8>) -> Seq<u8> {
    k256_op(FieldOperation::Add, k256_x_3(x), B_LIMBS@)
}

/// The limbs of the root of `x^3 + 7`, where the search for a root gives
/// thirty-two bytes whose square is `x^3 + 7`.
pub open spec fn k256_root(x: Seq<u8>) -> Option<Seq<u8>> {
    let q = k256_square(x);
    match secp256k1_root(q.reverse()) {
        Some(y_be) => if y_be.len() == 32 && is_root(
            le_nat(y_be.reverse()),
            le_nat(q),
            FieldKind::Secp256k1,
        ) {
            Some(y_be.reverse())
        } else {
            None
        },
        None => None,
    }
}

/// The bits of a byte, the least significant first.
pub open spec fn bit_cols(b: u8) -> Seq<int> {
    seq![
        b as int % 2,
        (b as int / 2) % 2,
        (b as int / 4) % 2,
        (b as int / 8) % 2,
        (b as int / 16) % 2,
        (b as int / 32) % 2,
        (b as int / 64) % 2,
        (b as int / 128) % 2,
    ]
}

/// The columns of the operations of the field that lead from `x` to the
/// root `y` and to its negative, and the bits of the least byte of `y`.
pub open spec fn k256_field_cols(x: Seq<u8>) -> Seq<int> {
    let k = FieldKind::Secp256k1;
    let y = k256_root(x).unwrap();
    field_op_cols(FieldOperation::Mul, x, x, k) + field_op_cols(
        FieldOperation::Mul,
        k256_x_2(x),
        x,
        k,
    ) + field_op_cols(FieldOperation::Add, k256_x_3(x), B_LIMBS@, k) + sqrt_cols(y, k)
        + field_op_cols(FieldOperation::Sub, ZERO_LIMBS@, y, k) + bit_cols(y[0])
}

/// The four columns at the head of the row of an event.
pub open spec fn k256_header(e: &K256DecompressEvent) -> Seq<int> {
    seq![1int, e.shard as int, e.clk as int, e.ptr as int]
}

/// The row of an event: the head, the reads of `x`, the writes of `y`, and
/// the operations of the field.
pub open spec fn k256_row(e: &K256DecompressEvent) -> Seq<int> {
    k256_header(e) + reads_cols(e.x_memory_records@, 8) + writes_cols(e.y_memory_records@, 8)
        + k256_field_cols(e.x_bytes@)
}

/// The columns of the first `n` reads of a row that fills the trace up:
/// the word of `x`, and nothing of an access before.
pub open spec fn dummy_reads(n: nat) -> Seq<int>
    decreases n,
{
    if n == 0 {
        Seq::empty()
    } else {
        dummy_reads((n - 1) as nat) + ints(DUMMY_X@.subrange(4 * (n - 1), 4 * n as int)) + zeros(5)
    }
}

/// The row that fills the trace up: no event, the words of an `x` for
/// which there is a root, and the operations of the field for that `x`.
pub open spec fn k256_padding_row() -> Seq<int> {
    zeros(4) + dummy_reads(8) + zeros(104) + k256_field_cols(DUMMY_X@)
}

/// The lookups that the accesses of the first `n` words rest on: for
/// every word the read of `x`, then the write of `y`.
pub open spec fn k256_access_lookups(
    xs: Seq<MemoryReadRecord>,
    ys: Seq<MemoryWriteRecord>,
    n: nat,
) -> Seq<ByteLookupEvent>
    decreases n,
{
    if n == 0 {
        Seq::empty()
    } else {
        k256_access_lookups(xs, ys, (n - 1) as nat) + access_lookups(read_access(xs[n - 1]))
            + access_lookups(write_access(ys[n - 1]))
    }
}

/// The lookups that the row of an event rests on.
pub open spec fn k256_event_lookups(e: &K256DecompressEvent) -> Seq<ByteLookupEvent> {
    k256_access_lookups(e.x_memory_records@, e.y_memory_records@, 8)
}

/// The lookups that the rows of the events rest on, event by event.
pub open spec fn k256_lookups(es: Seq<K256DecompressEvent>) -> Seq<ByteLookupEvent>
    decreases es.len(),
{
    if es.len() == 0 {
        Seq::empty()
    } else {
        k256_lookups(es.drop_last()) + k256_event_lookups(&es.last())
    }
}

/// Whatever of the event goes into a column is a canonical field element.
pub open spec fn k256_event_fits(e: &K256DecompressEvent) -> bool {
    &&& e.shard < P
    &&& e.clk < P
    &&& e.ptr < P
    &&& forall|j: int| 0 <= j < 8 ==> access_fits(read_access(#[trigger] e.x_memory_records@[j]))
    &&& forall|j: int| 0 <= j < 8 ==> access_fits(write_access(#[trigger] e.y_memory_records@[j]))
}

/// Every event fits.
pub open spec fn k256_events_fit(es: Seq<K256DecompressEvent>) -> bool {
    forall|i: int| 0 <= i < es.len() ==> k256_event_fits(#[trigger] &es[i])
}

/// A root is found for the `x` of the rows that fill the trace up and for
/// the `x` of every event.
pub open spec fn k256_roots_exist(es: Seq<K256DecompressEvent>) -> bool {
    &&& k256_root(DUMMY_X@) is Some
    &&& forall|i: int| 0 <= i < es.len() ==> k256_root(#[trigger] es[i].x_bytes@) is Some
}

fn push_bits(row: &mut Vec<Felt>, b: u8)
    ensures
        felts_view(final(row)@) == felts_view(old(row)@) + bit_cols(b),
        final(row)@.len() == old(row)@.len() + 8,
{
    let mut bits: Vec<Felt> = Vec::new();
    bits.push(Felt::from_canonical_u8(b % 2));
    bits.push(Felt::from_canonical_u8((b / 2) % 2));
    bits.push(Felt::from_canonical_u8((b / 4) % 2));
    bits.push(Felt::from_canonical_u8((b / 8) % 2));
    bits.push(Felt::from_canonical_u8((b / 16) % 2));
    bits.push(Felt::from_canonical_u8((b / 32) % 2));
    bits.push(Felt::from_canonical_u8((b / 64) % 2));
    bits.push(Felt::from_canonical_u8((b / 128) % 2));
    assert(felts_view(bits@) =~= bit_cols(b));
    append_all(row, &bits);
}

fn push_dummy_reads(row: &mut Vec<Felt>)
    ensures
        felts_view(final(row)@) == felts_view(old(row)@) + dummy_reads(8),
        final(row)@.len() == old(row)@.len() + 72,
{
    let ghost r0 = felts_view(row@);
    let mut i: usize = 0;
    assert(felts_view(row@) =~= r0 + dummy_reads(0));
    while i < 8
        invariant
            i <= 8,
            row@.len() == old(row)@.len() + 9 * i,
            felts_view(row@) == r0 + dummy_reads(i as nat),
        decreases 8 - i,
    {
        let ghost before = dummy_reads(i as nat);
        let mut word: Vec<Felt> = Vec::new();
        word.push(Felt::from_canonical_u8(DUMMY_X[4 * i]));
        word.push(Felt::from_canonical_u8(DUMMY_X[4 * i + 1]));
        word.push(Felt::from_canonical_u8(DUMMY_X[4 * i + 2]));
        word.push(Felt::from_canonical_u8(DUMMY_X[4 * i + 3]));
        assert(felts_view(word@) =~= ints(DUMMY_X@.subrange(4 * i, 4 * (i + 1))));
        append_all(row, &word);
        push_zeros(row, 5);
        proof {
            lemma_concat_assoc(r0, before, felts_view(word@));
            lemma_concat_assoc(r0, before + felts_view(word@), zeros(5));
        }
        i = i + 1;
    }
}

impl K256DecompressCols<Felt> {
    /// Appends the columns of the operations of the field for `x`, and
    /// says whether a root was found; where none was, the row is left
    /// unfinished.
    pub fn populate_field_ops(row: &mut Vec<Felt>, x: &[u8; 32]) -> (ok: bool)
        ensures
            ok == (k256_root(x@) is Some),
            ok ==> felts_view(final(row)@) == felts_view(old(row)@) + k256_field_cols(x@),
            ok ==> final(row)@.len() == old(row)@.len() + 948,
    {
        let k = FieldKind::Secp256k1;
        let ghost r0 = felts_view(row@);
        let x_2 = FieldOpCols::<Felt>::populate(row, x, x, FieldOperation::Mul, k);
        let ghost mut acc = field_op_cols(FieldOperation::Mul, x@, x@, k);
        proof {
            lemma_bytes32_of(x_2@);
        }
        let x_3 = FieldOpCols::<Felt>::populate(row, &x_2, x, FieldOperation::Mul, k);
        proof {
            lemma_bytes32_of(x_3@);
            let piece = field_op_cols(FieldOperation::Mul, x_2@, x@, k);
            lemma_concat_assoc(r0, acc, piece);
            acc = acc + piece;
        }
        let q = FieldOpCols::<Felt>::populate(row, &x_3, &B_LIMBS, FieldOperation::Add, k);
        proof {
            lemma_bytes32_of(q@);
            let piece = field_op_cols(FieldOperation::Add, x_3@, B_LIMBS@, k);
            lemma_concat_assoc(r0, acc, piece);
            acc = acc + piece;
            assert(q@ == k256_square(x@));
        }
        let found = secp256k1_sqrt(&reversed(&q));
        let y = match found {
            Some(y_be) => reversed(&y_be),
            None => {
                return false;
            },
        };
        let ok = FieldSqrtCols::<Felt>::populate(row, &q, &y, k);
        proof {
            let piece = sqrt_cols(y@, k);
            lemma_concat_assoc(r0, acc, piece);
            acc = acc + piece;
        }
        if !ok {
            return false;
        }
        let _ = FieldOpCols::<Felt>::populate(row, &ZERO_LIMBS, &y, FieldOperation::Sub, k);
        proof {
            let piece = field_op_cols(FieldOperation::Sub, ZERO_LIMBS@, y@, k);
            lemma_concat_assoc(r0, acc, piece);
            acc = acc + piece;
        }
        push_bits(row, y[0]);
        proof {
            lemma_concat_assoc(r0, acc, bit_cols(y@[0]));
            acc = acc + bit_cols(y@[0]);
            assert(k256_root(x@) == Some(y@));
            assert(acc == k256_field_cols(x@));
        }
        true
    }

    /// Appends the row of an event, and the lookups that it rests on;
    /// says whether a root was found.
    pub fn populate(
        row: &mut Vec<Felt>,
        event: &K256DecompressEvent,
        new_byte_lookup_events: &mut Vec<ByteLookupEvent>,
    ) -> (ok: bool)
        requires
            k256_event_fits(event),
        ensures
            ok == (k256_root(event.x_bytes@) is Some),
            ok ==> felts_view(final(row)@) == felts_view(old(row)@) + k256_row(event),
            ok ==> final(row)@.len() == old(row)@.len() + NUM_K256_DECOMPRESS_COLS,
            final(new_byte_lookup_events)@ == old(new_byte_lookup_events)@ + k256_event_lookups(
                event,
            ),
    {
        let ghost r0 = felts_view(row@);
        let mut head: Vec<Felt> = Vec::new();
        head.push(Felt::from_bool(true));
        head.push(Felt::from_canonical_u32(event.shard));
        head.push(Felt::from_canonical_u32(event.clk));
        head.push(Felt::from_canonical_u32(event.ptr));
        assert(felts_view(head@) =~= k256_header(event));
        let mut xs: Vec<Felt> = Vec::new();
        let mut ys: Vec<Felt> = Vec::new();
        let ghost l0 = new_byte_lookup_events@;
        let mut i: usize = 0;
        assert(felts_view(xs@) =~= reads_cols(event.x_memory_records@, 0));
        assert(felts_view(ys@) =~= writes_cols(event.y_memory_records@, 0));
        assert(new_byte_lookup_events@ =~= l0 + k256_access_lookups(
            event.x_memory_records@,
            event.y_memory_records@,
            0,
        ));
        while i < 8
            invariant
                i <= 8,
                k256_event_fits(event),
                xs@.len() == 9 * i,
                ys@.len() == 13 * i,
                felts_view(xs@) == reads_cols(event.x_memory_records@, i as nat),
                felts_view(ys@) == writes_cols(event.y_memory_records@, i as nat),
                new_byte_lookup_events@ == l0 + k256_access_lookups(
                    event.x_memory_records@,
                    event.y_memory_records@,
                    i as nat,
                ),
            decreases 8 - i,
        {
            let ghost before = k256_access_lookups(
                event.x_memory_records@,
                event.y_memory_records@,
                i as nat,
            );
            let ghost rl = access_lookups(read_access(event.x_memory_records@[i as int]));
            let ghost wl = access_lookups(write_access(event.y_memory_records@[i as int]));
            populate_read_only(&mut xs, new_byte_lookup_events, &event.x_memory_records[i]);
            populate_write(&mut ys, new_byte_lookup_events, &event.y_memory_records[i]);
            proof {
                lemma_concat_assoc(l0, before, rl);
                lemma_concat_assoc(l0, before + rl, wl);
            }
            i = i + 1;
        }
        append_all(row, &head);
        append_all(row, &xs);
        append_all(row, &ys);
        proof {
            lemma_concat_assoc(r0, felts_view(head@), felts_view(xs@));
            lemma_concat_assoc(r0, felts_view(head@) + felts_view(xs@), felts_view(ys@));
        }
        let ghost front = k256_header(event) + reads_cols(event.x_memory_records@, 8)
            + writes_cols(event.y_memory_records@, 8);
        let ok = Self::populate_field_ops(row, &event.x_bytes);
        proof {
            if ok {
                lemma_concat_assoc(r0, front, k256_field_cols(event.x_bytes@));
            }
        }
        ok
    }
}

impl K256DecompressChip {
    /// The name of the chip.
    pub fn name(&self) -> (r: String)
        ensures
            r@ == "K256Decompress"@,
    {
        "K256Decompress".to_string()
    }

    /// The number of columns of the trace.
    pub fn width(&self) -> (r: usize)
        ensures
            r == NUM_K256_DECOMPRESS_COLS,
    {
        NUM_K256_DECOMPRESS_COLS
    }

    /// Whether a shard has rows for the chip.
    pub fn included(&self, shard: &ExecutionRecord) -> (r: bool)
        ensures
            r == (shard.k256_decompress_events@.len() > 0),
    {
        shard.k256_decompress_events.len() > 0
    }

    /// What the chip declares of a row.
    pub fn eval(&self, builder: &mut crate::air::AirBuilder)
        ensures
            final(builder).constraints@ == old(builder).constraints@
                + K256DecompressCols::<usize>::layout_spec().constraints(),
            final(builder).sends_view() == old(builder).sends_view()
                + K256DecompressCols::<usize>::layout_spec().sends(),
            final(builder).receives_view() == old(builder).receives_view()
                + K256DecompressCols::<usize>::layout_spec().receives(),
    {
        let cols = K256DecompressCols::<usize>::layout();
        cols.eval(builder);
    }

    fn padding_row() -> (r: Option<Vec<Felt>>)
        ensures
            r is Some <==> k256_root(DUMMY_X@) is Some,
            r matches Some(v) ==> felts_view(v@) == k256_padding_row() && v@.len() == 1128,
    {
        let mut filler: Vec<Felt> = Vec::new();
        push_zeros(&mut filler, 4);
        assert(felts_view(filler@) =~= zeros(4));
        push_dummy_reads(&mut filler);
        push_zeros(&mut filler, 104);
        proof {
            lemma_concat_assoc(zeros(4), dummy_reads(8), zeros(104));
        }
        if !K256DecompressCols::<Felt>::populate_field_ops(&mut filler, &DUMMY_X) {
            return None;
        }
        Some(filler)
    }

    /// The trace of the chip for a shard: one row for every
    /// decompression, in the order of the events, then a row without an
    /// event, for an `x` that has a root, up to the padded height. There is
    /// a trace where a root is found for every row; the lookups that the
    /// rows rest on are then counted in `output`, which is left as it was
    /// otherwise.
    pub fn generate_trace(&self, input: &ExecutionRecord, output: &mut ExecutionRecord) -> (trace:
        Option<Trace>)
        requires
            k256_events_fit(input.k256_decompress_events@),
            old(output).has_room(k256_lookups(input.k256_decompress_events@).len()),
            padded_height(input.k256_decompress_events@.len()) * NUM_K256_DECOMPRESS_COLS
                <= usize::MAX,
        ensures
            trace is Some <==> k256_roots_exist(input.k256_decompress_events@),
            trace is None ==> *final(output) == *old(output),
            trace matches Some(t) ==> {
                &&& t.width == NUM_K256_DECOMPRESS_COLS
                &&& t.values@.len() == padded_height(input.k256_decompress_events@.len())
                    * NUM_K256_DECOMPRESS_COLS
                &&& forall|i: int|
                    0 <= i < input.k256_decompress_events@.len() ==> #[trigger] t.row(i)
                        == k256_row(&input.k256_decompress_events@[i])
                &&& forall|k: int|
                    input.k256_decompress_events@.len() <= k < padded_height(
                        input.k256_decompress_events@.len(),
                    ) ==> #[trigger] t.row(k) == k256_padding_row()
                &&& final(output).same_events(old(output))
                &&& final(output).counts_grew_by(
                    old(output),
                    k256_lookups(input.k256_decompress_events@),
                )
            },
    {
        let n = input.k256_decompress_events.len();
        let filler = match Self::padding_row() {
            Some(f) => f,
            None => {
                return None;
            },
        };
        let mut values: Vec<Felt> = Vec::new();
        let mut new_byte_lookup_events: Vec<ByteLookupEvent> = Vec::new();
        let mut i: usize = 0;
        while i < n
            invariant
                i <= n,
                n == input.k256_decompress_events@.len(),
                k256_events_fit(input.k256_decompress_events@),
                values@.len() == i * 1128,
                forall|k: int|
                    0 <= k < i ==> k256_root(#[trigger] input.k256_decompress_events@[k].x_bytes@)
                        is Some,
                forall|k: int|
                    0 <= k < i ==> felts_view(
                        #[trigger] values@.subrange(k * 1128, (k + 1) * 1128),
                    ) == k256_row(&input.k256_decompress_events@[k]),
                new_byte_lookup_events@ == k256_lookups(
                    input.k256_decompress_events@.subrange(0, i as int),
                ),
            decreases n - i,
        {
            let e = &input.k256_decompress_events[i];
            let ghost done = input.k256_decompress_events@.subrange(0, i as int);
            let ghost next = input.k256_decompress_events@.subrange(0, i + 1);
            proof {
                assert(next.drop_last() =~= done);
                assert(next.last() == input.k256_decompress_events@[i as int]);
            }
            let mut row: Vec<Felt> = Vec::new();
            if !K256DecompressCols::<Felt>::populate(&mut row, e, &mut new_byte_lookup_events) {
                return None;
            }
            assert(felts_view(row@) =~= k256_row(e));
            let ghost before = values@;
            append_row(&mut values, &row, NUM_K256_DECOMPRESS_COLS, i);
            proof {
                assert forall|k: int| 0 <= k < i + 1 implies felts_view(
                    #[trigger] values@.subrange(k * 1128, (k + 1) * 1128),
                ) == k256_row(&input.k256_decompress_events@[k]) by {
                    if k < i {
                        assert(values@.subrange(k * 1128, (k + 1) * 1128) == before.subrange(
                            k * 1128,
                            (k + 1) * 1128,
                        ));
                    }
                }
            }
            i = i + 1;
        }
        assert(input.k256_decompress_events@.subrange(0, n as int)
            =~= input.k256_decompress_events@);
        output.add_byte_lookup_events(&new_byte_lookup_events);
        let ghost content = values@;
        let trace = padded_with(values, NUM_K256_DECOMPRESS_COLS, n, &filler);
        proof {
            assert forall|i: int|
                0 <= i < input.k256_decompress_events@.len() implies #[trigger] trace.row(i)
                == k256_row(&input.k256_decompress_events@[i]) by {
                assert(trace.row(i) == felts_view(content.subrange(i * 1128, (i + 1) * 1128)));
            }
        }
        Some(trace)
    }
}

/// Every event rests on thirty-two lookups: two for each of its sixteen
/// accesses.
pub proof fn lemma_k256_lookups_len(es: Seq<K256DecompressEvent>)
    ensures
        k256_lookups(es).len() == 32 * es.len(),
    decreases es.len(),
{
    if es.len() > 0 {
        lemma_k256_lookups_len(es.drop_last());
        let e = es.last();
        lemma_k256_access_lookups_len(e.x_memory_records@, e.y_memory_records@, 8);
    }
}

/// Every word rests on four lookups: two for each of its two accesses.
pub proof fn lemma_k256_access_lookups_len(
    xs: Seq<MemoryReadRecord>,
    ys: Seq<MemoryWriteRecord>,
    n: nat,
)
    ensures
        k256_access_lookups(xs, ys, n).len() == 4 * n,
    decreases n,
{
    if n > 0 {
        lemma_k256_access_lookups_len(xs, ys, (n - 1) as nat);
        assert(access_lookups(read_access(xs[n - 1])).len() == 2);
        assert(access_lookups(write_access(ys[n - 1])).len() == 2);
    }
}

/// Whether every event fits.
pub fn k256_events_fit_check(events: &Vec<K256DecompressEvent>) -> (r: bool)
    ensures
        r == k256_events_fit(events@),
{
    let mut i: usize = 0;
    while i < events.len()
        invariant
            i <= events@.len(),
            forall|k: int| 0 <= k < i ==> k256_event_fits(#[trigger] &events@[k]),
        decreases events@.len() - i,
    {
        let e = &events[i];
        if e.shard >= P || e.clk >= P || e.ptr >= P {
            return false;
        }
        let mut j: usize = 0;
        while j < 8
            invariant
                j <= 8,
                i < events@.len(),
                e == &events@[i as int],
                forall|k: int|
                    0 <= k < j ==> access_fits(read_access(#[trigger] e.x_memory_records@[k])),
                forall|k: int|
                    0 <= k < j ==> access_fits(write_access(#[trigger] e.y_memory_records@[k])),
            decreases 8 - j,
        {
            let x = &e.x_memory_records[j];
            let y = &e.y_memory_records[j];
            if x.prev_shard >= P || x.prev_timestamp >= P || y.prev_shard >= P
                || y.prev_timestamp >= P {
                proof {
                    assert(!(access_fits(read_access(e.x_memory_records@[j as int]))
                        && access_fits(write_access(e.y_memory_records@[j as int]))));
                    assert(!k256_event_fits(&events@[i as int]));
                }
                return false;
            }
            j = j + 1;
        }
        i = i + 1;
    }
    true
}

} // verus!
