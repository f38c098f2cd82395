//! The rows of the decompression of a point of ed25519.

use crate::air::{felts_view, lemma_concat_assoc};
use crate::bytes::event::ByteLookupEvent;
use crate::field::{Felt, P};
use crate::memory::trace::{
    access_fits, access_lookups, populate_read_only, populate_write, read_access, reads_cols,
    write_access, writes_cols,
};
use crate::events::{MemoryReadRecord, MemoryWriteRecord};
use crate::operations::add::push_zeros;
use crate::operations::field::field_op::{
    append_all, field_op_cols, FieldOpCols, FieldOperation,
};
use crate::operations::field::field_sqrt::{is_root, sqrt_cols, FieldSqrtCols};
use crate::operations::field::params::{FieldKind, ONE_LIMBS, ZERO_LIMBS};
use crate::record::ExecutionRecord;
use crate::syscall::precompiles::edwards::columns::{EdDecompressCols, NUM_ED_DECOMPRESS_COLS};
use crate::syscall::precompiles::edwards::ed_decompress::{EdDecompressChip, EdDecompressEvent};
use crate::trace::{append_row, padded_height, padded_with, zeros, Trace};
use crate::utils::bigint::{bytes32_of, le_nat, lemma_bytes32_of, to_fixed, to_vec};
use crate::utils::ec::edwards::ed25519::{
    ed25519_sqrt, lemma_modulus_bounds, modulus, sqrt_spec, D_BYTES,
};
use vstd::prelude::*;

verus! {

/// The limbs of the result of an operation of the field of ed25519.
pub open spec fn ed_op(op: FieldOperation, a: Seq<u8>, b: Seq<u8>) -> Seq<u8> {
    bytes32_of(crate::operations::field::field_op::op_result(
        op,
        le_nat(a),
        le_nat(b),
        FieldKind::Ed25519,
    ))
}

/// The limbs of `y^2`.
pub open spec fn ed_yy(y: Seq<u8>) -> Seq<u8> {
    ed_op(FieldOperation::Mul, y, y)
}

/// The limbs of `u = y^2 - 1`.
pub open spec fn ed_u(y: Seq<u8>) -> Seq<u8> {
    ed_op(FieldOperation::Sub, ed_yy(y), ONE_LIMBS@)
}

/// The limbs of `d y^2`.
pub open spec fn ed_dyy(y: Seq<u8>) -> Seq<u8> {
    ed_op(FieldOperation::Mul, D_BYTES@, ed_yy(y))
}

/// The limbs of `v = 1 + d y^2`.
pub open spec fn ed_v(y: Seq<u8>) -> Seq<u8> {
    ed_op(FieldOperation::Add, ONE_LIMBS@, ed_dyy(y))
}

/// The limbs of `u / v`, the square of `x`.
pub open spec fn ed_quotient(y: Seq<u8>) -> Seq<u8> {
    ed_op(FieldOperation::Div, ed_u(y), ed_v(y))
}

/// The limbs of the even root of `u / v`, where the search for a root
/// gives a number whose square is `u / v`.
pub open spec fn ed_root(y: Seq<u8>) -> Option<Seq<u8>> {
    let q = le_nat(ed_quotient(y));
    match sqrt_spec(q) {
        Some(x) => if is_root(x, q, FieldKind::Ed25519) {
            Some(bytes32_of(x))
        } else {
            None
        },
        None => None,
    }
}

/// The columns of the operations of the field that lead from `y` to the
/// root `x` and to its negative.
pub open spec fn ed_field_cols(y: Seq<u8>) -> Seq<int> {
    let k = FieldKind::Ed25519;
    let x = ed_root(y).unwrap();
    field_op_cols(FieldOperation::Mul, y, y, k) + field_op_cols(
        FieldOperation::Sub,
        ed_yy(y),
        ONE_LIMBS@,
        k,
    ) + field_op_cols(FieldOperation::Mul, D_BYTES@, ed_yy(y), k) + field_op_cols(
        FieldOperation::Add,
        ONE_LIMBS@,
        ed_dyy(y),
        k,
    ) + field_op_cols(FieldOperation::Div, ed_u(y), ed_v(y), k) + sqrt_cols(x, k) + field_op_cols(
        FieldOperation::Sub,
        ZERO_LIMBS@,
        x,
        k,
    )
}

/// The five columns at the head of the row of an event.
pub open spec fn ed_header(e: &EdDecompressEvent) -> Seq<int> {
    seq![
        1int,
        e.shard as int,
        e.clk as int,
        e.ptr as int,
        if e.sign {
            1int
        } else {
            0int
        },
    ]
}

/// The row of an event: the head, the writes of `x`, the reads of `y`, and
/// the operations of the field.
pub open spec fn ed_row(e: &EdDecompressEvent) -> Seq<int> {
    ed_header(e) + writes_cols(e.x_memory_records@, 8) + reads_cols(e.y_memory_records@, 8)
        + ed_field_cols(e.y_bytes@)
}

/// The row that fills the trace up: no event, and the operations of the
/// field for `y = 0`.
pub open spec fn ed_padding_row() -> Seq<int> {
    zeros(181) + ed_field_cols(ZERO_LIMBS@)
}

/// The lookups that the accesses of the first `n` words rest on: for
/// every word the write of `x`, then the read of `y`.
pub open spec fn ed_access_lookups(
    xs: Seq<MemoryWriteRecord>,
    ys: Seq<MemoryReadRecord>,
    n: nat,
) -> Seq<ByteLookupEvent>
    decreases n,
{
    if n == 0 {
        Seq::empty()
    } else {
        ed_access_lookups(xs, ys, (n - 1) as nat) + access_lookups(write_access(xs[n - 1]))
            + access_lookups(read_access(ys[n - 1]))
    }
}

/// The lookups that the row of an event rests on.
pub open spec fn ed_event_lookups(e: &EdDecompressEvent) -> Seq<ByteLookupEvent> {
    ed_access_lookups(e.x_memory_records@, e.y_memory_records@, 8)
}

/// The lookups that the rows of the events rest on, event by event.
pub open spec fn ed_lookups(es: Seq<EdDecompressEvent>) -> Seq<ByteLookupEvent>
    decreases es.len(),
{
    if es.len() == 0 {
        Seq::empty()
    } else {
        ed_lookups(es.drop_last()) + ed_event_lookups(&es.last())
    }
}

/// Whatever of the event goes into a column is a canonical field element.
pub open spec fn ed_event_fits(e: &EdDecompressEvent) -> bool {
    &&& e.shard < P
    &&& e.clk < P
    &&& e.ptr < P
    &&& forall|j: int| 0 <= j < 8 ==> access_fits(write_access(#[trigger] e.x_memory_records@[j]))
    &&& forall|j: int| 0 <= j < 8 ==> access_fits(read_access(#[trigger] e.y_memory_records@[j]))
}

/// Every event fits.
pub open spec fn ed_events_fit(es: Seq<EdDecompressEvent>) -> bool {
    forall|i: int| 0 <= i < es.len() ==> ed_event_fits(#[trigger] &es[i])
}

/// A root is found for `y = 0` and for the `y` of every event.
pub open spec fn ed_roots_exist(es: Seq<EdDecompressEvent>) -> bool {
    &&& ed_root(ZERO_LIMBS@) is Some
    &&& forall|i: int| 0 <= i < es.len() ==> ed_root(#[trigger] es[i].y_bytes@) is Some
}

impl EdDecompressCols<Felt> {
    /// Appends the columns of the operations of the field for `y`, and
    /// says whether a root was found; where none was, the row is left
    /// unfinished.
    pub fn populate_field_ops(row: &mut Vec<Felt>, y: &[u8; 32]) -> (ok: bool)
        ensures
            ok == (ed_root(y@) is Some),
            ok ==> felts_view(final(row)@) == felts_view(old(row)@) + ed_field_cols(y@),
            ok ==> final(row)@.len() == old(row)@.len() + 1316,
    {
        let k = FieldKind::Ed25519;
        let ghost r0 = felts_view(row@);
        let yy = FieldOpCols::<Felt>::populate(row, y, y, FieldOperation::Mul, k);
        let ghost mut acc = field_op_cols(FieldOperation::Mul, y@, y@, k);
        proof {
            lemma_bytes32_of(yy@);
        }
        let u = FieldOpCols::<Felt>::populate(row, &yy, &ONE_LIMBS, FieldOperation::Sub, k);
        proof {
            lemma_bytes32_of(u@);
            let piece = field_op_cols(FieldOperation::Sub, yy@, ONE_LIMBS@, k);
            lemma_concat_assoc(r0, acc, piece);
            acc = acc + piece;
        }
        let dyy = FieldOpCols::<Felt>::populate(row, &D_BYTES, &yy, FieldOperation::Mul, k);
        proof {
            lemma_bytes32_of(dyy@);
            let piece = field_op_cols(FieldOperation::Mul, D_BYTES@, yy@, k);
            lemma_concat_assoc(r0, acc, piece);
            acc = acc + piece;
        }
        let v = FieldOpCols::<Felt>::populate(row, &ONE_LIMBS, &dyy, FieldOperation::Add, k);
        proof {
            lemma_bytes32_of(v@);
            let piece = field_op_cols(FieldOperation::Add, ONE_LIMBS@, dyy@, k);
            lemma_concat_assoc(r0, acc, piece);
            acc = acc + piece;
        }
        let q = FieldOpCols::<Felt>::populate(row, &u, &v, FieldOperation::Div, k);
        proof {
            lemma_bytes32_of(q@);
            let piece = field_op_cols(FieldOperation::Div, u@, v@, k);
            lemma_concat_assoc(r0, acc, piece);
            acc = acc + piece;
            assert(q@ == ed_quotient(y@));
        }
        let found = ed25519_sqrt(&to_vec(&q));
        let x = match found {
            Some(x) => {
                proof {
                    lemma_modulus_bounds();
                    assert(le_nat(x@) < modulus());
                }
                to_fixed(&x)
            },
            None => {
                return false;
            },
        };
        proof {
            lemma_bytes32_of(x@);
        }
        let ok = FieldSqrtCols::<Felt>::populate(row, &q, &x, k);
        proof {
            let piece = sqrt_cols(x@, k);
            lemma_concat_assoc(r0, acc, piece);
            acc = acc + piece;
        }
        if !ok {
            return false;
        }
        let _ = FieldOpCols::<Felt>::populate(row, &ZERO_LIMBS, &x, FieldOperation::Sub, k);
        proof {
            let piece = field_op_cols(FieldOperation::Sub, ZERO_LIMBS@, x@, k);
            lemma_concat_assoc(r0, acc, piece);
            acc = acc + piece;
            assert(ed_root(y@) == Some(x@));
            assert(acc == ed_field_cols(y@));
        }
        true
    }

    /// Appends the row of an event, and the lookups that it rests on;
    /// says whether a root was found.
    pub fn populate(
        row: &mut Vec<Felt>,
        event: &EdDecompressEvent,
        new_byte_lookup_events: &mut Vec<ByteLookupEvent>,
    ) -> (ok: bool)
        requires
            ed_event_fits(event),
        ensures
            ok == (ed_root(event.y_bytes@) is Some),
            ok ==> felts_view(final(row)@) == felts_view(old(row)@) + ed_row(event),
            ok ==> final(row)@.len() == old(row)@.len() + NUM_ED_DECOMPRESS_COLS,
            final(new_byte_lookup_events)@ == old(new_byte_lookup_events)@ + ed_event_lookups(
                event,
            ),
    {
        let ghost r0 = felts_view(row@);
        let mut head: Vec<Felt> = Vec::new();
        head.push(Felt::from_bool(true));
        head.push(Felt::from_canonical_u32(event.shard));
        head.push(Felt::from_canonical_u32(event.clk));
        head.push(Felt::from_canonical_u32(event.ptr));
        head.push(Felt::from_bool(event.sign));
        assert(felts_view(head@) =~= ed_header(event));
        let mut xs: Vec<Felt> = Vec::new();
        let mut ys: Vec<Felt> = Vec::new();
        let ghost l0 = new_byte_lookup_events@;
        let mut i: usize = 0;
        assert(felts_view(xs@) =~= writes_cols(event.x_memory_records@, 0));
        assert(felts_view(ys@) =~= reads_cols(event.y_memory_records@, 0));
        assert(new_byte_lookup_events@ =~= l0 + ed_access_lookups(
            event.x_memory_records@,
            event.y_memory_records@,
            0,
        ));
        while i < 8
            invariant
                i <= 8,
                ed_event_fits(event),
                xs@.len() == 13 * i,
                ys@.len() == 9 * i,
                felts_view(xs@) == writes_cols(event.x_memory_records@, i as nat),
                felts_view(ys@) == reads_cols(event.y_memory_records@, i as nat),
                new_byte_lookup_events@ == l0 + ed_access_lookups(
                    event.x_memory_records@,
                    event.y_memory_records@,
                    i as nat,
                ),
            decreases 8 - i,
        {
            let ghost before = ed_access_lookups(
                event.x_memory_records@,
                event.y_memory_records@,
                i as nat,
            );
            let ghost wl = access_lookups(write_access(event.x_memory_records@[i as int]));
            let ghost rl = access_lookups(read_access(event.y_memory_records@[i as int]));
            populate_write(&mut xs, new_byte_lookup_events, &event.x_memory_records[i]);
            populate_read_only(&mut ys, new_byte_lookup_events, &event.y_memory_records[i]);
            proof {
                lemma_concat_assoc(l0, before, wl);
                lemma_concat_assoc(l0, before + wl, rl);
            }
            i = i + 1;
        }
        append_all(row, &head);
        append_all(row, &xs);
        append_all(row, &ys);
        proof {
            lemma_concat_assoc(r0, felts_view(head@), felts_view(xs@));
            lemma_concat_assoc(r0, felts_view(head@) + felts_view(xs@), felts_view(ys@));
        }
        let ghost front = ed_header(event) + writes_cols(event.x_memory_records@, 8) + reads_cols(
            event.y_memory_records@,
            8,
        );
        let ok = Self::populate_field_ops(row, &event.y_bytes);
        proof {
            if ok {
                lemma_concat_assoc(r0, front, ed_field_cols(event.y_bytes@));
            }
        }
        ok
    }
}

impl EdDecompressChip {
    /// The name of the chip.
    pub fn name(&self) -> (r: String)
        ensures
            r@ == "EdDecompress"@,
    {
        "EdDecompress".to_string()
    }

    /// The number of columns of the trace.
    pub fn width(&self) -> (r: usize)
        ensures
            r == NUM_ED_DECOMPRESS_COLS,
    {
        NUM_ED_DECOMPRESS_COLS
    }

    /// Whether a shard has rows for the chip.
    pub fn included(&self, shard: &ExecutionRecord) -> (r: bool)
        ensures
            r == (shard.ed_decompress_events@.len() > 0),
    {
        shard.ed_decompress_events.len() > 0
    }

    /// What the chip declares of a row.
    pub fn eval(&self, builder: &mut crate::air::AirBuilder)
        ensures
            final(builder).constraints@ == old(builder).constraints@
                + EdDecompressCols::<usize>::layout_spec().constraints(),
            final(builder).sends_view() == old(builder).sends_view()
                + EdDecompressCols::<usize>::layout_spec().sends(),
            final(builder).receives_view() == old(builder).receives_view()
                + EdDecompressCols::<usize>::layout_spec().receives(),
    {
        let cols = EdDecompressCols::<usize>::layout();
        cols.eval(builder);
    }

    /// The trace of the chip for a shard: one row for every
    /// decompression, in the order of the events, then the row of `y = 0`
    /// up to the padded height. There is a trace where a root is found for
    /// every row; the lookups that the rows rest on are then counted in
    /// `output`, which is left as it was otherwise.
    pub fn generate_trace(&self, input: &ExecutionRecord, output: &mut ExecutionRecord) -> (trace:
        Option<Trace>)
        requires
            ed_events_fit(input.ed_decompress_events@),
            old(output).has_room(ed_lookups(input.ed_decompress_events@).len()),
            padded_height(input.ed_decompress_events@.len()) * NUM_ED_DECOMPRESS_COLS
                <= usize::MAX,
        ensures
            trace is Some <==> ed_roots_exist(input.ed_decompress_events@),
            trace is None ==> *final(output) == *old(output),
            trace matches Some(t) ==> {
                &&& t.width == NUM_ED_DECOMPRESS_COLS
                &&& t.values@.len() == padded_height(input.ed_decompress_events@.len())
                    * NUM_ED_DECOMPRESS_COLS
                &&& forall|i: int|
                    0 <= i < input.ed_decompress_events@.len() ==> #[trigger] t.row(i) == ed_row(
                        &input.ed_decompress_events@[i],
                    )
                &&& forall|k: int|
                    input.ed_decompress_events@.len() <= k < padded_height(
                        input.ed_decompress_events@.len(),
                    ) ==> #[trigger] t.row(k) == ed_padding_row()
                &&& final(output).same_events(old(output))
                &&& final(output).counts_grew_by(
                    old(output),
                    ed_lookups(input.ed_decompress_events@),
                )
            },
    {
        let n = input.ed_decompress_events.len();
        let mut filler: Vec<Felt> = Vec::new();
        push_zeros(&mut filler, 181);
        if !EdDecompressCols::<Felt>::populate_field_ops(&mut filler, &ZERO_LIMBS) {
            return None;
        }
        let mut values: Vec<Felt> = Vec::new();
        let mut new_byte_lookup_events: Vec<ByteLookupEvent> = Vec::new();
        let mut i: usize = 0;
        while i < n
            invariant
                i <= n,
                n == input.ed_decompress_events@.len(),
                ed_events_fit(input.ed_decompress_events@),
                values@.len() == i * 1497,
                forall|k: int|
                    0 <= k < i ==> ed_root(#[trigger] input.ed_decompress_events@[k].y_bytes@)
                        is Some,
                forall|k: int|
                    0 <= k < i ==> felts_view(
                        #[trigger] values@.subrange(k * 1497, (k + 1) * 1497),
                    ) == ed_row(&input.ed_decompress_events@[k]),
                new_byte_lookup_events@ == ed_lookups(
                    input.ed_decompress_events@.subrange(0, i as int),
                ),
            decreases n - i,
        {
            let e = &input.ed_decompress_events[i];
            let ghost done = input.ed_decompress_events@.subrange(0, i as int);
            let ghost next = input.ed_decompress_events@.subrange(0, i + 1);
            proof {
                assert(next.drop_last() =~= done);
                assert(next.last() == input.ed_decompress_events@[i as int]);
            }
            let mut row: Vec<Felt> = Vec::new();
            if !EdDecompressCols::<Felt>::populate(&mut row, e, &mut new_byte_lookup_events) {
                return None;
            }
            assert(felts_view(row@) =~= ed_row(e));
            let ghost before = values@;
            append_row(&mut values, &row, NUM_ED_DECOMPRESS_COLS, i);
            proof {
                assert forall|k: int| 0 <= k < i + 1 implies felts_view(
                    #[trigger] values@.subrange(k * 1497, (k + 1) * 1497),
                ) == ed_row(&input.ed_decompress_events@[k]) by {
                    if k < i {
                        assert(values@.subrange(k * 1497, (k + 1) * 1497) == before.subrange(
                            k * 1497,
                            (k + 1) * 1497,
                        ));
                    }
                }
            }
            i = i + 1;
        }
        assert(input.ed_decompress_events@.subrange(0, n as int) =~= input.ed_decompress_events@);
        output.add_byte_lookup_events(&new_byte_lookup_events);
        let ghost content = values@;
        let trace = padded_with(values, NUM_ED_DECOMPRESS_COLS, n, &filler);
        proof {
            assert(felts_view(filler@) =~= ed_padding_row());
            assert forall|i: int|
                0 <= i < input.ed_decompress_events@.len() implies #[trigger] trace.row(i)
                == ed_row(&input.ed_decompress_events@[i]) by {
                assert(trace.row(i) == felts_view(content.subrange(i * 1497, (i + 1) * 1497)));
            }
        }
        Some(trace)
    }
}

/// Every event rests on thirty-two lookups: two for each of its sixteen
/// accesses.
pub proof fn lemma_ed_lookups_len(es: Seq<EdDecompressEvent>)
    ensures
        ed_lookups(es).len() == 32 * es.len(),
    decreases es.len(),
{
    if es.len() > 0 {
        lemma_ed_lookups_len(es.drop_last());
        let e = es.last();
        lemma_ed_access_lookups_len(e.x_memory_records@, e.y_memory_records@, 8);
    }
}

/// Every word rests on four lookups: two for each of its two accesses.
pub proof fn lemma_ed_access_lookups_len(
    xs: Seq<MemoryWriteRecord>,
    ys: Seq<MemoryReadRecord>,
    n: nat,
)
    ensures
        ed_access_lookups(xs, ys, n).len() == 4 * n,
    decreases n,
{
    if n > 0 {
        lemma_ed_access_lookups_len(xs, ys, (n - 1) as nat);
        assert(access_lookups(write_access(xs[n - 1])).len() == 2);
        assert(access_lookups(read_access(ys[n - 1])).len() == 2);
    }
}

/// Whether every event fits.
pub fn ed_events_fit_check(events: &Vec<EdDecompressEvent>) -> (r: bool)
    ensures
        r == ed_events_fit(events@),
{
    let mut i: usize = 0;
    while i < events.len()
        invariant
            i <= events@.len(),
            forall|k: int| 0 <= k < i ==> ed_event_fits(#[trigger] &events@[k]),
        decreases events@.len() - i,
    {
        let e = &events[i];
        if e.shard >= P || e.clk >= P || e.ptr >= P {
            return false;
        }
        let mut j: usize = 0;
        while j < 8
            invariant
                j <= 8,
                i < events@.len(),
                e == &events@[i as int],
                forall|k: int|
                    0 <= k < j ==> access_fits(write_access(#[trigger] e.x_memory_records@[k])),
                forall|k: int|
                    0 <= k < j ==> access_fits(read_access(#[trigger] e.y_memory_records@[k])),
            decreases 8 - j,
        {
            let x = &e.x_memory_records[j];
            let y = &e.y_memory_records[j];
            if x.prev_shard >= P || x.prev_timestamp >= P || y.prev_shard >= P
                || y.prev_timestamp >= P {
                proof {
                    assert(!(access_fits(write_access(e.x_memory_records@[j as int]))
                        && access_fits(read_access(e.y_memory_records@[j as int]))));
                    assert(!ed_event_fits(&events@[i as int]));
                }
                return false;
            }
            j = j + 1;
        }
        i = i + 1;
    }
    true
}

} // verus!
