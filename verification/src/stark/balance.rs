//! The bus of bytes in balance. What the rows of a chip send to the bus is
//! what the lookups say that the rows rest on; the table of bytes receives
//! every lookup as often as it was counted; so over the traces of a shard
//! every tuple of the bus is sent as often as it is received.

use crate::air::{Expr, Interaction, InteractionKind, InteractionSpec, Point, interactions_view};
use crate::alu::shift::ShiftChip;
use crate::alu::sub::{SubChip, event_lookups, sub_lookups, sub_receives, sub_row, sub_sends};
use crate::bytes::{ByteChip, ByteLookupEvent, ByteOpcode, byte_result, lookup_of};
use crate::bytes::air::{byte_receive, byte_receives};
use crate::bytes::event::occurrences;
use crate::bytes::trace::preprocessed_row;
use crate::events::{AluEvent, MemoryReadRecord, MemoryWriteRecord};
use crate::extension::{Quartic, q_zero};
use crate::field::P;
use crate::lookup::{Term, balanced, lemma_balanced_bus_sums_to_zero, net, total};
use crate::memory::{MemoryChip, MemoryChipType};
use crate::memory::air::{access_sends, slice_addr, slice_receives, slice_sends};
use crate::memory::columns::MemoryReadWriteCols;
use crate::memory::trace::{
    Access, access_cols, access_lookups, read_access, read_cols, reads_cols, time_difference,
    write_access, writes_cols,
};
use crate::program::ProgramChip;
use crate::record::ExecutionRecord;
use crate::stark::machine::{TableAir, trace_rows};
use crate::stark::permutation::{eval_all, key_of, row_terms, terms_of, trace_point, trace_terms};
use crate::stark::shard::{byte_multiplicity, byte_rows, lookups_before, shard_lookups};
use crate::syscall::precompiles::edwards::columns::EdDecompressCols;
use crate::syscall::precompiles::edwards::ed_decompress::{EdDecompressChip, EdDecompressEvent};
use crate::syscall::precompiles::edwards::trace::{
    ed_access_lookups, ed_event_lookups, ed_lookups, ed_padding_row, ed_row,
};
use crate::syscall::precompiles::k256::columns::K256DecompressCols;
use crate::syscall::precompiles::k256::decompress::{K256DecompressChip, K256DecompressEvent};
use crate::syscall::precompiles::k256::trace::{
    k256_access_lookups, k256_event_lookups, k256_header, k256_lookups, k256_padding_row, k256_row,
};
use crate::trace::{Trace, padded_height, zeros};
use vstd::prelude::*;

verus! {

/// The tuple of a lookup on the bus of bytes: the number of the bus, the
/// number of the operation, its two results and its two operands.
pub open spec fn lookup_key(l: ByteLookupEvent) -> Seq<int> {
    seq![4int, l.opcode.index_spec(), l.a1 as int, l.a2 as int, l.b as int, l.c as int]
}

/// The lookups as terms of the bus: each is sent once.
pub open spec fn lookup_terms(ls: Seq<ByteLookupEvent>) -> Seq<Term> {
    Seq::new(ls.len(), |i: int| Term { key: lookup_key(ls[i]), mult: 1 })
}

/// The sum of `f(0)`, ..., `f(n - 1)`.
pub open spec fn sum_to(f: spec_fn(int) -> int, n: nat) -> int
    decreases n,
{
    if n == 0 {
        0
    } else {
        sum_to(f, (n - 1) as nat) + f(n - 1)
    }
}

/// The totals of two sequences of terms add up.
pub proof fn lemma_total_concat(a: Seq<Term>, b: Seq<Term>, key: Seq<int>)
    ensures
        total(a + b, key) == total(a, key) + total(b, key),
    decreases b.len(),
{
    if b.len() == 0 {
        assert(a + b =~= a);
    } else {
        assert((a + b).drop_last() =~= a + b.drop_last());
        assert((a + b).last() == b.last());
        lemma_total_concat(a, b.drop_last(), key);
    }
}

/// Terms that are sent no times add nothing to a total.
pub proof fn lemma_total_of_nothing(ts: Seq<Term>, key: Seq<int>)
    requires
        forall|i: int| 0 <= i < ts.len() ==> (#[trigger] ts[i]).mult == 0,
    ensures
        total(ts, key) == 0,
    decreases ts.len(),
{
    if ts.len() > 0 {
        lemma_total_of_nothing(ts.drop_last(), key);
    }
}

/// Terms of other tuples add nothing to a total.
pub proof fn lemma_total_of_others(ts: Seq<Term>, key: Seq<int>)
    requires
        forall|i: int| 0 <= i < ts.len() ==> (#[trigger] ts[i]).key != key,
    ensures
        total(ts, key) == 0,
    decreases ts.len(),
{
    if ts.len() > 0 {
        lemma_total_of_others(ts.drop_last(), key);
    }
}

/// The terms of the lookups of two sequences, one after the other.
pub proof fn lemma_lookup_terms_concat(a: Seq<ByteLookupEvent>, b: Seq<ByteLookupEvent>, key: Seq<int>)
    ensures
        total(lookup_terms(a + b), key) == total(lookup_terms(a), key) + total(
            lookup_terms(b),
            key,
        ),
{
    assert(lookup_terms(a + b) =~= lookup_terms(a) + lookup_terms(b));
    lemma_total_concat(lookup_terms(a), lookup_terms(b), key);
}

/// The total of a tuple over the rows of a trace is the sum of its totals
/// over the rows.
pub proof fn lemma_trace_total(
    sends: Seq<Interaction>,
    receives: Seq<Interaction>,
    prep: &Trace,
    main: &Trace,
    height: int,
    n: nat,
    key: Seq<int>,
    f: spec_fn(int) -> int,
)
    requires
        forall|r: int|
            0 <= r < n ==> total(
                row_terms(sends, receives, #[trigger] trace_point(prep, main, r, height)),
                key,
            ) == f(r),
    ensures
        total(trace_terms(sends, receives, prep, main, height, n), key) == sum_to(f, n),
    decreases n,
{
    if n > 0 {
        lemma_trace_total(sends, receives, prep, main, height, (n - 1) as nat, key, f);
        lemma_total_concat(
            trace_terms(sends, receives, prep, main, height, (n - 1) as nat),
            row_terms(sends, receives, trace_point(prep, main, n - 1, height)),
            key,
        );
    }
}

/// A sum whose terms vanish from `m` on is the sum of the first `m`.
pub proof fn lemma_sum_stops(f: spec_fn(int) -> int, m: nat, n: nat)
    requires
        m <= n,
        forall|r: int| m <= r < n ==> #[trigger] f(r) == 0,
    ensures
        sum_to(f, n) == sum_to(f, m),
    decreases n,
{
    if m < n {
        lemma_sum_stops(f, m, (n - 1) as nat);
    }
}

/// Sums of functions that agree are the same.
pub proof fn lemma_sum_agrees(f: spec_fn(int) -> int, g: spec_fn(int) -> int, n: nat)
    requires
        forall|r: int| 0 <= r < n ==> #[trigger] f(r) == g(r),
    ensures
        sum_to(f, n) == sum_to(g, n),
    decreases n,
{
    if n > 0 {
        lemma_sum_agrees(f, g, (n - 1) as nat);
    }
}

/// A sum with one term that does not vanish is that term.
pub proof fn lemma_sum_of_one(f: spec_fn(int) -> int, at: int, n: nat)
    requires
        forall|r: int| 0 <= r < n && r != at ==> #[trigger] f(r) == 0,
    ensures
        sum_to(f, n) == (if 0 <= at < n {
            f(at)
        } else {
            0
        }),
    decreases n,
{
    if n > 0 {
        lemma_sum_of_one(f, at, (n - 1) as nat);
    }
}

/// The lookups of the subtractions, event by event: their total is the sum
/// of the totals of the events.
pub proof fn lemma_sub_lookups_total(es: Seq<AluEvent>, key: Seq<int>)
    ensures
        total(lookup_terms(sub_lookups(es)), key) == sum_to(
            |r: int| total(lookup_terms(event_lookups(es[r])), key),
            es.len(),
        ),
    decreases es.len(),
{
    let f = |r: int| total(lookup_terms(event_lookups(es[r])), key);
    if es.len() == 0 {
        assert(lookup_terms(sub_lookups(es)) =~= Seq::<Term>::empty());
    } else {
        let rest = es.drop_last();
        let g = |r: int| total(lookup_terms(event_lookups(rest[r])), key);
        lemma_sub_lookups_total(rest, key);
        lemma_lookup_terms_concat(sub_lookups(rest), event_lookups(es.last()), key);
        lemma_sum_agrees(f, g, rest.len());
    }
}

/// On the row of a subtraction, what the chip sends to the bus of bytes
/// are the six range checks that the row rests on.
pub proof fn lemma_sub_row_sends(
    sends: Seq<Interaction>,
    receives: Seq<Interaction>,
    e: AluEvent,
    pt: Point<int>,
    key: Seq<int>,
)
    requires
        interactions_view(sends) == sub_sends(),
        interactions_view(receives) == sub_receives(),
        pt.main_local == sub_row(e),
        key.len() > 0,
        key[0] == 4,
    ensures
        total(row_terms(sends, receives, pt), key) == total(lookup_terms(event_lookups(e)), key),
{
    let sent = terms_of(sends, pt, false, 6);
    let received = terms_of(receives, pt, true, 1);
    assert(sends.len() == 6) by {
        assert(interactions_view(sends).len() == 6);
    }
    assert(receives.len() == 1) by {
        assert(interactions_view(receives).len() == 1);
    }
    reveal_with_fuel(terms_of, 7);
    let looked = lookup_terms(event_lookups(e));
    assert(looked.len() == 6);
    assert(sent.len() == 6);
    assert forall|j: int| 0 <= j < 6 implies #[trigger] sent[j] == looked[j] by {
        assert(sends[j]@ == sub_sends()[j]);
        assert(sent[j].key =~= looked[j].key);
    }
    assert(sent =~= looked);
    assert(received.len() == 1);
    assert(receives[0]@ == sub_receives()[0]);
    assert(received[0].key[0] == 3);
    lemma_total_of_others(received, key);
    lemma_total_concat(sent, received, key);
}

/// On a row of zeros, the chip of the subtraction puts nothing on any
/// bus.
pub proof fn lemma_sub_padding_sends_nothing(
    sends: Seq<Interaction>,
    receives: Seq<Interaction>,
    pt: Point<int>,
    key: Seq<int>,
)
    requires
        interactions_view(sends) == sub_sends(),
        interactions_view(receives) == sub_receives(),
        pt.main_local == zeros(16),
    ensures
        total(row_terms(sends, receives, pt), key) == 0,
{
    let sent = terms_of(sends, pt, false, 6);
    let received = terms_of(receives, pt, true, 1);
    assert(sends.len() == 6) by {
        assert(interactions_view(sends).len() == 6);
    }
    assert(receives.len() == 1) by {
        assert(interactions_view(receives).len() == 1);
    }
    reveal_with_fuel(terms_of, 7);
    assert forall|j: int| 0 <= j < 6 implies (#[trigger] sent[j]).mult == 0 by {
        assert(sends[j]@ == sub_sends()[j]);
    }
    assert(receives[0]@ == sub_receives()[0]);
    assert(received[0].mult == 0);
    lemma_total_of_nothing(sent, key);
    lemma_total_of_nothing(received, key);
    lemma_total_concat(sent, received, key);
}

/// Over the trace of the subtractions of a shard, every tuple of the bus
/// of bytes is sent as often as the lookups of the subtractions hold
/// it.
pub proof fn lemma_sub_trace_sends(
    sends: Seq<Interaction>,
    receives: Seq<Interaction>,
    prep: &Trace,
    main: &Trace,
    record: &ExecutionRecord,
    key: Seq<int>,
)
    requires
        interactions_view(sends) == sub_sends(),
        interactions_view(receives) == sub_receives(),
        trace_rows(main) == TableAir::Sub(SubChip).rows(record),
        key.len() > 0,
        key[0] == 4,
    ensures
        total(
            trace_terms(
                sends,
                receives,
                prep,
                main,
                padded_height(record.sub_events@.len()) as int,
                padded_height(record.sub_events@.len()),
            ),
            key,
        ) == total(lookup_terms(sub_lookups(record.sub_events@)), key),
{
    let es = record.sub_events@;
    let n = es.len();
    let h = padded_height(n);
    let rows = TableAir::Sub(SubChip).rows(record);
    crate::trace::lemma_padded_height(n);
    assert(trace_rows(main).len() == h);
    let g = |r: int| total(lookup_terms(event_lookups(es[r])), key);
    let f = |r: int|
        if r < n {
            g(r)
        } else {
            0
        };
    assert forall|r: int| 0 <= r < h implies total(
        row_terms(sends, receives, #[trigger] trace_point(prep, main, r, h as int)),
        key,
    ) == f(r) by {
        let pt = trace_point(prep, main, r, h as int);
        assert(pt.main_local == trace_rows(main)[r]);
        if r < n {
            lemma_sub_row_sends(sends, receives, es[r], pt, key);
        } else {
            lemma_sub_padding_sends_nothing(sends, receives, pt, key);
        }
    }
    lemma_trace_total(sends, receives, prep, main, h as int, h, key, f);
    lemma_sum_stops(f, n, h);
    lemma_sum_agrees(f, g, n);
    lemma_sub_lookups_total(es, key);
}

/// A lookup is a range check as the table holds it: of two bytes, or of
/// one value of sixteen bits.
pub open spec fn is_range_check(l: ByteLookupEvent) -> bool {
    ||| l.opcode == ByteOpcode::U8Range && l.a1 == 0 && l.a2 == 0
    ||| l.opcode == ByteOpcode::U16Range && l.a2 == 0 && l.b == 0 && l.c == 0
}

/// Every lookup is a range check.
pub open spec fn range_checks(ls: Seq<ByteLookupEvent>) -> bool {
    forall|i: int| 0 <= i < ls.len() ==> is_range_check(#[trigger] ls[i])
}

/// A tuple of the bus stands for one lookup only: its total over the
/// lookups is the number of times the lookup occurs.
pub proof fn lemma_lookup_count(ls: Seq<ByteLookupEvent>, l: ByteLookupEvent)
    ensures
        total(lookup_terms(ls), lookup_key(l)) == occurrences(ls, l),
    decreases ls.len(),
{
    if ls.len() > 0 {
        lemma_lookup_count(ls.drop_last(), l);
        assert(lookup_terms(ls).drop_last() =~= lookup_terms(ls.drop_last()));
        let x = ls.last();
        if lookup_key(x) == lookup_key(l) {
            assert(lookup_key(x)[1] == lookup_key(l)[1]);
            assert(lookup_key(x)[2] == lookup_key(l)[2]);
            assert(lookup_key(x)[3] == lookup_key(l)[3]);
            assert(lookup_key(x)[4] == lookup_key(l)[4]);
            assert(lookup_key(x)[5] == lookup_key(l)[5]);
            assert(x.opcode == l.opcode);
            assert(x == l);
        }
    }
}

/// A lookup that no lookup of the sequence is occurs no times.
pub proof fn lemma_absent(ls: Seq<ByteLookupEvent>, l: ByteLookupEvent)
    requires
        forall|i: int| 0 <= i < ls.len() ==> #[trigger] ls[i] != l,
    ensures
        occurrences(ls, l) == 0,
    decreases ls.len(),
{
    if ls.len() > 0 {
        lemma_absent(ls.drop_last(), l);
    }
}

/// The range check of the pair of bytes of row `i` of the table.
pub open spec fn pair_check(i: int) -> ByteLookupEvent {
    ByteLookupEvent {
        opcode: ByteOpcode::U8Range,
        a1: 0,
        a2: 0,
        b: (i / 256) as u8,
        c: (i % 256) as u8,
    }
}

/// The range check of the value of sixteen bits of row `i` of the table.
pub open spec fn value_check(i: int) -> ByteLookupEvent {
    ByteLookupEvent { opcode: ByteOpcode::U16Range, a1: i as u16, a2: 0, b: 0, c: 0 }
}

/// What row `i` of the table adds to the total of a tuple, where the table
/// counts range checks only: the count of the range check of its pair of
/// bytes, or of its value of sixteen bits, where the tuple is that of the
/// check; received, so with the opposite sign.
pub open spec fn table_row_total(lookups: Seq<ByteLookupEvent>, i: int, key: Seq<int>) -> int {
    (if key == lookup_key(pair_check(i)) {
        -(occurrences(lookups, pair_check(i)) as int)
    } else {
        0
    }) + (if key == lookup_key(value_check(i)) {
        -(occurrences(lookups, value_check(i)) as int)
    } else {
        0
    })
}

/// The total of one term.
pub proof fn lemma_total_of_one(t: Term, key: Seq<int>)
    ensures
        total(seq![t], key) == (if t.key == key {
            t.mult
        } else {
            0
        }),
{
    assert(seq![t].drop_last() =~= Seq::<Term>::empty());
    assert(total(Seq::<Term>::empty(), key) == 0);
}

/// On row `i` of the table, what the table receives.
pub proof fn lemma_table_row_receives(
    receives: Seq<Interaction>,
    lookups: Seq<ByteLookupEvent>,
    i: int,
    pt: Point<int>,
    key: Seq<int>,
)
    requires
        interactions_view(receives) == byte_receives(),
        0 <= i < 65536,
        pt.prep_local == preprocessed_row((i / 256) as u8, (i % 256) as u8),
        pt.main_local == byte_rows(lookups)[i],
        range_checks(lookups),
    ensures
        total(row_terms(Seq::empty(), receives, pt), key) == table_row_total(lookups, i, key),
{
    let b = (i / 256) as u8;
    let c = (i % 256) as u8;
    assert(receives.len() == 9) by {
        assert(interactions_view(receives).len() == 9);
    }
    reveal_with_fuel(terms_of, 10);
    let ts = terms_of(receives, pt, true, 9);
    assert(row_terms(Seq::empty(), receives, pt) =~= ts);
    assert(ts.len() == 9);
    assert forall|j: int| 0 <= j < 9 implies (#[trigger] ts[j]).mult == -byte_multiplicity(
        lookups,
        ByteOpcode::at(j),
        b,
        c,
    ) && ts[j].key == key_of(&receives[j], pt) by {
        assert(receives[j]@ == byte_receives()[j]);
    }
    assert forall|j: int| 0 <= j < 9 && j != 4 && j != 8 implies (#[trigger] ts[j]).mult == 0 by {
        let op = ByteOpcode::at(j);
        if !(op == ByteOpcode::MSB && c != 255) {
            let l = lookup_of(op, b, c);
            assert(l.opcode == op);
            assert forall|k: int| 0 <= k < lookups.len() implies #[trigger] lookups[k] != l by {
                assert(is_range_check(lookups[k]));
            }
            lemma_absent(lookups, l);
        }
    }
    assert(receives[4]@ == interactions_view(receives)[4]);
    assert(byte_receives()[4] == byte_receive(4));
    assert(receives[8]@ == interactions_view(receives)[8]);
    assert(byte_receives()[8] == byte_receive(8));
    assert(ts[4].key =~= lookup_key(pair_check(i)));
    assert(byte_result(ByteOpcode::U16Range, b, c).0 as int == i);
    assert(ts[8].key =~= lookup_key(value_check(i)));
    assert(lookup_of(ByteOpcode::U8Range, b, c) == pair_check(i));
    assert(lookup_of(ByteOpcode::U16Range, b, c) == value_check(i));
    let low = ts.subrange(0, 4);
    let mid = ts.subrange(5, 8);
    assert(ts =~= low + seq![ts[4]] + mid + seq![ts[8]]);
    lemma_total_of_nothing(low, key);
    lemma_total_of_nothing(mid, key);
    lemma_total_of_one(ts[4], key);
    lemma_total_of_one(ts[8], key);
    lemma_total_concat(low, seq![ts[4]], key);
    lemma_total_concat(low + seq![ts[4]], mid, key);
    lemma_total_concat(low + seq![ts[4]] + mid, seq![ts[8]], key);
}

/// Over the rows of a table that counts range checks, the sum of what the
/// rows add to the total of a tuple is the number of times that the
/// lookups hold the tuple.
pub proof fn lemma_table_rows_sum(lookups: Seq<ByteLookupEvent>, key: Seq<int>)
    requires
        range_checks(lookups),
    ensures
        sum_to(|r: int| table_row_total(lookups, r, key), 65536) == -total(
            lookup_terms(lookups),
            key,
        ),
{
    let f = |r: int| table_row_total(lookups, r, key);
    if exists|i: int| 0 <= i < 65536 && key == lookup_key(pair_check(i)) {
        let i = choose|i: int| 0 <= i < 65536 && key == lookup_key(pair_check(i));
        assert forall|r: int| 0 <= r < 65536 && r != i implies #[trigger] f(r) == 0 by {
            if key == lookup_key(pair_check(r)) {
                assert(lookup_key(pair_check(r))[4] == lookup_key(pair_check(i))[4]);
                assert(lookup_key(pair_check(r))[5] == lookup_key(pair_check(i))[5]);
                assert(false);
            }
            assert(lookup_key(value_check(r))[1] != lookup_key(pair_check(i))[1]);
        }
        assert(lookup_key(value_check(i))[1] != lookup_key(pair_check(i))[1]);
        lemma_sum_of_one(f, i, 65536);
        lemma_lookup_count(lookups, pair_check(i));
    } else if exists|i: int| 0 <= i < 65536 && key == lookup_key(value_check(i)) {
        let i = choose|i: int| 0 <= i < 65536 && key == lookup_key(value_check(i));
        assert forall|r: int| 0 <= r < 65536 && r != i implies #[trigger] f(r) == 0 by {
            if key == lookup_key(value_check(r)) {
                assert(lookup_key(value_check(r))[2] == lookup_key(value_check(i))[2]);
                assert(false);
            }
        }
        lemma_sum_of_one(f, i, 65536);
        lemma_lookup_count(lookups, value_check(i));
    } else {
        assert forall|r: int| 0 <= r < 65536 implies #[trigger] f(r) == 0 by {}
        lemma_sum_of_one(f, 0, 65536);
        let ts = lookup_terms(lookups);
        assert forall|k: int| 0 <= k < ts.len() implies (#[trigger] ts[k]).key != key by {
            let l = lookups[k];
            assert(is_range_check(l));
            if l.opcode == ByteOpcode::U8Range {
                let i = 256 * l.b + l.c;
                assert(pair_check(i) == l);
            } else {
                let i = l.a1 as int;
                assert(value_check(i) == l);
            }
        }
        lemma_total_of_others(ts, key);
    }
}

/// Over the trace of a table of bytes that counts range checks, every
/// tuple is received as often as the lookups hold it.
pub proof fn lemma_table_receives(
    receives: Seq<Interaction>,
    prep: &Trace,
    main: &Trace,
    lookups: Seq<ByteLookupEvent>,
    key: Seq<int>,
)
    requires
        interactions_view(receives) == byte_receives(),
        trace_rows(prep) == TableAir::ByteLookup(ByteChip).preprocessed_rows(),
        trace_rows(main) == byte_rows(lookups),
        range_checks(lookups),
    ensures
        total(trace_terms(Seq::empty(), receives, prep, main, 65536, 65536), key) == -total(
            lookup_terms(lookups),
            key,
        ),
{
    let f = |r: int| table_row_total(lookups, r, key);
    assert(trace_rows(prep).len() == 65536);
    assert(trace_rows(main).len() == 65536);
    assert forall|r: int| 0 <= r < 65536 implies total(
        row_terms(Seq::empty(), receives, #[trigger] trace_point(prep, main, r, 65536)),
        key,
    ) == f(r) by {
        let pt = trace_point(prep, main, r, 65536);
        assert(pt.prep_local == trace_rows(prep)[r]);
        assert(pt.main_local == trace_rows(main)[r]);
        lemma_table_row_receives(receives, lookups, r, pt, key);
    }
    lemma_trace_total(Seq::empty(), receives, prep, main, 65536, 65536, key, f);
    lemma_table_rows_sum(lookups, key);
}

/// The terms of interactions on a point, with the sign given.
pub open spec fn spec_terms(xs: Seq<InteractionSpec>, pt: Point<int>, negative: bool) -> Seq<Term> {
    Seq::new(
        xs.len(),
        |j: int|
            Term {
                key: seq![xs[j].kind.index_spec()] + eval_all(xs[j].values, pt),
                mult: if negative {
                    -xs[j].multiplicity.eval_base(pt)
                } else {
                    xs[j].multiplicity.eval_base(pt)
                },
            },
    )
}

/// The terms of interactions are those of what the interactions hold.
pub proof fn lemma_terms_view(xs: Seq<Interaction>, pt: Point<int>, negative: bool, k: nat)
    requires
        k <= xs.len(),
    ensures
        terms_of(xs, pt, negative, k) == spec_terms(interactions_view(xs), pt, negative).subrange(
            0,
            k as int,
        ),
    decreases k,
{
    let all = spec_terms(interactions_view(xs), pt, negative);
    if k > 0 {
        lemma_terms_view(xs, pt, negative, (k - 1) as nat);
        assert(xs[k - 1]@ == interactions_view(xs)[k - 1]);
        assert(terms_of(xs, pt, negative, k) =~= all.subrange(0, k as int));
    } else {
        assert(terms_of(xs, pt, negative, k) =~= all.subrange(0, 0));
    }
}

/// The terms of a row, from what the interactions hold.
pub proof fn lemma_row_terms_view(sends: Seq<Interaction>, receives: Seq<Interaction>, pt: Point<int>)
    ensures
        row_terms(sends, receives, pt) == spec_terms(interactions_view(sends), pt, false)
            + spec_terms(interactions_view(receives), pt, true),
{
    lemma_terms_view(sends, pt, false, sends.len());
    lemma_terms_view(receives, pt, true, receives.len());
    let s = spec_terms(interactions_view(sends), pt, false);
    let r = spec_terms(interactions_view(receives), pt, true);
    assert(s.subrange(0, sends.len() as int) =~= s);
    assert(r.subrange(0, receives.len() as int) =~= r);
}

/// Interactions with other buses add nothing to the total of a tuple of
/// the bus of bytes.
pub proof fn lemma_other_buses(xs: Seq<InteractionSpec>, pt: Point<int>, negative: bool, key: Seq<int>)
    requires
        forall|j: int| 0 <= j < xs.len() ==> (#[trigger] xs[j]).kind != InteractionKind::Byte,
        key.len() > 0,
        key[0] == 4,
    ensures
        total(spec_terms(xs, pt, negative), key) == 0,
{
    let ts = spec_terms(xs, pt, negative);
    assert forall|j: int| 0 <= j < ts.len() implies (#[trigger] ts[j]).key != key by {
        assert(ts[j].key[0] == xs[j].kind.index_spec());
    }
    lemma_total_of_others(ts, key);
}

/// What an access rests on is what it sends to the bus of bytes, on a row
/// that is real and holds the two limbs of the difference of the times.
pub proof fn lemma_access_sends(
    cols: MemoryReadWriteCols<usize>,
    addr: Expr,
    do_check: usize,
    a: Access,
    pt: Point<int>,
    key: Seq<int>,
)
    requires
        pt.main_local[do_check as int] == 1,
        pt.main_local[cols.access.diff_16bit_limb as int] == time_difference(a) % 65536,
        pt.main_local[cols.access.diff_8bit_limb as int] == (time_difference(a) / 65536) % 256,
        key.len() > 0,
        key[0] == 4,
    ensures
        total(spec_terms(access_sends(cols, addr, do_check), pt, false), key) == total(
            lookup_terms(access_lookups(a)),
            key,
        ),
{
    let ts = spec_terms(access_sends(cols, addr, do_check), pt, false);
    let ls = lookup_terms(access_lookups(a));
    assert(ts.len() == 3);
    assert(ls.len() == 2);
    let d = time_difference(a);
    assert(0 <= d % 65536 < 65536);
    assert(0 <= (d / 65536) % 256 < 256);
    assert(ts[0].key =~= ls[0].key);
    assert(ts[1].key =~= ls[1].key);
    assert(ts[2].key[0] == 1);
    assert(ts.subrange(0, 2) =~= ls);
    assert(ts =~= ls + seq![ts[2]]);
    lemma_total_of_one(ts[2], key);
    lemma_total_concat(ls, seq![ts[2]], key);
}

/// On a row that is not real, an access sends nothing.
pub proof fn lemma_idle_access_sends_nothing(
    cols: MemoryReadWriteCols<usize>,
    addr: Expr,
    do_check: usize,
    pt: Point<int>,
    key: Seq<int>,
)
    requires
        pt.main_local[do_check as int] == 0,
    ensures
        total(spec_terms(access_sends(cols, addr, do_check), pt, false), key) == 0,
{
    let ts = spec_terms(access_sends(cols, addr, do_check), pt, false);
    lemma_total_of_nothing(ts, key);
}

/// What the accesses to a slice rest on is what they send to the bus of
/// bytes.
pub proof fn lemma_slice_sends(
    maps: Seq<MemoryReadWriteCols<usize>>,
    ptr: usize,
    offset: u32,
    do_check: usize,
    n: nat,
    accesses: spec_fn(int) -> Access,
    pt: Point<int>,
    key: Seq<int>,
)
    requires
        pt.main_local[do_check as int] == 1,
        forall|i: int|
            0 <= i < n ==> pt.main_local[(#[trigger] maps[i]).access.diff_16bit_limb as int]
                == time_difference(accesses(i)) % 65536,
        forall|i: int|
            0 <= i < n ==> pt.main_local[(#[trigger] maps[i]).access.diff_8bit_limb as int] == (
            time_difference(accesses(i)) / 65536) % 256,
        key.len() > 0,
        key[0] == 4,
    ensures
        total(spec_terms(slice_sends(maps, ptr, offset, do_check, n), pt, false), key) == sum_to(
            |i: int| total(lookup_terms(access_lookups(accesses(i))), key),
            n,
        ),
    decreases n,
{
    if n == 0 {
        assert(spec_terms(slice_sends(maps, ptr, offset, do_check, n), pt, false) =~= Seq::<
            Term,
        >::empty());
    } else {
        lemma_slice_sends(maps, ptr, offset, do_check, (n - 1) as nat, accesses, pt, key);
        let before = slice_sends(maps, ptr, offset, do_check, (n - 1) as nat);
        let here = access_sends(maps[n - 1], slice_addr(ptr, offset, n - 1), do_check);
        assert(spec_terms(before + here, pt, false) =~= spec_terms(before, pt, false) + spec_terms(
            here,
            pt,
            false,
        ));
        lemma_total_concat(spec_terms(before, pt, false), spec_terms(here, pt, false), key);
        lemma_access_sends(
            maps[n - 1],
            slice_addr(ptr, offset, n - 1),
            do_check,
            accesses(n - 1),
            pt,
            key,
        );
    }
}

/// On a row that is not real, the accesses to a slice send nothing.
pub proof fn lemma_idle_slice_sends_nothing(
    maps: Seq<MemoryReadWriteCols<usize>>,
    ptr: usize,
    offset: u32,
    do_check: usize,
    n: nat,
    pt: Point<int>,
    key: Seq<int>,
)
    requires
        pt.main_local[do_check as int] == 0,
    ensures
        total(spec_terms(slice_sends(maps, ptr, offset, do_check, n), pt, false), key) == 0,
    decreases n,
{
    if n == 0 {
        assert(spec_terms(slice_sends(maps, ptr, offset, do_check, n), pt, false) =~= Seq::<
            Term,
        >::empty());
    } else {
        lemma_idle_slice_sends_nothing(maps, ptr, offset, do_check, (n - 1) as nat, pt, key);
        let before = slice_sends(maps, ptr, offset, do_check, (n - 1) as nat);
        let here = access_sends(maps[n - 1], slice_addr(ptr, offset, n - 1), do_check);
        assert(spec_terms(before + here, pt, false) =~= spec_terms(before, pt, false) + spec_terms(
            here,
            pt,
            false,
        ));
        lemma_total_concat(spec_terms(before, pt, false), spec_terms(here, pt, false), key);
        lemma_idle_access_sends_nothing(
            maps[n - 1],
            slice_addr(ptr, offset, n - 1),
            do_check,
            pt,
            key,
        );
    }
}

/// What the accesses to a slice receive is on the bus of memory.
pub proof fn lemma_slice_receives_memory(
    shard: usize,
    clk: usize,
    maps: Seq<MemoryReadWriteCols<usize>>,
    ptr: usize,
    offset: u32,
    do_check: usize,
    n: nat,
)
    ensures
        forall|j: int|
            0 <= j < slice_receives(shard, clk, maps, ptr, offset, do_check, n).len() ==> (
            #[trigger] slice_receives(shard, clk, maps, ptr, offset, do_check, n)[j]).kind
                == InteractionKind::Memory,
    decreases n,
{
    if n > 0 {
        lemma_slice_receives_memory(shard, clk, maps, ptr, offset, do_check, (n - 1) as nat);
    }
}

/// The sum of the sums of two functions.
pub proof fn lemma_sum_adds(f: spec_fn(int) -> int, g: spec_fn(int) -> int, n: nat)
    ensures
        sum_to(|i: int| f(i) + g(i), n) == sum_to(f, n) + sum_to(g, n),
    decreases n,
{
    if n > 0 {
        lemma_sum_adds(f, g, (n - 1) as nat);
        let h = |i: int| f(i) + g(i);
        assert(sum_to(h, n) == sum_to(h, (n - 1) as nat) + h(n - 1));
    }
}

/// Where the columns of the writes stand: those of write `i` from `13 i`
/// on.
pub proof fn lemma_writes_cols(records: Seq<MemoryWriteRecord>, n: nat, i: int, k: int)
    requires
        0 <= i < n,
        0 <= k < 13,
    ensures
        writes_cols(records, n).len() == 13 * n,
        writes_cols(records, n)[13 * i + k] == access_cols(write_access(records[i]))[k],
    decreases n,
{
    lemma_writes_len(records, (n - 1) as nat);
    if i < n - 1 {
        lemma_writes_cols(records, (n - 1) as nat, i, k);
    }
}

/// Thirteen columns for every write.
pub proof fn lemma_writes_len(records: Seq<MemoryWriteRecord>, n: nat)
    ensures
        writes_cols(records, n).len() == 13 * n,
    decreases n,
{
    if n > 0 {
        lemma_writes_len(records, (n - 1) as nat);
    }
}

/// Where the columns of the reads stand: those of read `i` from `9 i` on.
pub proof fn lemma_reads_cols(records: Seq<MemoryReadRecord>, n: nat, i: int, k: int)
    requires
        0 <= i < n,
        0 <= k < 9,
    ensures
        reads_cols(records, n).len() == 9 * n,
        reads_cols(records, n)[9 * i + k] == read_cols(read_access(records[i]))[k],
    decreases n,
{
    lemma_reads_len(records, (n - 1) as nat);
    if i < n - 1 {
        lemma_reads_cols(records, (n - 1) as nat, i, k);
    }
}

/// Nine columns for every read.
pub proof fn lemma_reads_len(records: Seq<MemoryReadRecord>, n: nat)
    ensures
        reads_cols(records, n).len() == 9 * n,
    decreases n,
{
    if n > 0 {
        lemma_reads_len(records, (n - 1) as nat);
    }
}

/// The lookups of the accesses of a decompression of ed25519, word by
/// word: their total is the sum over the writes and the sum over the
/// reads.
pub proof fn lemma_ed_access_lookups_total(
    xs: Seq<MemoryWriteRecord>,
    ys: Seq<MemoryReadRecord>,
    n: nat,
    key: Seq<int>,
)
    ensures
        total(lookup_terms(ed_access_lookups(xs, ys, n)), key) == sum_to(
            |i: int| total(lookup_terms(access_lookups(write_access(xs[i]))), key),
            n,
        ) + sum_to(|i: int| total(lookup_terms(access_lookups(read_access(ys[i]))), key), n),
    decreases n,
{
    if n == 0 {
        assert(lookup_terms(ed_access_lookups(xs, ys, n)) =~= Seq::<Term>::empty());
    } else {
        lemma_ed_access_lookups_total(xs, ys, (n - 1) as nat, key);
        let before = ed_access_lookups(xs, ys, (n - 1) as nat);
        let w = access_lookups(write_access(xs[n - 1]));
        let r = access_lookups(read_access(ys[n - 1]));
        lemma_lookup_terms_concat(before, w, key);
        lemma_lookup_terms_concat(before + w, r, key);
    }
}

/// The row of a decompression of ed25519 is real.
pub proof fn lemma_ed_row_is_real(e: &EdDecompressEvent)
    ensures
        ed_row(e)[0] == 1,
{
}

/// The row of a decompression of ed25519 holds, for every access, the two
/// limbs of the difference of the times.
pub proof fn lemma_ed_row_limbs(e: &EdDecompressEvent, i: int)
    requires
        0 <= i < 8,
    ensures
        ed_row(e)[5 + 13 * i + 11] == time_difference(write_access(e.x_memory_records@[i])) % 65536,
        ed_row(e)[5 + 13 * i + 12] == (time_difference(write_access(e.x_memory_records@[i]))
            / 65536) % 256,
        ed_row(e)[109 + 9 * i + 7] == time_difference(read_access(e.y_memory_records@[i])) % 65536,
        ed_row(e)[109 + 9 * i + 8] == (time_difference(read_access(e.y_memory_records@[i])) / 65536)
            % 256,
{
    let xs = e.x_memory_records@;
    let ys = e.y_memory_records@;
    let row = ed_row(e);
    lemma_writes_len(xs, 8);
    lemma_reads_len(ys, 8);
    lemma_writes_cols(xs, 8, i, 11);
    lemma_writes_cols(xs, 8, i, 12);
    lemma_reads_cols(ys, 8, i, 7);
    lemma_reads_cols(ys, 8, i, 8);
    let front = crate::syscall::precompiles::edwards::trace::ed_header(e) + writes_cols(xs, 8);
    assert(front.len() == 109);
    assert(row[5 + 13 * i + 11] == front[5 + 13 * i + 11]);
    assert(row[5 + 13 * i + 12] == front[5 + 13 * i + 12]);
    assert(front[5 + 13 * i + 11] == writes_cols(xs, 8)[13 * i + 11]);
    assert(front[5 + 13 * i + 12] == writes_cols(xs, 8)[13 * i + 12]);
    let both = front + reads_cols(ys, 8);
    assert(row[109 + 9 * i + 7] == both[109 + 9 * i + 7]);
    assert(row[109 + 9 * i + 8] == both[109 + 9 * i + 8]);
    assert(both[109 + 9 * i + 7] == reads_cols(ys, 8)[9 * i + 7]);
    assert(both[109 + 9 * i + 8] == reads_cols(ys, 8)[9 * i + 8]);
}

/// Where the limbs of the difference of the times of the accesses stand
/// in a row of a decompression of ed25519.
pub proof fn lemma_ed_layout(i: int)
    requires
        0 <= i < 8,
    ensures
        EdDecompressCols::<usize>::layout_spec().x_maps()[i].access.diff_16bit_limb == 5 + 13 * i
            + 11,
        EdDecompressCols::<usize>::layout_spec().x_maps()[i].access.diff_8bit_limb == 5 + 13 * i
            + 12,
        EdDecompressCols::<usize>::layout_spec().y_maps()[i].access.diff_16bit_limb == 109 + 9 * i
            + 7,
        EdDecompressCols::<usize>::layout_spec().y_maps()[i].access.diff_8bit_limb == 109 + 9 * i
            + 8,
{
    let cols = EdDecompressCols::<usize>::layout_spec();
    if i == 0 {
    } else if i == 1 {
    } else if i == 2 {
    } else if i == 3 {
    } else if i == 4 {
    } else if i == 5 {
    } else if i == 6 {
    } else {
    }
}

/// On the row of a decompression of ed25519, what the chip sends to the
/// bus of bytes are the range checks that the row rests on.
pub proof fn lemma_ed_row_sends(
    sends: Seq<Interaction>,
    receives: Seq<Interaction>,
    e: &EdDecompressEvent,
    pt: Point<int>,
    key: Seq<int>,
)
    requires
        interactions_view(sends) == EdDecompressCols::<usize>::layout_spec().sends(),
        interactions_view(receives) == EdDecompressCols::<usize>::layout_spec().receives(),
        pt.main_local == ed_row(e),
        key.len() > 0,
        key[0] == 4,
    ensures
        total(row_terms(sends, receives, pt), key) == total(lookup_terms(ed_event_lookups(e)), key),
{
    let cols = EdDecompressCols::<usize>::layout_spec();
    let xs = e.x_memory_records@;
    let ys = e.y_memory_records@;
    let wx = |i: int| write_access(xs[i]);
    let ry = |i: int| read_access(ys[i]);
    lemma_ed_row_is_real(e);
    assert(cols.is_real == 0);
    assert forall|i: int| 0 <= i < 8 implies pt.main_local[(
    #[trigger] cols.x_maps()[i]).access.diff_16bit_limb as int] == time_difference(wx(i)) % 65536
        && pt.main_local[cols.x_maps()[i].access.diff_8bit_limb as int] == (time_difference(wx(i))
        / 65536) % 256 by {
        lemma_ed_row_limbs(e, i);
        lemma_ed_layout(i);
    }
    assert forall|i: int| 0 <= i < 8 implies pt.main_local[(
    #[trigger] cols.y_maps()[i]).access.diff_16bit_limb as int] == time_difference(ry(i)) % 65536
        && pt.main_local[cols.y_maps()[i].access.diff_8bit_limb as int] == (time_difference(ry(i))
        / 65536) % 256 by {
        lemma_ed_row_limbs(e, i);
        lemma_ed_layout(i);
    }
    let sx = slice_sends(cols.x_maps(), cols.ptr, 0, cols.is_real, 8);
    let sy = slice_sends(cols.y_maps(), cols.ptr, 32, cols.is_real, 8);
    lemma_slice_sends(cols.x_maps(), cols.ptr, 0, cols.is_real, 8, wx, pt, key);
    lemma_slice_sends(cols.y_maps(), cols.ptr, 32, cols.is_real, 8, ry, pt, key);
    assert(spec_terms(sx + sy, pt, false) =~= spec_terms(sx, pt, false) + spec_terms(
        sy,
        pt,
        false,
    ));
    lemma_total_concat(spec_terms(sx, pt, false), spec_terms(sy, pt, false), key);
    lemma_ed_receives_elsewhere(pt, key);
    lemma_row_terms_view(sends, receives, pt);
    lemma_total_concat(
        spec_terms(cols.sends(), pt, false),
        spec_terms(cols.receives(), pt, true),
        key,
    );
    lemma_ed_access_lookups_total(xs, ys, 8, key);
    lemma_sum_agrees(
        |i: int| total(lookup_terms(access_lookups(wx(i))), key),
        |i: int| total(lookup_terms(access_lookups(write_access(xs[i]))), key),
        8,
    );
    lemma_sum_agrees(
        |i: int| total(lookup_terms(access_lookups(ry(i))), key),
        |i: int| total(lookup_terms(access_lookups(read_access(ys[i]))), key),
        8,
    );
}

/// What the chip of the decompression of ed25519 receives is on other
/// buses than that of bytes.
pub proof fn lemma_ed_receives_elsewhere(pt: Point<int>, key: Seq<int>)
    requires
        key.len() > 0,
        key[0] == 4,
    ensures
        total(spec_terms(EdDecompressCols::<usize>::layout_spec().receives(), pt, true), key) == 0,
{
    let cols = EdDecompressCols::<usize>::layout_spec();
    lemma_slice_receives_memory(cols.shard, cols.clk, cols.x_maps(), cols.ptr, 0, cols.is_real, 8);
    lemma_slice_receives_memory(cols.shard, cols.clk, cols.y_maps(), cols.ptr, 32, cols.is_real, 8);
    lemma_other_buses(cols.receives(), pt, true, key);
}

/// On a row that fills the trace up, the chip of the decompression of
/// ed25519 puts nothing on the bus of bytes.
pub proof fn lemma_ed_padding_sends_nothing(
    sends: Seq<Interaction>,
    receives: Seq<Interaction>,
    pt: Point<int>,
    key: Seq<int>,
)
    requires
        interactions_view(sends) == EdDecompressCols::<usize>::layout_spec().sends(),
        interactions_view(receives) == EdDecompressCols::<usize>::layout_spec().receives(),
        pt.main_local == ed_padding_row(),
        key.len() > 0,
        key[0] == 4,
    ensures
        total(row_terms(sends, receives, pt), key) == 0,
{
    let cols = EdDecompressCols::<usize>::layout_spec();
    assert(ed_padding_row()[0] == 0);
    let sx = slice_sends(cols.x_maps(), cols.ptr, 0, cols.is_real, 8);
    let sy = slice_sends(cols.y_maps(), cols.ptr, 32, cols.is_real, 8);
    lemma_idle_slice_sends_nothing(cols.x_maps(), cols.ptr, 0, cols.is_real, 8, pt, key);
    lemma_idle_slice_sends_nothing(cols.y_maps(), cols.ptr, 32, cols.is_real, 8, pt, key);
    assert(spec_terms(sx + sy, pt, false) =~= spec_terms(sx, pt, false) + spec_terms(
        sy,
        pt,
        false,
    ));
    lemma_total_concat(spec_terms(sx, pt, false), spec_terms(sy, pt, false), key);
    lemma_ed_receives_elsewhere(pt, key);
    lemma_row_terms_view(sends, receives, pt);
    lemma_total_concat(
        spec_terms(cols.sends(), pt, false),
        spec_terms(cols.receives(), pt, true),
        key,
    );
}

/// The lookups of the decompressions of ed25519, event by event: their
/// total is the sum of the totals of the events.
pub proof fn lemma_ed_lookups_total(es: Seq<EdDecompressEvent>, key: Seq<int>)
    ensures
        total(lookup_terms(ed_lookups(es)), key) == sum_to(
            |r: int| total(lookup_terms(ed_event_lookups(&es[r])), key),
            es.len(),
        ),
    decreases es.len(),
{
    let f = |r: int| total(lookup_terms(ed_event_lookups(&es[r])), key);
    if es.len() == 0 {
        assert(lookup_terms(ed_lookups(es)) =~= Seq::<Term>::empty());
    } else {
        let rest = es.drop_last();
        let g = |r: int| total(lookup_terms(ed_event_lookups(&rest[r])), key);
        lemma_ed_lookups_total(rest, key);
        lemma_lookup_terms_concat(ed_lookups(rest), ed_event_lookups(&es.last()), key);
        lemma_sum_agrees(f, g, rest.len());
    }
}

/// Over the trace of the decompressions of ed25519 of a shard, every
/// tuple of the bus of bytes is sent as often as the lookups of the
/// decompressions hold it.
pub proof fn lemma_ed_trace_sends(
    sends: Seq<Interaction>,
    receives: Seq<Interaction>,
    prep: &Trace,
    main: &Trace,
    record: &ExecutionRecord,
    key: Seq<int>,
)
    requires
        interactions_view(sends) == EdDecompressCols::<usize>::layout_spec().sends(),
        interactions_view(receives) == EdDecompressCols::<usize>::layout_spec().receives(),
        trace_rows(main) == TableAir::Ed25519Decompress(EdDecompressChip).rows(record),
        key.len() > 0,
        key[0] == 4,
    ensures
        total(
            trace_terms(
                sends,
                receives,
                prep,
                main,
                padded_height(record.ed_decompress_events@.len()) as int,
                padded_height(record.ed_decompress_events@.len()),
            ),
            key,
        ) == total(lookup_terms(ed_lookups(record.ed_decompress_events@)), key),
{
    let es = record.ed_decompress_events@;
    let n = es.len();
    let h = padded_height(n);
    crate::trace::lemma_padded_height(n);
    assert(trace_rows(main).len() == h);
    let g = |r: int| total(lookup_terms(ed_event_lookups(&es[r])), key);
    let f = |r: int|
        if r < n {
            g(r)
        } else {
            0
        };
    assert forall|r: int| 0 <= r < h implies total(
        row_terms(sends, receives, #[trigger] trace_point(prep, main, r, h as int)),
        key,
    ) == f(r) by {
        let pt = trace_point(prep, main, r, h as int);
        assert(pt.main_local == trace_rows(main)[r]);
        if r < n {
            lemma_ed_row_sends(sends, receives, &es[r], pt, key);
        } else {
            lemma_ed_padding_sends_nothing(sends, receives, pt, key);
        }
    }
    lemma_trace_total(sends, receives, prep, main, h as int, h, key, f);
    lemma_sum_stops(f, n, h);
    lemma_sum_agrees(f, g, n);
    lemma_ed_lookups_total(es, key);
}

/// The lookups of the accesses of a decompression of secp256k1, word by
/// word: their total is the sum over the reads and the sum over the
/// writes.
pub proof fn lemma_k256_access_lookups_total(
    xs: Seq<MemoryReadRecord>,
    ys: Seq<MemoryWriteRecord>,
    n: nat,
    key: Seq<int>,
)
    ensures
        total(lookup_terms(k256_access_lookups(xs, ys, n)), key) == sum_to(
            |i: int| total(lookup_terms(access_lookups(read_access(xs[i]))), key),
            n,
        ) + sum_to(|i: int| total(lookup_terms(access_lookups(write_access(ys[i]))), key), n),
    decreases n,
{
    if n == 0 {
        assert(lookup_terms(k256_access_lookups(xs, ys, n)) =~= Seq::<Term>::empty());
    } else {
        lemma_k256_access_lookups_total(xs, ys, (n - 1) as nat, key);
        let before = k256_access_lookups(xs, ys, (n - 1) as nat);
        let r = access_lookups(read_access(xs[n - 1]));
        let w = access_lookups(write_access(ys[n - 1]));
        lemma_lookup_terms_concat(before, r, key);
        lemma_lookup_terms_concat(before + r, w, key);
    }
}

/// The row of a decompression of secp256k1 is real.
pub proof fn lemma_k256_row_is_real(e: &K256DecompressEvent)
    ensures
        k256_row(e)[0] == 1,
{
}

/// The row of a decompression of secp256k1 holds, for every access, the
/// two limbs of the difference of the times.
pub proof fn lemma_k256_row_limbs(e: &K256DecompressEvent, i: int)
    requires
        0 <= i < 8,
    ensures
        k256_row(e)[4 + 9 * i + 7] == time_difference(read_access(e.x_memory_records@[i])) % 65536,
        k256_row(e)[4 + 9 * i + 8] == (time_difference(read_access(e.x_memory_records@[i])) / 65536)
            % 256,
        k256_row(e)[76 + 13 * i + 11] == time_difference(write_access(e.y_memory_records@[i]))
            % 65536,
        k256_row(e)[76 + 13 * i + 12] == (time_difference(write_access(e.y_memory_records@[i]))
            / 65536) % 256,
{
    let xs = e.x_memory_records@;
    let ys = e.y_memory_records@;
    let row = k256_row(e);
    lemma_reads_len(xs, 8);
    lemma_writes_len(ys, 8);
    lemma_reads_cols(xs, 8, i, 7);
    lemma_reads_cols(xs, 8, i, 8);
    lemma_writes_cols(ys, 8, i, 11);
    lemma_writes_cols(ys, 8, i, 12);
    let front = k256_header(e) + reads_cols(xs, 8);
    assert(front.len() == 76);
    assert(row[4 + 9 * i + 7] == front[4 + 9 * i + 7]);
    assert(row[4 + 9 * i + 8] == front[4 + 9 * i + 8]);
    assert(front[4 + 9 * i + 7] == reads_cols(xs, 8)[9 * i + 7]);
    assert(front[4 + 9 * i + 8] == reads_cols(xs, 8)[9 * i + 8]);
    let both = front + writes_cols(ys, 8);
    assert(row[76 + 13 * i + 11] == both[76 + 13 * i + 11]);
    assert(row[76 + 13 * i + 12] == both[76 + 13 * i + 12]);
    assert(both[76 + 13 * i + 11] == writes_cols(ys, 8)[13 * i + 11]);
    assert(both[76 + 13 * i + 12] == writes_cols(ys, 8)[13 * i + 12]);
}

/// Where the limbs of the difference of the times of the accesses stand
/// in a row of a decompression of secp256k1.
pub proof fn lemma_k256_layout(i: int)
    requires
        0 <= i < 8,
    ensures
        K256DecompressCols::<usize>::layout_spec().x_maps()[i].access.diff_16bit_limb == 4 + 9 * i
            + 7,
        K256DecompressCols::<usize>::layout_spec().x_maps()[i].access.diff_8bit_limb == 4 + 9 * i
            + 8,
        K256DecompressCols::<usize>::layout_spec().y_maps()[i].access.diff_16bit_limb == 76 + 13
            * i + 11,
        K256DecompressCols::<usize>::layout_spec().y_maps()[i].access.diff_8bit_limb == 76 + 13 * i
            + 12,
{
    let cols = K256DecompressCols::<usize>::layout_spec();
    if i == 0 {
    } else if i == 1 {
    } else if i == 2 {
    } else if i == 3 {
    } else if i == 4 {
    } else if i == 5 {
    } else if i == 6 {
    } else {
    }
}

/// What the chip of the decompression of secp256k1 receives is on the bus
/// of memory.
pub proof fn lemma_k256_receives_elsewhere(pt: Point<int>, key: Seq<int>)
    requires
        key.len() > 0,
        key[0] == 4,
    ensures
        total(spec_terms(K256DecompressCols::<usize>::layout_spec().receives(), pt, true), key)
            == 0,
{
    let cols = K256DecompressCols::<usize>::layout_spec();
    lemma_slice_receives_memory(cols.shard, cols.clk, cols.x_maps(), cols.ptr, 32, cols.is_real, 8);
    lemma_slice_receives_memory(cols.shard, cols.clk, cols.y_maps(), cols.ptr, 0, cols.is_real, 8);
    lemma_other_buses(cols.receives(), pt, true, key);
}

/// On the row of a decompression of secp256k1, what the chip sends to the
/// bus of bytes are the range checks that the row rests on.
pub proof fn lemma_k256_row_sends(
    sends: Seq<Interaction>,
    receives: Seq<Interaction>,
    e: &K256DecompressEvent,
    pt: Point<int>,
    key: Seq<int>,
)
    requires
        interactions_view(sends) == K256DecompressCols::<usize>::layout_spec().sends(),
        interactions_view(receives) == K256DecompressCols::<usize>::layout_spec().receives(),
        pt.main_local == k256_row(e),
        key.len() > 0,
        key[0] == 4,
    ensures
        total(row_terms(sends, receives, pt), key) == total(
            lookup_terms(k256_event_lookups(e)),
            key,
        ),
{
    let cols = K256DecompressCols::<usize>::layout_spec();
    let xs = e.x_memory_records@;
    let ys = e.y_memory_records@;
    let rx = |i: int| read_access(xs[i]);
    let wy = |i: int| write_access(ys[i]);
    lemma_k256_row_is_real(e);
    assert(cols.is_real == 0);
    assert forall|i: int| 0 <= i < 8 implies pt.main_local[(
    #[trigger] cols.x_maps()[i]).access.diff_16bit_limb as int] == time_difference(rx(i)) % 65536
        && pt.main_local[cols.x_maps()[i].access.diff_8bit_limb as int] == (time_difference(rx(i))
        / 65536) % 256 by {
        lemma_k256_row_limbs(e, i);
        lemma_k256_layout(i);
    }
    assert forall|i: int| 0 <= i < 8 implies pt.main_local[(
    #[trigger] cols.y_maps()[i]).access.diff_16bit_limb as int] == time_difference(wy(i)) % 65536
        && pt.main_local[cols.y_maps()[i].access.diff_8bit_limb as int] == (time_difference(wy(i))
        / 65536) % 256 by {
        lemma_k256_row_limbs(e, i);
        lemma_k256_layout(i);
    }
    let sx = slice_sends(cols.x_maps(), cols.ptr, 32, cols.is_real, 8);
    let sy = slice_sends(cols.y_maps(), cols.ptr, 0, cols.is_real, 8);
    lemma_slice_sends(cols.x_maps(), cols.ptr, 32, cols.is_real, 8, rx, pt, key);
    lemma_slice_sends(cols.y_maps(), cols.ptr, 0, cols.is_real, 8, wy, pt, key);
    assert(spec_terms(sx + sy, pt, false) =~= spec_terms(sx, pt, false) + spec_terms(
        sy,
        pt,
        false,
    ));
    lemma_total_concat(spec_terms(sx, pt, false), spec_terms(sy, pt, false), key);
    lemma_k256_receives_elsewhere(pt, key);
    lemma_row_terms_view(sends, receives, pt);
    lemma_total_concat(
        spec_terms(cols.sends(), pt, false),
        spec_terms(cols.receives(), pt, true),
        key,
    );
    lemma_k256_access_lookups_total(xs, ys, 8, key);
    lemma_sum_agrees(
        |i: int| total(lookup_terms(access_lookups(rx(i))), key),
        |i: int| total(lookup_terms(access_lookups(read_access(xs[i]))), key),
        8,
    );
    lemma_sum_agrees(
        |i: int| total(lookup_terms(access_lookups(wy(i))), key),
        |i: int| total(lookup_terms(access_lookups(write_access(ys[i]))), key),
        8,
    );
}

/// On a row that fills the trace up, the chip of the decompression of
/// secp256k1 puts nothing on the bus of bytes.
pub proof fn lemma_k256_padding_sends_nothing(
    sends: Seq<Interaction>,
    receives: Seq<Interaction>,
    pt: Point<int>,
    key: Seq<int>,
)
    requires
        interactions_view(sends) == K256DecompressCols::<usize>::layout_spec().sends(),
        interactions_view(receives) == K256DecompressCols::<usize>::layout_spec().receives(),
        pt.main_local == k256_padding_row(),
        key.len() > 0,
        key[0] == 4,
    ensures
        total(row_terms(sends, receives, pt), key) == 0,
{
    let cols = K256DecompressCols::<usize>::layout_spec();
    assert(k256_padding_row()[0] == 0);
    let sx = slice_sends(cols.x_maps(), cols.ptr, 32, cols.is_real, 8);
    let sy = slice_sends(cols.y_maps(), cols.ptr, 0, cols.is_real, 8);
    lemma_idle_slice_sends_nothing(cols.x_maps(), cols.ptr, 32, cols.is_real, 8, pt, key);
    lemma_idle_slice_sends_nothing(cols.y_maps(), cols.ptr, 0, cols.is_real, 8, pt, key);
    assert(spec_terms(sx + sy, pt, false) =~= spec_terms(sx, pt, false) + spec_terms(
        sy,
        pt,
        false,
    ));
    lemma_total_concat(spec_terms(sx, pt, false), spec_terms(sy, pt, false), key);
    lemma_k256_receives_elsewhere(pt, key);
    lemma_row_terms_view(sends, receives, pt);
    lemma_total_concat(
        spec_terms(cols.sends(), pt, false),
        spec_terms(cols.receives(), pt, true),
        key,
    );
}

/// The lookups of the decompressions of secp256k1, event by event: their
/// total is the sum of the totals of the events.
pub proof fn lemma_k256_lookups_total(es: Seq<K256DecompressEvent>, key: Seq<int>)
    ensures
        total(lookup_terms(k256_lookups(es)), key) == sum_to(
            |r: int| total(lookup_terms(k256_event_lookups(&es[r])), key),
            es.len(),
        ),
    decreases es.len(),
{
    let f = |r: int| total(lookup_terms(k256_event_lookups(&es[r])), key);
    if es.len() == 0 {
        assert(lookup_terms(k256_lookups(es)) =~= Seq::<Term>::empty());
    } else {
        let rest = es.drop_last();
        let g = |r: int| total(lookup_terms(k256_event_lookups(&rest[r])), key);
        lemma_k256_lookups_total(rest, key);
        lemma_lookup_terms_concat(k256_lookups(rest), k256_event_lookups(&es.last()), key);
        lemma_sum_agrees(f, g, rest.len());
    }
}

/// Over the trace of the decompressions of secp256k1 of a shard, every
/// tuple of the bus of bytes is sent as often as the lookups of the
/// decompressions hold it.
pub proof fn lemma_k256_trace_sends(
    sends: Seq<Interaction>,
    receives: Seq<Interaction>,
    prep: &Trace,
    main: &Trace,
    record: &ExecutionRecord,
    key: Seq<int>,
)
    requires
        interactions_view(sends) == K256DecompressCols::<usize>::layout_spec().sends(),
        interactions_view(receives) == K256DecompressCols::<usize>::layout_spec().receives(),
        trace_rows(main) == TableAir::Secp256k1Decompress(K256DecompressChip).rows(record),
        key.len() > 0,
        key[0] == 4,
    ensures
        total(
            trace_terms(
                sends,
                receives,
                prep,
                main,
                padded_height(record.k256_decompress_events@.len()) as int,
                padded_height(record.k256_decompress_events@.len()),
            ),
            key,
        ) == total(lookup_terms(k256_lookups(record.k256_decompress_events@)), key),
{
    let es = record.k256_decompress_events@;
    let n = es.len();
    let h = padded_height(n);
    crate::trace::lemma_padded_height(n);
    assert(trace_rows(main).len() == h);
    let g = |r: int| total(lookup_terms(k256_event_lookups(&es[r])), key);
    let f = |r: int|
        if r < n {
            g(r)
        } else {
            0
        };
    assert forall|r: int| 0 <= r < h implies total(
        row_terms(sends, receives, #[trigger] trace_point(prep, main, r, h as int)),
        key,
    ) == f(r) by {
        let pt = trace_point(prep, main, r, h as int);
        assert(pt.main_local == trace_rows(main)[r]);
        if r < n {
            lemma_k256_row_sends(sends, receives, &es[r], pt, key);
        } else {
            lemma_k256_padding_sends_nothing(sends, receives, pt, key);
        }
    }
    lemma_trace_total(sends, receives, prep, main, h as int, h, key, f);
    lemma_sum_stops(f, n, h);
    lemma_sum_agrees(f, g, n);
    lemma_k256_lookups_total(es, key);
}

/// A chip without interactions on the bus of bytes adds nothing to the
/// total of a tuple of that bus.
pub proof fn lemma_quiet_chip(
    sends: Seq<Interaction>,
    receives: Seq<Interaction>,
    prep: &Trace,
    main: &Trace,
    height: int,
    n: nat,
    key: Seq<int>,
)
    requires
        forall|j: int|
            0 <= j < sends.len() ==> (#[trigger] interactions_view(sends)[j]).kind
                != InteractionKind::Byte,
        forall|j: int|
            0 <= j < receives.len() ==> (#[trigger] interactions_view(receives)[j]).kind
                != InteractionKind::Byte,
        key.len() > 0,
        key[0] == 4,
    ensures
        total(trace_terms(sends, receives, prep, main, height, n), key) == 0,
{
    let f = |r: int| 0int;
    assert forall|r: int| 0 <= r < n implies total(
        row_terms(sends, receives, #[trigger] trace_point(prep, main, r, height)),
        key,
    ) == f(r) by {
        let pt = trace_point(prep, main, r, height);
        lemma_row_terms_view(sends, receives, pt);
        lemma_other_buses(interactions_view(sends), pt, false, key);
        lemma_other_buses(interactions_view(receives), pt, true, key);
        lemma_total_concat(
            spec_terms(interactions_view(sends), pt, false),
            spec_terms(interactions_view(receives), pt, true),
            key,
        );
    }
    lemma_trace_total(sends, receives, prep, main, height, n, key, f);
    lemma_sum_stops(f, 0, n);
}

/// The lookups of an access are range checks.
pub proof fn lemma_access_lookups_are_range_checks(a: Access)
    ensures
        range_checks(access_lookups(a)),
{
}

/// Range checks after range checks are range checks.
pub proof fn lemma_range_checks_concat(a: Seq<ByteLookupEvent>, b: Seq<ByteLookupEvent>)
    requires
        range_checks(a),
        range_checks(b),
    ensures
        range_checks(a + b),
{
}

/// The lookups of the subtractions are range checks.
pub proof fn lemma_sub_lookups_are_range_checks(es: Seq<AluEvent>)
    ensures
        range_checks(sub_lookups(es)),
    decreases es.len(),
{
    if es.len() > 0 {
        lemma_sub_lookups_are_range_checks(es.drop_last());
        assert(range_checks(event_lookups(es.last())));
        lemma_range_checks_concat(sub_lookups(es.drop_last()), event_lookups(es.last()));
    }
}

/// The lookups of the decompressions of ed25519 are range checks.
pub proof fn lemma_ed_lookups_are_range_checks(es: Seq<EdDecompressEvent>)
    ensures
        range_checks(ed_lookups(es)),
    decreases es.len(),
{
    if es.len() > 0 {
        lemma_ed_lookups_are_range_checks(es.drop_last());
        let e = es.last();
        lemma_ed_access_are_range_checks(e.x_memory_records@, e.y_memory_records@, 8);
        lemma_range_checks_concat(ed_lookups(es.drop_last()), ed_event_lookups(&e));
    }
}

/// The lookups of the accesses of a decompression of ed25519 are range
/// checks.
pub proof fn lemma_ed_access_are_range_checks(
    xs: Seq<MemoryWriteRecord>,
    ys: Seq<MemoryReadRecord>,
    n: nat,
)
    ensures
        range_checks(ed_access_lookups(xs, ys, n)),
    decreases n,
{
    if n > 0 {
        lemma_ed_access_are_range_checks(xs, ys, (n - 1) as nat);
        let w = access_lookups(write_access(xs[n - 1]));
        let r = access_lookups(read_access(ys[n - 1]));
        lemma_access_lookups_are_range_checks(write_access(xs[n - 1]));
        lemma_access_lookups_are_range_checks(read_access(ys[n - 1]));
        lemma_range_checks_concat(ed_access_lookups(xs, ys, (n - 1) as nat), w);
        lemma_range_checks_concat(ed_access_lookups(xs, ys, (n - 1) as nat) + w, r);
    }
}

/// The lookups of the decompressions of secp256k1 are range checks.
pub proof fn lemma_k256_lookups_are_range_checks(es: Seq<K256DecompressEvent>)
    ensures
        range_checks(k256_lookups(es)),
    decreases es.len(),
{
    if es.len() > 0 {
        lemma_k256_lookups_are_range_checks(es.drop_last());
        let e = es.last();
        lemma_k256_access_are_range_checks(e.x_memory_records@, e.y_memory_records@, 8);
        lemma_range_checks_concat(k256_lookups(es.drop_last()), k256_event_lookups(&e));
    }
}

/// The lookups of the accesses of a decompression of secp256k1 are range
/// checks.
pub proof fn lemma_k256_access_are_range_checks(
    xs: Seq<MemoryReadRecord>,
    ys: Seq<MemoryWriteRecord>,
    n: nat,
)
    ensures
        range_checks(k256_access_lookups(xs, ys, n)),
    decreases n,
{
    if n > 0 {
        lemma_k256_access_are_range_checks(xs, ys, (n - 1) as nat);
        let r = access_lookups(read_access(xs[n - 1]));
        let w = access_lookups(write_access(ys[n - 1]));
        lemma_access_lookups_are_range_checks(read_access(xs[n - 1]));
        lemma_access_lookups_are_range_checks(write_access(ys[n - 1]));
        lemma_range_checks_concat(k256_access_lookups(xs, ys, (n - 1) as nat), r);
        lemma_range_checks_concat(k256_access_lookups(xs, ys, (n - 1) as nat) + r, w);
    }
}

/// The lookups of a shard are those of the two decompressions and of the
/// subtraction, and all are range checks.
pub proof fn lemma_shard_lookups(record: &ExecutionRecord, key: Seq<int>)
    ensures
        range_checks(shard_lookups(record)),
        total(lookup_terms(shard_lookups(record)), key) == total(
            lookup_terms(ed_lookups(record.ed_decompress_events@)),
            key,
        ) + total(lookup_terms(k256_lookups(record.k256_decompress_events@)), key) + total(
            lookup_terms(sub_lookups(record.sub_events@)),
            key,
        ),
{
    let ed = ed_lookups(record.ed_decompress_events@);
    let k256 = k256_lookups(record.k256_decompress_events@);
    let sub = sub_lookups(record.sub_events@);
    reveal_with_fuel(lookups_before, 8);
    assert(shard_lookups(record) =~= ed + k256 + sub);
    lemma_ed_lookups_are_range_checks(record.ed_decompress_events@);
    lemma_k256_lookups_are_range_checks(record.k256_decompress_events@);
    lemma_sub_lookups_are_range_checks(record.sub_events@);
    lemma_range_checks_concat(ed, k256);
    lemma_range_checks_concat(ed + k256, sub);
    lemma_lookup_terms_concat(ed, k256, key);
    lemma_lookup_terms_concat(ed + k256, sub, key);
}

/// The traces of a chip, and the interactions that the chip declares.
pub struct ChipTraces {
    pub sends: Seq<Interaction>,
    pub receives: Seq<Interaction>,
    pub prep: Trace,
    pub main: Trace,
}

/// The terms that the rows of the traces of a chip put on the buses.
pub open spec fn chip_terms(c: ChipTraces) -> Seq<Term> {
    trace_terms(
        c.sends,
        c.receives,
        &c.prep,
        &c.main,
        c.main.height() as int,
        c.main.height(),
    )
}

/// The traces are those of the chip `air` with the rows `rows`, and the
/// interactions are those that the chip declares.
pub open spec fn traces_of(c: ChipTraces, air: &TableAir, rows: Seq<Seq<int>>) -> bool {
    &&& interactions_view(c.sends) == air.sends_spec()
    &&& interactions_view(c.receives) == air.receives_spec()
    &&& trace_rows(&c.main) == rows
    &&& air.preprocessed_width_spec() > 0 ==> trace_rows(&c.prep) == air.preprocessed_rows()
}

/// The traces are those of the chips of the machine for a shard: every
/// chip has the trace that it makes of the shard, and the table of bytes
/// counts the lookups of the shard.
pub open spec fn shard_traces(cs: Seq<ChipTraces>, record: &ExecutionRecord) -> bool {
    &&& cs.len() == 8
    &&& forall|i: int|
        0 <= i < 7 ==> traces_of(
            #[trigger] cs[i],
            &TableAir::all_spec()[i],
            TableAir::all_spec()[i].rows(record),
        )
    &&& traces_of(cs[7], &TableAir::all_spec()[7], byte_rows(shard_lookups(record)))
}

/// The terms of the first `n` chips, chip after chip.
pub open spec fn machine_terms(cs: Seq<ChipTraces>, n: nat) -> Seq<Term>
    decreases n,
{
    if n == 0 {
        Seq::empty()
    } else {
        machine_terms(cs, (n - 1) as nat) + chip_terms(cs[n - 1])
    }
}

/// The terms that are on the bus with the number `bus`.
pub open spec fn on_bus(ts: Seq<Term>, bus: int) -> Seq<Term>
    decreases ts.len(),
{
    if ts.len() == 0 {
        Seq::empty()
    } else if ts.last().key.len() > 0 && ts.last().key[0] == bus {
        on_bus(ts.drop_last(), bus).push(ts.last())
    } else {
        on_bus(ts.drop_last(), bus)
    }
}

/// The total of a tuple over the terms of its bus is its total over all
/// terms; over the terms of another bus it is zero.
pub proof fn lemma_on_bus_total(ts: Seq<Term>, bus: int, key: Seq<int>)
    ensures
        total(on_bus(ts, bus), key) == (if key.len() > 0 && key[0] == bus {
            total(ts, key)
        } else {
            0
        }),
    decreases ts.len(),
{
    if ts.len() > 0 {
        lemma_on_bus_total(ts.drop_last(), bus, key);
        let t = ts.last();
        if t.key.len() > 0 && t.key[0] == bus {
            let kept = on_bus(ts.drop_last(), bus).push(t);
            assert(kept.drop_last() =~= on_bus(ts.drop_last(), bus));
            assert(kept.last() == t);
        }
    }
}

/// The traces of a shard, chip by chip.
pub proof fn lemma_shard_traces(cs: Seq<ChipTraces>, record: &ExecutionRecord)
    requires
        shard_traces(cs, record),
    ensures
        traces_of(cs[0], &program_air(), program_air().rows(record)),
        traces_of(cs[1], &ed_air(), ed_air().rows(record)),
        traces_of(cs[2], &k256_air(), k256_air().rows(record)),
        traces_of(cs[3], &sub_air(), sub_air().rows(record)),
        traces_of(cs[4], &shift_air(), shift_air().rows(record)),
        traces_of(cs[5], &memory_init_air(), memory_init_air().rows(record)),
        traces_of(cs[6], &memory_final_air(), memory_final_air().rows(record)),
        traces_of(cs[7], &byte_air(), byte_rows(shard_lookups(record))),
{
    let all = TableAir::all_spec();
    assert(all[0] == program_air());
    assert(all[1] == ed_air());
    assert(all[2] == k256_air());
    assert(all[3] == sub_air());
    assert(all[4] == shift_air());
    assert(all[5] == memory_init_air());
    assert(all[6] == memory_final_air());
    assert(all[7] == byte_air());
    assert(traces_of(cs[0], &all[0], all[0].rows(record)));
    assert(traces_of(cs[1], &all[1], all[1].rows(record)));
    assert(traces_of(cs[2], &all[2], all[2].rows(record)));
    assert(traces_of(cs[3], &all[3], all[3].rows(record)));
    assert(traces_of(cs[4], &all[4], all[4].rows(record)));
    assert(traces_of(cs[5], &all[5], all[5].rows(record)));
    assert(traces_of(cs[6], &all[6], all[6].rows(record)));
}

/// The chip of the program.
pub open spec fn program_air() -> TableAir {
    TableAir::Program(ProgramChip)
}

/// The chip of the decompression of ed25519.
pub open spec fn ed_air() -> TableAir {
    TableAir::Ed25519Decompress(EdDecompressChip)
}

/// The chip of the decompression of secp256k1.
pub open spec fn k256_air() -> TableAir {
    TableAir::Secp256k1Decompress(K256DecompressChip)
}

/// The chip of the subtraction.
pub open spec fn sub_air() -> TableAir {
    TableAir::Sub(SubChip)
}

/// The chip of the shifts.
pub open spec fn shift_air() -> TableAir {
    TableAir::Shift(ShiftChip)
}

/// The chip that initializes the memory.
pub open spec fn memory_init_air() -> TableAir {
    TableAir::MemoryInit(MemoryChip { kind: MemoryChipType::Initialize })
}

/// The chip that finalizes the memory.
pub open spec fn memory_final_air() -> TableAir {
    TableAir::MemoryFinal(MemoryChip { kind: MemoryChipType::Finalize })
}

/// The table of bytes.
pub open spec fn byte_air() -> TableAir {
    TableAir::ByteLookup(ByteChip)
}

/// The chip of the program declares nothing on the bus of bytes.
pub proof fn lemma_program_quiet(c: ChipTraces, key: Seq<int>)
    requires
        interactions_view(c.sends) == program_air().sends_spec(),
        interactions_view(c.receives) == program_air().receives_spec(),
        key.len() > 0,
        key[0] == 4,
    ensures
        total(chip_terms(c), key) == 0,
{
    assert(interactions_view(c.sends).len() == 0);
    assert(interactions_view(c.receives).len() == 1);
    assert(interactions_view(c.receives)[0].kind == InteractionKind::Program);
    lemma_quiet_chip(
        c.sends,
        c.receives,
        &c.prep,
        &c.main,
        c.main.height() as int,
        c.main.height(),
        key,
    );
}

/// The chip of the shifts declares nothing on the bus of bytes.
pub proof fn lemma_shift_quiet(c: ChipTraces, key: Seq<int>)
    requires
        interactions_view(c.sends) == shift_air().sends_spec(),
        interactions_view(c.receives) == shift_air().receives_spec(),
        key.len() > 0,
        key[0] == 4,
    ensures
        total(chip_terms(c), key) == 0,
{
    assert(interactions_view(c.sends).len() == 0);
    assert(interactions_view(c.receives).len() == 1);
    assert(interactions_view(c.receives)[0].kind == InteractionKind::Alu);
    lemma_quiet_chip(
        c.sends,
        c.receives,
        &c.prep,
        &c.main,
        c.main.height() as int,
        c.main.height(),
        key,
    );
}

/// The chips of memory declare nothing on the bus of bytes.
pub proof fn lemma_memory_quiet(c: ChipTraces, air: TableAir, key: Seq<int>)
    requires
        air == memory_init_air() || air == memory_final_air(),
        interactions_view(c.sends) == air.sends_spec(),
        interactions_view(c.receives) == air.receives_spec(),
        key.len() > 0,
        key[0] == 4,
    ensures
        total(chip_terms(c), key) == 0,
{
    if air == memory_init_air() {
        assert(interactions_view(c.sends).len() == 0);
        assert(interactions_view(c.receives).len() == 1);
        assert(interactions_view(c.receives)[0].kind == InteractionKind::Memory);
    } else {
        assert(interactions_view(c.receives).len() == 0);
        assert(interactions_view(c.sends).len() == 1);
        assert(interactions_view(c.sends)[0].kind == InteractionKind::Memory);
    }
    lemma_quiet_chip(
        c.sends,
        c.receives,
        &c.prep,
        &c.main,
        c.main.height() as int,
        c.main.height(),
        key,
    );
}

/// What the chip of the decompression of ed25519 sends to the bus of
/// bytes are its lookups.
pub proof fn lemma_ed_sender(c: ChipTraces, record: &ExecutionRecord, key: Seq<int>)
    requires
        traces_of(c, &ed_air(), ed_air().rows(record)),
        key.len() > 0,
        key[0] == 4,
    ensures
        total(chip_terms(c), key) == total(
            lookup_terms(ed_lookups(record.ed_decompress_events@)),
            key,
        ),
{
    assert(trace_rows(&c.main).len() == c.main.height());
    crate::trace::lemma_padded_height(record.ed_decompress_events@.len());
    lemma_ed_trace_sends(c.sends, c.receives, &c.prep, &c.main, record, key);
}

/// What the chip of the decompression of secp256k1 sends to the bus of
/// bytes are its lookups.
pub proof fn lemma_k256_sender(c: ChipTraces, record: &ExecutionRecord, key: Seq<int>)
    requires
        traces_of(c, &k256_air(), k256_air().rows(record)),
        key.len() > 0,
        key[0] == 4,
    ensures
        total(chip_terms(c), key) == total(
            lookup_terms(k256_lookups(record.k256_decompress_events@)),
            key,
        ),
{
    assert(trace_rows(&c.main).len() == c.main.height());
    crate::trace::lemma_padded_height(record.k256_decompress_events@.len());
    lemma_k256_trace_sends(c.sends, c.receives, &c.prep, &c.main, record, key);
}

/// What the chip of the subtraction sends to the bus of bytes are its
/// lookups.
pub proof fn lemma_sub_sender(c: ChipTraces, record: &ExecutionRecord, key: Seq<int>)
    requires
        traces_of(c, &sub_air(), sub_air().rows(record)),
        key.len() > 0,
        key[0] == 4,
    ensures
        total(chip_terms(c), key) == total(lookup_terms(sub_lookups(record.sub_events@)), key),
{
    assert(trace_rows(&c.main).len() == c.main.height());
    crate::trace::lemma_padded_height(record.sub_events@.len());
    lemma_sub_trace_sends(c.sends, c.receives, &c.prep, &c.main, record, key);
}

/// What the table of bytes receives are the lookups that it counts.
pub proof fn lemma_receiver(c: ChipTraces, lookups: Seq<ByteLookupEvent>, key: Seq<int>)
    requires
        traces_of(c, &byte_air(), byte_rows(lookups)),
        range_checks(lookups),
    ensures
        total(chip_terms(c), key) == -total(lookup_terms(lookups), key),
{
    assert(trace_rows(&c.main).len() == c.main.height());
    assert(c.sends =~= Seq::<Interaction>::empty()) by {
        assert(interactions_view(c.sends).len() == 0);
    }
    lemma_table_receives(c.receives, &c.prep, &c.main, lookups, key);
}

/// The total of a tuple over the chips is the sum of its totals over the
/// chips.
pub proof fn lemma_machine_total(cs: Seq<ChipTraces>, n: nat, key: Seq<int>)
    ensures
        total(machine_terms(cs, n), key) == sum_to(|i: int| total(chip_terms(cs[i]), key), n),
    decreases n,
{
    if n > 0 {
        lemma_machine_total(cs, (n - 1) as nat, key);
        lemma_total_concat(machine_terms(cs, (n - 1) as nat), chip_terms(cs[n - 1]), key);
    }
}

/// Over the traces of a shard, every tuple of the bus of bytes is sent
/// as often as it is received.
pub proof fn lemma_byte_tuples_cancel(cs: Seq<ChipTraces>, record: &ExecutionRecord, key: Seq<int>)
    requires
        shard_traces(cs, record),
        key.len() > 0,
        key[0] == 4,
    ensures
        total(machine_terms(cs, 8), key) == 0,
{
    let f = |i: int| total(chip_terms(cs[i]), key);
    lemma_machine_total(cs, 8, key);
    lemma_shard_traces(cs, record);
    lemma_program_quiet(cs[0], key);
    lemma_ed_sender(cs[1], record, key);
    lemma_k256_sender(cs[2], record, key);
    lemma_sub_sender(cs[3], record, key);
    lemma_shift_quiet(cs[4], key);
    lemma_memory_quiet(cs[5], memory_init_air(), key);
    lemma_memory_quiet(cs[6], memory_final_air(), key);
    lemma_shard_lookups(record, key);
    lemma_receiver(cs[7], shard_lookups(record), key);
    reveal_with_fuel(sum_to, 9);
    assert(sum_to(f, 8) == f(0) + f(1) + f(2) + f(3) + f(4) + f(5) + f(6) + f(7));
}

/// Bus balance: over the traces that the chips of the machine make of a
/// shard, with the table of bytes counting the lookups of the shard, the
/// terms of the bus of bytes are balanced, so that the argument sums to
/// zero over them whatever the challenges are.
pub proof fn lemma_byte_bus_balances(
    cs: Seq<ChipTraces>,
    record: &ExecutionRecord,
    w: spec_fn(Seq<int>) -> Quartic,
)
    requires
        shard_traces(cs, record),
    ensures
        balanced(on_bus(machine_terms(cs, 8), 4)),
        net(on_bus(machine_terms(cs, 8), 4), w) == q_zero(),
{
    let ts = on_bus(machine_terms(cs, 8), 4);
    assert forall|key: Seq<int>| #[trigger] total(ts, key) % (P as int) == 0 by {
        lemma_on_bus_total(machine_terms(cs, 8), 4, key);
        if key.len() > 0 && key[0] == 4 {
            lemma_byte_tuples_cancel(cs, record, key);
        }
    }
    lemma_balanced_bus_sums_to_zero(ts, w);
}

} // verus!
