//! The chip that states what memory holds at a boundary of a shard.

use crate::air::{
    e_mul, e_sub, felts_view, lemma_eval_ops, s_col, s_const, s_mul, s_sub, AirBuilder, Expr,
    Interaction, InteractionKind, InteractionSpec, Point,
};
use crate::events::MemoryBoundaryEvent;
use crate::field::{Felt, P};
use crate::memory::columns::NUM_MEMORY_INIT_COLS;
use crate::record::ExecutionRecord;
use crate::trace::{append_row, padded_height, padded_trace, zeros, Trace};
use crate::word::{le_bytes, limbs_view, Word};
use vstd::prelude::*;

verus! {

/// Which boundary of the shard a chip of memory stands at.
#[derive(Clone, Copy, Debug, PartialEq, Eq, Structural)]
pub enum MemoryChipType {
    Initialize,
    Finalize,
}

/// A chip of memory.
pub struct MemoryChip {
    pub kind: MemoryChipType,
}

/// The row that stands for an event.
pub open spec fn boundary_row(e: MemoryBoundaryEvent) -> Seq<int> {
    seq![e.shard as int, e.timestamp as int, e.addr as int] + le_bytes(e.value as int) + seq![
        1int,
    ]
}

/// The events of a shard at the boundary of the chip.
pub open spec fn boundary_events(kind: MemoryChipType, record: &ExecutionRecord) -> Seq<
    MemoryBoundaryEvent,
> {
    match kind {
        MemoryChipType::Initialize => record.memory_initialize_events@,
        MemoryChipType::Finalize => record.memory_finalize_events@,
    }
}

/// Every shard, clock and address of the events is a canonical field
/// element.
pub open spec fn events_fit(events: Seq<MemoryBoundaryEvent>) -> bool {
    forall|i: int|
        0 <= i < events.len() ==> (#[trigger] events[i]).shard < P && events[i].timestamp < P
            && events[i].addr < P
}

/// The tuple of an address on the bus of memory: shard, clock, address and
/// the four bytes of the word.
pub open spec fn memory_values() -> Seq<Expr> {
    seq![s_col(0), s_col(1), s_col(2), s_col(3), s_col(4), s_col(5), s_col(6)]
}

/// The interaction of the chip with the bus of memory, on the rows that
/// are real.
pub open spec fn memory_interaction() -> InteractionSpec {
    InteractionSpec {
        values: memory_values(),
        multiplicity: s_col(7),
        kind: InteractionKind::Memory,
    }
}

/// The constraints of the chip: one expression of degree three, which
/// vanishes on every row.
pub open spec fn memory_constraints() -> Seq<Expr> {
    seq![
        s_sub(
            s_mul(s_mul(s_col(7), s_col(7)), s_col(7)),
            s_mul(s_mul(s_col(7), s_col(7)), s_col(7)),
        ),
    ]
}

impl MemoryChip {
    pub fn new(kind: MemoryChipType) -> (r: Self)
        ensures
            r.kind == kind,
    {
        MemoryChip { kind }
    }

    /// The name of the chip.
    pub fn name(&self) -> (r: String)
        ensures
            r@ == (match self.kind {
                MemoryChipType::Initialize => "MemoryInit"@,
                MemoryChipType::Finalize => "MemoryFinalize"@,
            }),
    {
        match self.kind {
            MemoryChipType::Initialize => "MemoryInit".to_string(),
            MemoryChipType::Finalize => "MemoryFinalize".to_string(),
        }
    }

    /// The number of columns of the main trace.
    pub fn width(&self) -> (r: usize)
        ensures
            r == NUM_MEMORY_INIT_COLS,
    {
        NUM_MEMORY_INIT_COLS
    }

    /// Whether the shard needs the table of this chip at all.
    pub fn included(&self, shard: &ExecutionRecord) -> (r: bool)
        ensures
            r == (boundary_events(self.kind, shard).len() > 0),
    {
        match self.kind {
            MemoryChipType::Initialize => shard.memory_initialize_events.len() > 0,
            MemoryChipType::Finalize => shard.memory_finalize_events.len() > 0,
        }
    }

    /// The trace of the chip for a shard: one row per address touched in
    /// the shard, in the order of the first accesses, then rows of zeros up
    /// to the padded height.
    pub fn generate_trace(&self, input: &ExecutionRecord, output: &mut ExecutionRecord) -> (trace:
        Trace)
        requires
            events_fit(boundary_events(self.kind, input)),
            padded_height(boundary_events(self.kind, input).len()) * NUM_MEMORY_INIT_COLS
                <= usize::MAX,
        ensures
            trace.width == NUM_MEMORY_INIT_COLS,
            trace.values@.len() == padded_height(boundary_events(self.kind, input).len())
                * NUM_MEMORY_INIT_COLS,
            forall|i: int|
                0 <= i < boundary_events(self.kind, input).len() ==> #[trigger] trace.row(i)
                    == boundary_row(boundary_events(self.kind, input)[i]),
            forall|i: int|
                boundary_events(self.kind, input).len() <= i < padded_height(
                    boundary_events(self.kind, input).len(),
                ) ==> #[trigger] trace.row(i) == zeros(8),
            *final(output) == *old(output),
    {
        let events = match self.kind {
            MemoryChipType::Initialize => &input.memory_initialize_events,
            MemoryChipType::Finalize => &input.memory_finalize_events,
        };
        let n = events.len();
        let mut values: Vec<Felt> = Vec::new();
        let mut i: usize = 0;
        while i < n
            invariant
                i <= n,
                n == events@.len(),
                events@ == boundary_events(self.kind, input),
                events_fit(events@),
                values@.len() == i * 8,
                forall|k: int|
                    0 <= k < i ==> felts_view(#[trigger] values@.subrange(k * 8, (k + 1) * 8))
                        == boundary_row(events@[k]),
            decreases n - i,
        {
            let e = &events[i];
            let value = Word::<Felt>::from_u32(e.value);
            let mut row: Vec<Felt> = Vec::new();
            row.push(Felt::from_canonical_u32(e.shard));
            row.push(Felt::from_canonical_u32(e.timestamp));
            row.push(Felt::from_canonical_u32(e.addr));
            row.push(value.0[0]);
            row.push(value.0[1]);
            row.push(value.0[2]);
            row.push(value.0[3]);
            row.push(Felt::one());
            assert(felts_view(row@) =~= boundary_row(events@[i as int]));
            append_row(&mut values, &row, NUM_MEMORY_INIT_COLS, i);
            i = i + 1;
        }
        padded_trace(values, NUM_MEMORY_INIT_COLS, n)
    }

    /// Declares the constraints and the interactions of the chip. The
    /// chip at the start of the shard receives what the addresses held
    /// before, which the first access to each address sends; the chip at the
    /// end sends what they hold after, which the last access received.
    pub fn eval(&self, builder: &mut AirBuilder)
        ensures
            final(builder).constraints@ == old(builder).constraints@ + memory_constraints(),
            self.kind == MemoryChipType::Initialize ==> final(builder).sends == old(builder).sends
                && final(builder).receives_view() == old(builder).receives_view().push(
                memory_interaction(),
            ),
            self.kind == MemoryChipType::Finalize ==> final(builder).receives == old(builder).receives && final(builder).sends_view() == old(builder).sends_view().push(
                memory_interaction(),
            ),
    {
        // A constraint of degree three.
        builder.assert_zero(
            e_sub(
                e_mul(e_mul(Expr::Local(7), Expr::Local(7)), Expr::Local(7)),
                e_mul(e_mul(Expr::Local(7), Expr::Local(7)), Expr::Local(7)),
            ),
        );
        let mut values: Vec<Expr> = Vec::new();
        values.push(Expr::Local(0));
        values.push(Expr::Local(1));
        values.push(Expr::Local(2));
        values.push(Expr::Local(3));
        values.push(Expr::Local(4));
        values.push(Expr::Local(5));
        values.push(Expr::Local(6));
        assert(values@ =~= memory_values());
        let x = Interaction { values, multiplicity: Expr::Local(7), kind: InteractionKind::Memory };
        match self.kind {
            MemoryChipType::Initialize => builder.receive(x),
            MemoryChipType::Finalize => builder.send(x),
        }
        assert(builder.constraints@ =~= old(builder).constraints@ + memory_constraints());
    }
}

/// On every row, the constraint of the chip vanishes.
pub proof fn lemma_rows_satisfy_constraints(pt: Point<int>, i: int)
    requires
        0 <= i < memory_constraints().len(),
    ensures
        memory_constraints()[i].eval_base(pt) == 0,
{
    let t = s_mul(s_mul(s_col(7), s_col(7)), s_col(7));
    lemma_eval_ops(t, t, pt);
}

/// Whether every event fits.
pub fn events_fit_check(events: &Vec<MemoryBoundaryEvent>) -> (r: bool)
    ensures
        r == events_fit(events@),
{
    let mut i: usize = 0;
    while i < events.len()
        invariant
            i <= events@.len(),
            forall|k: int|
                0 <= k < i ==> (#[trigger] events@[k]).shard < P && events@[k].timestamp < P
                    && events@[k].addr < P,
        decreases events@.len() - i,
    {
        let e = &events[i];
        if e.shard >= P || e.timestamp >= P || e.addr >= P {
            return false;
        }
        i = i + 1;
    }
    true
}

} // verus!
