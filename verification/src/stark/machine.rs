//! The machine: the chips in their order, each with its name, its widths,
//! what it declares and the trace that it makes of a shard.

use crate::air::{AirBuilder, Expr, InteractionSpec};
use crate::alu::shift::{shift_constraints, shift_receives, shift_row, ShiftChip, NUM_SHIFT_COLS};
use crate::alu::sub::{
    sub_constraints, sub_lookups, sub_receives, sub_row, sub_sends, SubChip, NUM_SUB_COLS,
};
use crate::bytes::air::{byte_constraints, byte_receives};
use crate::bytes::columns::{NUM_BYTE_MULT_COLS, NUM_BYTE_PREPROCESSED_COLS};
use crate::bytes::trace::{counts_fit, multiplicity_row, preprocessed_row};
use crate::bytes::{ByteChip, ByteLookupEvent, NUM_BYTE_ROWS};
use crate::memory::columns::NUM_MEMORY_INIT_COLS;
use crate::memory::global::{
    boundary_events, boundary_row, events_fit, events_fit_check, memory_constraints,
    memory_interaction,
};
use crate::memory::{MemoryChip, MemoryChipType};
use crate::program::chip::{
    program_constraints, program_receives, program_row, table_fits, table_fits_check,
};
use crate::program::{ProgramChip, NUM_PROGRAM_COLS};
use crate::record::ExecutionRecord;
use crate::stark::types::MachineChip;
use crate::syscall::precompiles::edwards::columns::{EdDecompressCols, NUM_ED_DECOMPRESS_COLS};
use crate::syscall::precompiles::edwards::ed_decompress::EdDecompressChip;
use crate::syscall::precompiles::edwards::trace::{
    ed_events_fit, ed_events_fit_check, ed_lookups, ed_padding_row, ed_roots_exist, ed_row,
};
use crate::syscall::precompiles::k256::columns::{K256DecompressCols, NUM_K256_DECOMPRESS_COLS};
use crate::syscall::precompiles::k256::decompress::K256DecompressChip;
use crate::syscall::precompiles::k256::trace::{
    k256_events_fit, k256_events_fit_check, k256_lookups, k256_padding_row, k256_roots_exist,
    k256_row,
};
use crate::trace::{
    is_power_of_two, lemma_padded_height, padded_height, rows_fit, zeros, Trace,
};
use vstd::prelude::*;

verus! {

/// The chips of the machine whose tables this library holds: each has its
/// trace and what it declares of the trace.
pub enum TableAir {
    /// The table of the program, and the lookups of the instructions.
    Program(ProgramChip),
    /// The decompression of a point of ed25519.
    Ed25519Decompress(EdDecompressChip),
    /// The decompression of a point of secp256k1.
    Secp256k1Decompress(K256DecompressChip),
    /// The subtraction.
    Sub(SubChip),
    /// The shifts.
    Shift(ShiftChip),
    /// The table that initializes the memory.
    MemoryInit(MemoryChip),
    /// The table that finalizes the memory.
    MemoryFinal(MemoryChip),
    /// The lookup table of the operations on bytes.
    ByteLookup(ByteChip),
}

/// The rows of a trace, as integers.
pub open spec fn trace_rows(t: &Trace) -> Seq<Seq<int>> {
    Seq::new(t.height(), |i: int| t.row(i))
}

/// The rows `content(0)`, ..., `content(n - 1)`, and then the row `filler` up to
/// the padded height.
pub open spec fn padded_rows(n: nat, content: spec_fn(int) -> Seq<int>, filler: Seq<int>) -> Seq<
    Seq<int>,
> {
    Seq::new(
        padded_height(n),
        |i: int|
            if i < n {
                content(i)
            } else {
                filler
            },
    )
}

/// A trace of `h` rows has the height `h`.
pub proof fn lemma_height(t: &Trace, h: nat)
    requires
        t.width > 0,
        t.values@.len() == h * t.width,
    ensures
        t.well_formed(),
        t.height() == h,
{
    let w = t.width as int;
    vstd::arithmetic::div_mod::lemma_div_by_multiple(h as int, w);
    vstd::arithmetic::div_mod::lemma_mod_multiples_basic(h as int, w);
}

/// A trace whose first `n` rows are `content(0)`, ..., `content(n - 1)` and whose
/// other rows are `filler` has the padded rows.
pub proof fn lemma_padded_rows(
    t: &Trace,
    n: nat,
    content: spec_fn(int) -> Seq<int>,
    filler: Seq<int>,
)
    requires
        t.width > 0,
        t.values@.len() == padded_height(n) * t.width,
        forall|i: int| 0 <= i < n ==> #[trigger] t.row(i) == content(i),
        forall|i: int| n <= i < padded_height(n) ==> #[trigger] t.row(i) == filler,
    ensures
        t.well_formed(),
        trace_rows(t) == padded_rows(n, content, filler),
        is_power_of_two(t.height()),
        t.height() >= 4,
{
    lemma_height(t, padded_height(n));
    lemma_padded_height(n);
    assert(trace_rows(t) =~= padded_rows(n, content, filler));
}

impl TableAir {
    /// The chips of the machine, in the order in which their traces are
    /// made.
    pub open spec fn all_spec() -> Seq<TableAir> {
        seq![
            TableAir::Program(ProgramChip),
            TableAir::Ed25519Decompress(EdDecompressChip),
            TableAir::Secp256k1Decompress(K256DecompressChip),
            TableAir::Sub(SubChip),
            TableAir::Shift(ShiftChip),
            TableAir::MemoryInit(MemoryChip { kind: MemoryChipType::Initialize }),
            TableAir::MemoryFinal(MemoryChip { kind: MemoryChipType::Finalize }),
            TableAir::ByteLookup(ByteChip),
        ]
    }

    /// The chips with tables, in the order in which the machine lists
    /// them. The order is that of trace generation: the table of bytes
    /// comes last, after the chips that look bytes up.
    pub fn get_all() -> (r: Vec<TableAir>)
        ensures
            r@ == Self::all_spec(),
    {
        let mut chips: Vec<TableAir> = Vec::new();
        chips.push(TableAir::Program(ProgramChip::new()));
        chips.push(TableAir::Ed25519Decompress(EdDecompressChip::new()));
        chips.push(TableAir::Secp256k1Decompress(K256DecompressChip::new()));
        chips.push(TableAir::Sub(SubChip));
        chips.push(TableAir::Shift(ShiftChip::new()));
        chips.push(TableAir::MemoryInit(MemoryChip::new(MemoryChipType::Initialize)));
        chips.push(TableAir::MemoryFinal(MemoryChip::new(MemoryChipType::Finalize)));
        chips.push(TableAir::ByteLookup(ByteChip::new()));
        assert(chips@ =~= Self::all_spec());
        chips
    }

    /// The name of the chip.
    pub open spec fn name_spec(&self) -> Seq<char> {
        match self {
            TableAir::Program(_) => "Program"@,
            TableAir::Ed25519Decompress(_) => "EdDecompress"@,
            TableAir::Secp256k1Decompress(_) => "K256Decompress"@,
            TableAir::Sub(_) => "Sub"@,
            TableAir::Shift(_) => "Shift"@,
            TableAir::MemoryInit(c) => match c.kind {
                MemoryChipType::Initialize => "MemoryInit"@,
                MemoryChipType::Finalize => "MemoryFinalize"@,
            },
            TableAir::MemoryFinal(c) => match c.kind {
                MemoryChipType::Initialize => "MemoryInit"@,
                MemoryChipType::Finalize => "MemoryFinalize"@,
            },
            TableAir::ByteLookup(_) => "Byte"@,
        }
    }

    /// The name of the chip.
    pub fn name(&self) -> (r: String)
        ensures
            r@ == self.name_spec(),
    {
        match self {
            TableAir::Program(c) => c.name(),
            TableAir::Ed25519Decompress(c) => c.name(),
            TableAir::Secp256k1Decompress(c) => c.name(),
            TableAir::Sub(c) => c.name(),
            TableAir::Shift(c) => c.name(),
            TableAir::MemoryInit(c) => c.name(),
            TableAir::MemoryFinal(c) => c.name(),
            TableAir::ByteLookup(c) => c.name(),
        }
    }

    /// The number of columns of the main trace.
    pub open spec fn width_spec(&self) -> usize {
        match self {
            TableAir::Program(_) => NUM_PROGRAM_COLS,
            TableAir::Ed25519Decompress(_) => NUM_ED_DECOMPRESS_COLS,
            TableAir::Secp256k1Decompress(_) => NUM_K256_DECOMPRESS_COLS,
            TableAir::Sub(_) => NUM_SUB_COLS,
            TableAir::Shift(_) => NUM_SHIFT_COLS,
            TableAir::MemoryInit(_) => NUM_MEMORY_INIT_COLS,
            TableAir::MemoryFinal(_) => NUM_MEMORY_INIT_COLS,
            TableAir::ByteLookup(_) => NUM_BYTE_MULT_COLS,
        }
    }

    /// The number of columns of the main trace.
    pub fn width(&self) -> (r: usize)
        ensures
            r == self.width_spec(),
            r > 0,
    {
        match self {
            TableAir::Program(c) => c.width(),
            TableAir::Ed25519Decompress(c) => c.width(),
            TableAir::Secp256k1Decompress(c) => c.width(),
            TableAir::Sub(c) => c.width(),
            TableAir::Shift(c) => c.width(),
            TableAir::MemoryInit(c) => c.width(),
            TableAir::MemoryFinal(c) => c.width(),
            TableAir::ByteLookup(c) => c.width(),
        }
    }

    /// The number of columns of the preprocessed trace; zero where the
    /// chip has none.
    pub open spec fn preprocessed_width_spec(&self) -> usize {
        match self {
            TableAir::ByteLookup(_) => NUM_BYTE_PREPROCESSED_COLS,
            _ => 0,
        }
    }

    /// The number of columns of the preprocessed trace; zero where the
    /// chip has none.
    pub fn preprocessed_width(&self) -> (r: usize)
        ensures
            r == self.preprocessed_width_spec(),
    {
        match self {
            TableAir::ByteLookup(c) => c.preprocessed_width(),
            _ => 0,
        }
    }

    /// Whether a shard has rows for the chip.
    pub open spec fn included_spec(&self, shard: &ExecutionRecord) -> bool {
        match self {
            TableAir::Program(_) => true,
            TableAir::Ed25519Decompress(_) => shard.ed_decompress_events@.len() > 0,
            TableAir::Secp256k1Decompress(_) => shard.k256_decompress_events@.len() > 0,
            TableAir::Sub(_) => shard.sub_events@.len() > 0,
            TableAir::Shift(_) => shard.shift_events@.len() > 0,
            TableAir::MemoryInit(c) => boundary_events(c.kind, shard).len() > 0,
            TableAir::MemoryFinal(c) => boundary_events(c.kind, shard).len() > 0,
            TableAir::ByteLookup(_) => shard.byte_lookups@.len() > 0,
        }
    }

    /// Whether a shard has rows for the chip: tables without rows are left
    /// out of a proof.
    pub fn included(&self, shard: &ExecutionRecord) -> (r: bool)
        ensures
            r == self.included_spec(shard),
    {
        match self {
            TableAir::Program(c) => c.included(shard),
            TableAir::Ed25519Decompress(c) => c.included(shard),
            TableAir::Secp256k1Decompress(c) => c.included(shard),
            TableAir::Sub(c) => c.included(shard),
            TableAir::Shift(c) => c.included(shard),
            TableAir::MemoryInit(c) => c.included(shard),
            TableAir::MemoryFinal(c) => c.included(shard),
            TableAir::ByteLookup(c) => c.included(shard),
        }
    }

    /// What the chip declares to be zero on every row.
    pub open spec fn constraints_spec(&self) -> Seq<Expr> {
        match self {
            TableAir::Program(_) => program_constraints(),
            TableAir::Ed25519Decompress(_) => EdDecompressCols::<usize>::layout_spec().constraints(),
            TableAir::Secp256k1Decompress(_) => K256DecompressCols::<usize>::layout_spec().constraints(),
            TableAir::Sub(_) => sub_constraints(),
            TableAir::Shift(_) => shift_constraints(),
            TableAir::MemoryInit(_) => memory_constraints(),
            TableAir::MemoryFinal(_) => memory_constraints(),
            TableAir::ByteLookup(_) => byte_constraints(),
        }
    }

    /// What the chip sends to the buses.
    pub open spec fn sends_spec(&self) -> Seq<InteractionSpec> {
        match self {
            TableAir::Program(_) => Seq::empty(),
            TableAir::Ed25519Decompress(_) => EdDecompressCols::<usize>::layout_spec().sends(),
            TableAir::Secp256k1Decompress(_) => K256DecompressCols::<usize>::layout_spec().sends(),
            TableAir::Sub(_) => sub_sends(),
            TableAir::Shift(_) => Seq::empty(),
            TableAir::MemoryInit(c) => match c.kind {
                MemoryChipType::Initialize => Seq::empty(),
                MemoryChipType::Finalize => seq![memory_interaction()],
            },
            TableAir::MemoryFinal(c) => match c.kind {
                MemoryChipType::Initialize => Seq::empty(),
                MemoryChipType::Finalize => seq![memory_interaction()],
            },
            TableAir::ByteLookup(_) => Seq::empty(),
        }
    }

    /// What the chip receives from the buses.
    pub open spec fn receives_spec(&self) -> Seq<InteractionSpec> {
        match self {
            TableAir::Program(_) => program_receives(),
            TableAir::Ed25519Decompress(_) => EdDecompressCols::<usize>::layout_spec().receives(),
            TableAir::Secp256k1Decompress(_) => K256DecompressCols::<usize>::layout_spec().receives(),
            TableAir::Sub(_) => sub_receives(),
            TableAir::Shift(_) => shift_receives(),
            TableAir::MemoryInit(c) => match c.kind {
                MemoryChipType::Initialize => seq![memory_interaction()],
                MemoryChipType::Finalize => Seq::empty(),
            },
            TableAir::MemoryFinal(c) => match c.kind {
                MemoryChipType::Initialize => seq![memory_interaction()],
                MemoryChipType::Finalize => Seq::empty(),
            },
            TableAir::ByteLookup(_) => byte_receives(),
        }
    }

    /// Declares the constraints and the interactions of the chip.
    pub fn eval(&self, builder: &mut AirBuilder)
        requires
            old(builder).constraints@.len() == 0,
            old(builder).sends@.len() == 0,
            old(builder).receives@.len() == 0,
        ensures
            final(builder).constraints@ == self.constraints_spec(),
            final(builder).sends_view() == self.sends_spec(),
            final(builder).receives_view() == self.receives_spec(),
    {
        let ghost c0 = builder.constraints@;
        let ghost s0 = builder.sends_view();
        let ghost r0 = builder.receives_view();
        assert(s0 =~= Seq::empty());
        assert(r0 =~= Seq::empty());
        match self {
            TableAir::Program(c) => c.eval(builder),
            TableAir::Ed25519Decompress(c) => c.eval(builder),
            TableAir::Secp256k1Decompress(c) => c.eval(builder),
            TableAir::Sub(c) => c.eval(builder),
            TableAir::Shift(c) => c.eval(builder),
            TableAir::MemoryInit(c) => c.eval(builder),
            TableAir::MemoryFinal(c) => c.eval(builder),
            TableAir::ByteLookup(c) => c.eval(builder),
        }
        assert(builder.constraints@ =~= self.constraints_spec());
        assert(builder.sends_view() =~= self.sends_spec());
        assert(builder.receives_view() =~= self.receives_spec());
    }

    /// What the chip declares, collected once.
    pub fn chip(&self) -> (r: MachineChip)
        ensures
            r.name@ == self.name_spec(),
            r.preprocessed_width == self.preprocessed_width_spec(),
            r.width == self.width_spec(),
            r.constraints@ == self.constraints_spec(),
            crate::air::interactions_view(r.sends@) == self.sends_spec(),
            crate::air::interactions_view(r.receives@) == self.receives_spec(),
    {
        let mut builder = AirBuilder::new();
        self.eval(&mut builder);
        MachineChip {
            name: self.name(),
            preprocessed_width: self.preprocessed_width(),
            width: self.width(),
            constraints: builder.constraints,
            sends: builder.sends,
            receives: builder.receives,
        }
    }

    /// What every chip of the machine declares, in the order of the
    /// chips.
    pub fn machine() -> (r: Vec<MachineChip>)
        ensures
            r@.len() == Self::all_spec().len(),
            forall|i: int|
                0 <= i < r@.len() ==> {
                    let air = &Self::all_spec()[i];
                    &&& (#[trigger] r@[i]).name@ == air.name_spec()
                    &&& r@[i].preprocessed_width == air.preprocessed_width_spec()
                    &&& r@[i].width == air.width_spec()
                    &&& r@[i].constraints@ == air.constraints_spec()
                    &&& crate::air::interactions_view(r@[i].sends@) == air.sends_spec()
                    &&& crate::air::interactions_view(r@[i].receives@) == air.receives_spec()
                },
    {
        let chips = Self::get_all();
        let mut r: Vec<MachineChip> = Vec::new();
        let mut i: usize = 0;
        while i < chips.len()
            invariant
                i <= chips@.len(),
                chips@ == Self::all_spec(),
                r@.len() == i,
                forall|k: int|
                    0 <= k < i ==> {
                        let air = &Self::all_spec()[k];
                        &&& (#[trigger] r@[k]).name@ == air.name_spec()
                        &&& r@[k].preprocessed_width == air.preprocessed_width_spec()
                        &&& r@[k].width == air.width_spec()
                        &&& r@[k].constraints@ == air.constraints_spec()
                        &&& crate::air::interactions_view(r@[k].sends@) == air.sends_spec()
                        &&& crate::air::interactions_view(r@[k].receives@) == air.receives_spec()
                    },
            decreases chips@.len() - i,
        {
            r.push(chips[i].chip());
            i = i + 1;
        }
        r
    }

    /// The number of rows of the shard that are not padding.
    pub open spec fn real_rows(&self, input: &ExecutionRecord) -> nat {
        match self {
            TableAir::Program(_) => input.program.instructions@.len(),
            TableAir::Ed25519Decompress(_) => input.ed_decompress_events@.len(),
            TableAir::Secp256k1Decompress(_) => input.k256_decompress_events@.len(),
            TableAir::Sub(_) => input.sub_events@.len(),
            TableAir::Shift(_) => input.shift_events@.len(),
            TableAir::MemoryInit(c) => boundary_events(c.kind, input).len(),
            TableAir::MemoryFinal(c) => boundary_events(c.kind, input).len(),
            TableAir::ByteLookup(_) => NUM_BYTE_ROWS as nat,
        }
    }

    /// The rows of the trace that the chip makes of a shard.
    pub open spec fn rows(&self, input: &ExecutionRecord) -> Seq<Seq<int>> {
        match self {
            TableAir::Program(_) => padded_rows(
                input.program.instructions@.len(),
                |i: int| program_row(input, i),
                zeros(37),
            ),
            TableAir::Ed25519Decompress(_) => padded_rows(
                input.ed_decompress_events@.len(),
                |i: int| ed_row(&input.ed_decompress_events@[i]),
                ed_padding_row(),
            ),
            TableAir::Secp256k1Decompress(_) => padded_rows(
                input.k256_decompress_events@.len(),
                |i: int| k256_row(&input.k256_decompress_events@[i]),
                k256_padding_row(),
            ),
            TableAir::Sub(_) => padded_rows(
                input.sub_events@.len(),
                |i: int| sub_row(input.sub_events@[i]),
                zeros(16),
            ),
            TableAir::Shift(_) => padded_rows(
                input.shift_events@.len(),
                |i: int| shift_row(input.shift_events@[i]),
                zeros(15),
            ),
            TableAir::MemoryInit(c) => padded_rows(
                boundary_events(c.kind, input).len(),
                |i: int| boundary_row(boundary_events(c.kind, input)[i]),
                zeros(8),
            ),
            TableAir::MemoryFinal(c) => padded_rows(
                boundary_events(c.kind, input).len(),
                |i: int| boundary_row(boundary_events(c.kind, input)[i]),
                zeros(8),
            ),
            TableAir::ByteLookup(_) => Seq::new(
                65536,
                |i: int| multiplicity_row(input, (i / 256) as u8, (i % 256) as u8),
            ),
        }
    }

    /// The rows of the preprocessed trace of the chip; none where the chip
    /// has no such trace.
    pub open spec fn preprocessed_rows(&self) -> Seq<Seq<int>> {
        match self {
            TableAir::ByteLookup(_) => Seq::new(
                65536,
                |i: int| preprocessed_row((i / 256) as u8, (i % 256) as u8),
            ),
            _ => Seq::empty(),
        }
    }

    /// Whether there is a trace of the shard: the chips of the
    /// decompressions have none where a root is missing.
    pub open spec fn has_rows(&self, input: &ExecutionRecord) -> bool {
        match self {
            TableAir::Ed25519Decompress(_) => ed_roots_exist(input.ed_decompress_events@),
            TableAir::Secp256k1Decompress(_) => k256_roots_exist(input.k256_decompress_events@),
            _ => true,
        }
    }

    /// The lookups of bytes that the rows of the chip rest on.
    pub open spec fn lookups(&self, input: &ExecutionRecord) -> Seq<ByteLookupEvent> {
        match self {
            TableAir::Ed25519Decompress(_) => ed_lookups(input.ed_decompress_events@),
            TableAir::Secp256k1Decompress(_) => k256_lookups(input.k256_decompress_events@),
            TableAir::Sub(_) => sub_lookups(input.sub_events@),
            _ => Seq::empty(),
        }
    }

    /// The shard fits the table of the chip: whatever goes into a column
    /// is a canonical field element, and the padded trace is no longer than
    /// a vector can be.
    pub open spec fn fits(&self, input: &ExecutionRecord) -> bool {
        match self {
            TableAir::ByteLookup(_) => counts_fit(input),
            _ => {
                &&& padded_height(self.real_rows(input)) * self.width_spec() <= usize::MAX
                &&& match self {
                    TableAir::Program(_) => table_fits(input),
                    TableAir::Ed25519Decompress(_) => ed_events_fit(input.ed_decompress_events@),
                    TableAir::Secp256k1Decompress(_) => k256_events_fit(
                        input.k256_decompress_events@,
                    ),
                    TableAir::MemoryInit(c) => events_fit(boundary_events(c.kind, input)),
                    TableAir::MemoryFinal(c) => events_fit(boundary_events(c.kind, input)),
                    _ => true,
                }
            },
        }
    }

    /// The preprocessed trace of the chip, where it has one.
    pub fn generate_preprocessed_trace(&self) -> (r: Option<Trace>)
        ensures
            r is Some <==> self.preprocessed_width_spec() > 0,
            r matches Some(t) ==> {
                &&& t.width == self.preprocessed_width_spec()
                &&& t.well_formed()
                &&& trace_rows(&t) == self.preprocessed_rows()
            },
    {
        match self {
            TableAir::ByteLookup(c) => {
                let t = c.generate_preprocessed_trace();
                proof {
                    lemma_height(&t, 65536);
                    assert forall|i: int| 0 <= i < 65536 implies #[trigger] t.row(i)
                        == preprocessed_row((i / 256) as u8, (i % 256) as u8) by {
                        let b = (i / 256) as u8;
                        let c = (i % 256) as u8;
                        assert(t.row(256 * b + c) == preprocessed_row(b, c));
                    }
                    assert(trace_rows(&t) =~= self.preprocessed_rows());
                }
                Some(t)
            },
            _ => None,
        }
    }

    /// The trace that the chip makes of a shard. Whatever the chip, the
    /// number of its rows is a power of two and at least four. The lookups
    /// that the rows rest on are counted in `output`.
    pub fn generate_trace(&self, input: &ExecutionRecord, output: &mut ExecutionRecord) -> (r:
        Option<Trace>)
        requires
            self.fits(input),
            old(output).has_room(self.lookups(input).len()),
        ensures
            r is Some <==> self.has_rows(input),
            r is None ==> *final(output) == *old(output),
            r matches Some(t) ==> {
                &&& t.width == self.width_spec()
                &&& t.well_formed()
                &&& trace_rows(&t) == self.rows(input)
                &&& is_power_of_two(t.height())
                &&& t.height() >= 4
                &&& final(output).same_events(old(output))
                &&& final(output).counts_grew_by(old(output), self.lookups(input))
            },
    {
        match self {
            TableAir::Program(c) => {
                let t = c.generate_trace(input, output);
                proof {
                    lemma_padded_rows(
                        &t,
                        input.program.instructions@.len(),
                        |i: int| program_row(input, i),
                        zeros(37),
                    );
                }
                Some(t)
            },
            TableAir::Ed25519Decompress(c) => {
                match c.generate_trace(input, output) {
                    Some(t) => {
                        proof {
                            lemma_padded_rows(
                                &t,
                                input.ed_decompress_events@.len(),
                                |i: int| ed_row(&input.ed_decompress_events@[i]),
                                ed_padding_row(),
                            );
                        }
                        Some(t)
                    },
                    None => None,
                }
            },
            TableAir::Secp256k1Decompress(c) => {
                match c.generate_trace(input, output) {
                    Some(t) => {
                        proof {
                            lemma_padded_rows(
                                &t,
                                input.k256_decompress_events@.len(),
                                |i: int| k256_row(&input.k256_decompress_events@[i]),
                                k256_padding_row(),
                            );
                        }
                        Some(t)
                    },
                    None => None,
                }
            },
            TableAir::Sub(c) => {
                proof {
                    crate::alu::sub::lemma_sub_lookups_len(input.sub_events@);
                }
                let t = c.generate_trace(input, output);
                proof {
                    lemma_padded_rows(
                        &t,
                        input.sub_events@.len(),
                        |i: int| sub_row(input.sub_events@[i]),
                        zeros(16),
                    );
                }
                Some(t)
            },
            TableAir::Shift(c) => {
                let t = c.generate_trace(input, output);
                proof {
                    lemma_padded_rows(
                        &t,
                        input.shift_events@.len(),
                        |i: int| shift_row(input.shift_events@[i]),
                        zeros(15),
                    );
                }
                Some(t)
            },
            TableAir::MemoryInit(c) => {
                let t = c.generate_trace(input, output);
                proof {
                    lemma_padded_rows(
                        &t,
                        boundary_events(c.kind, input).len(),
                        |i: int| boundary_row(boundary_events(c.kind, input)[i]),
                        zeros(8),
                    );
                }
                Some(t)
            },
            TableAir::MemoryFinal(c) => {
                let t = c.generate_trace(input, output);
                proof {
                    lemma_padded_rows(
                        &t,
                        boundary_events(c.kind, input).len(),
                        |i: int| boundary_row(boundary_events(c.kind, input)[i]),
                        zeros(8),
                    );
                }
                Some(t)
            },
            TableAir::ByteLookup(c) => {
                let t = c.generate_trace(input, output);
                proof {
                    lemma_height(&t, 65536);
                    assert forall|i: int| 0 <= i < 65536 implies #[trigger] t.row(i)
                        == multiplicity_row(input, (i / 256) as u8, (i % 256) as u8) by {
                        let b = (i / 256) as u8;
                        let c = (i % 256) as u8;
                        assert(t.row(256 * b + c) == multiplicity_row(input, b, c));
                    }
                    assert(trace_rows(&t) =~= self.rows(input));
                    vstd::arithmetic::power2::lemma2_to64();
                    assert(65536 == vstd::arithmetic::power2::pow2(16));
                }
                Some(t)
            },
        }
    }
}

impl TableAir {
    /// Whether the shard fits the table of a chip other than the table of
    /// bytes.
    pub fn fits_check(&self, input: &ExecutionRecord) -> (r: bool)
        requires
            !(self is ByteLookup),
        ensures
            r == self.fits(input),
    {
        match self {
            TableAir::Program(_) => rows_fit(input.program.instructions.len(), NUM_PROGRAM_COLS)
                && table_fits_check(input),
            TableAir::Ed25519Decompress(_) => rows_fit(
                input.ed_decompress_events.len(),
                NUM_ED_DECOMPRESS_COLS,
            ) && ed_events_fit_check(&input.ed_decompress_events),
            TableAir::Secp256k1Decompress(_) => rows_fit(
                input.k256_decompress_events.len(),
                NUM_K256_DECOMPRESS_COLS,
            ) && k256_events_fit_check(&input.k256_decompress_events),
            TableAir::Sub(_) => rows_fit(input.sub_events.len(), NUM_SUB_COLS),
            TableAir::Shift(_) => rows_fit(input.shift_events.len(), NUM_SHIFT_COLS),
            TableAir::MemoryInit(c) => match c.kind {
                MemoryChipType::Initialize => rows_fit(
                    input.memory_initialize_events.len(),
                    NUM_MEMORY_INIT_COLS,
                ) && events_fit_check(&input.memory_initialize_events),
                MemoryChipType::Finalize => rows_fit(
                    input.memory_finalize_events.len(),
                    NUM_MEMORY_INIT_COLS,
                ) && events_fit_check(&input.memory_finalize_events),
            },
            TableAir::MemoryFinal(c) => match c.kind {
                MemoryChipType::Initialize => rows_fit(
                    input.memory_initialize_events.len(),
                    NUM_MEMORY_INIT_COLS,
                ) && events_fit_check(&input.memory_initialize_events),
                MemoryChipType::Finalize => rows_fit(
                    input.memory_finalize_events.len(),
                    NUM_MEMORY_INIT_COLS,
                ) && events_fit_check(&input.memory_finalize_events),
            },
            TableAir::ByteLookup(_) => false,
        }
    }
}

} // verus!
