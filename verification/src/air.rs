//! The declarative side of a chip: polynomial constraints and bus
//! interactions, as expressions over the columns of one row and the next.
//!
//! An expression is data. It is evaluated on trace rows, over the base
//! field, when a trace is checked, and on opened values, over the extension
//! field, when a proof is verified; both evaluations agree on base values.

use crate::extension::{lemma_base_is_subring, q_add, q_base, q_mul, q_sub, Ext, Quartic};
use crate::field::{fadd, fmul, fsub, Felt, P};
use vstd::prelude::*;

verus! {

/// A polynomial expression over the columns of a chip.
#[derive(Debug)]
pub enum Expr {
    /// A constant of the base field, by any representative.
    Const(u32),
    /// A column of the preprocessed trace, in the current row.
    PrepLocal(usize),
    /// A column of the preprocessed trace, in the next row.
    PrepNext(usize),
    /// A column of the main trace, in the current row.
    Local(usize),
    /// A column of the main trace, in the next row.
    Next(usize),
    /// The selector that is nonzero on the first row only.
    IsFirstRow,
    /// The selector that is nonzero on the last row only.
    IsLastRow,
    /// The selector that is zero on the last row only.
    IsTransition,
    Add(Box<Expr>, Box<Expr>),
    Sub(Box<Expr>, Box<Expr>),
    Mul(Box<Expr>, Box<Expr>),
}

/// What an expression is evaluated on: the values of one row and the next,
/// and of the three row selectors.
pub struct Point<T> {
    pub prep_local: Seq<T>,
    pub prep_next: Seq<T>,
    pub main_local: Seq<T>,
    pub main_next: Seq<T>,
    pub is_first_row: T,
    pub is_last_row: T,
    pub is_transition: T,
}

/// The executable form of a `Point`.
pub struct EvalPoint<T> {
    pub prep_local: Vec<T>,
    pub prep_next: Vec<T>,
    pub main_local: Vec<T>,
    pub main_next: Vec<T>,
    pub is_first_row: T,
    pub is_last_row: T,
    pub is_transition: T,
}

/// The integers that a sequence of base elements stands for.
pub open spec fn felts_view(s: Seq<Felt>) -> Seq<int> {
    s.map_values(|x: Felt| x@)
}

/// Joining three sequences does not depend on which two are joined first.
pub proof fn lemma_concat_assoc<T>(a: Seq<T>, b: Seq<T>, c: Seq<T>)
    ensures
        (a + b) + c == a + (b + c),
{
    assert((a + b) + c =~= a + (b + c));
}

/// The integers of a sequence with one more element.
pub proof fn lemma_felts_view_push(s: Seq<Felt>, x: Felt)
    ensures
        felts_view(s.push(x)) == felts_view(s).push(x@),
{
    assert(felts_view(s.push(x)) =~= felts_view(s).push(x@));
}

/// The values that a sequence of extension elements stands for.
pub open spec fn exts_view(s: Seq<Ext>) -> Seq<Quartic> {
    s.map_values(|x: Ext| x@)
}

/// A sequence of base values, seen in the extension.
pub open spec fn lift_seq(s: Seq<int>) -> Seq<Quartic> {
    s.map_values(|x: int| q_base(x))
}

/// A point of base values, seen in the extension.
pub open spec fn lift_point(pt: Point<int>) -> Point<Quartic> {
    Point {
        prep_local: lift_seq(pt.prep_local),
        prep_next: lift_seq(pt.prep_next),
        main_local: lift_seq(pt.main_local),
        main_next: lift_seq(pt.main_next),
        is_first_row: q_base(pt.is_first_row),
        is_last_row: q_base(pt.is_last_row),
        is_transition: q_base(pt.is_transition),
    }
}

impl EvalPoint<Felt> {
    pub open spec fn view(&self) -> Point<int> {
        Point {
            prep_local: felts_view(self.prep_local@),
            prep_next: felts_view(self.prep_next@),
            main_local: felts_view(self.main_local@),
            main_next: felts_view(self.main_next@),
            is_first_row: self.is_first_row@,
            is_last_row: self.is_last_row@,
            is_transition: self.is_transition@,
        }
    }
}

impl EvalPoint<Ext> {
    pub open spec fn view(&self) -> Point<Quartic> {
        Point {
            prep_local: exts_view(self.prep_local@),
            prep_next: exts_view(self.prep_next@),
            main_local: exts_view(self.main_local@),
            main_next: exts_view(self.main_next@),
            is_first_row: self.is_first_row@,
            is_last_row: self.is_last_row@,
            is_transition: self.is_transition@,
        }
    }
}

impl Expr {
    /// Every column that the expression names lies within a preprocessed
    /// trace of `prep_width` columns and a main trace of `width` columns.
    pub open spec fn within(&self, prep_width: int, width: int) -> bool
        decreases self,
    {
        match self {
            Expr::Const(_) => true,
            Expr::PrepLocal(i) => *i < prep_width,
            Expr::PrepNext(i) => *i < prep_width,
            Expr::Local(i) => *i < width,
            Expr::Next(i) => *i < width,
            Expr::IsFirstRow => true,
            Expr::IsLastRow => true,
            Expr::IsTransition => true,
            Expr::Add(a, b) => a.within(prep_width, width) && b.within(prep_width, width),
            Expr::Sub(a, b) => a.within(prep_width, width) && b.within(prep_width, width),
            Expr::Mul(a, b) => a.within(prep_width, width) && b.within(prep_width, width),
        }
    }

    /// The value of the expression on base-field values.
    pub open spec fn eval_base(&self, pt: Point<int>) -> int
        decreases self,
    {
        match self {
            Expr::Const(c) => *c as int % (P as int),
            Expr::PrepLocal(i) => pt.prep_local[*i as int],
            Expr::PrepNext(i) => pt.prep_next[*i as int],
            Expr::Local(i) => pt.main_local[*i as int],
            Expr::Next(i) => pt.main_next[*i as int],
            Expr::IsFirstRow => pt.is_first_row,
            Expr::IsLastRow => pt.is_last_row,
            Expr::IsTransition => pt.is_transition,
            Expr::Add(a, b) => fadd(a.eval_base(pt), b.eval_base(pt)),
            Expr::Sub(a, b) => fsub(a.eval_base(pt), b.eval_base(pt)),
            Expr::Mul(a, b) => fmul(a.eval_base(pt), b.eval_base(pt)),
        }
    }

    /// The value of the expression on extension-field values.
    pub open spec fn eval_ext(&self, pt: Point<Quartic>) -> Quartic
        decreases self,
    {
        match self {
            Expr::Const(c) => q_base(*c as int % (P as int)),
            Expr::PrepLocal(i) => pt.prep_local[*i as int],
            Expr::PrepNext(i) => pt.prep_next[*i as int],
            Expr::Local(i) => pt.main_local[*i as int],
            Expr::Next(i) => pt.main_next[*i as int],
            Expr::IsFirstRow => pt.is_first_row,
            Expr::IsLastRow => pt.is_last_row,
            Expr::IsTransition => pt.is_transition,
            Expr::Add(a, b) => q_add(a.eval_ext(pt), b.eval_ext(pt)),
            Expr::Sub(a, b) => q_sub(a.eval_ext(pt), b.eval_ext(pt)),
            Expr::Mul(a, b) => q_mul(a.eval_ext(pt), b.eval_ext(pt)),
        }
    }

    /// Whether every column that the expression names lies within a
    /// preprocessed trace of `prep_width` columns and a main trace of
    /// `width` columns.
    pub fn fits_within(&self, prep_width: usize, width: usize) -> (r: bool)
        ensures
            r == self.within(prep_width as int, width as int),
        decreases self,
    {
        match self {
            Expr::Const(_) => true,
            Expr::PrepLocal(i) => *i < prep_width,
            Expr::PrepNext(i) => *i < prep_width,
            Expr::Local(i) => *i < width,
            Expr::Next(i) => *i < width,
            Expr::IsFirstRow => true,
            Expr::IsLastRow => true,
            Expr::IsTransition => true,
            Expr::Add(a, b) => a.fits_within(prep_width, width) && b.fits_within(
                prep_width,
                width,
            ),
            Expr::Sub(a, b) => a.fits_within(prep_width, width) && b.fits_within(
                prep_width,
                width,
            ),
            Expr::Mul(a, b) => a.fits_within(prep_width, width) && b.fits_within(
                prep_width,
                width,
            ),
        }
    }

    /// Evaluates the expression on a row of the trace.
    pub fn eval_on_row(&self, pt: &EvalPoint<Felt>) -> (r: Felt)
        requires
            self.within(pt.prep_local@.len() as int, pt.main_local@.len() as int),
            pt.main_next@.len() == pt.main_local@.len(),
            pt.prep_next@.len() == pt.prep_local@.len(),
        ensures
            r@ == self.eval_base(pt@),
        decreases self,
    {
        match self {
            Expr::Const(c) => Felt::from_wrapped_u32(*c),
            Expr::PrepLocal(i) => pt.prep_local[*i],
            Expr::PrepNext(i) => pt.prep_next[*i],
            Expr::Local(i) => pt.main_local[*i],
            Expr::Next(i) => pt.main_next[*i],
            Expr::IsFirstRow => pt.is_first_row,
            Expr::IsLastRow => pt.is_last_row,
            Expr::IsTransition => pt.is_transition,
            Expr::Add(a, b) => a.eval_on_row(pt).add(b.eval_on_row(pt)),
            Expr::Sub(a, b) => a.eval_on_row(pt).sub(b.eval_on_row(pt)),
            Expr::Mul(a, b) => a.eval_on_row(pt).mul(b.eval_on_row(pt)),
        }
    }

    /// Evaluates the expression on values opened in the extension field.
    pub fn eval_on_opening(&self, pt: &EvalPoint<Ext>) -> (r: Ext)
        requires
            self.within(pt.prep_local@.len() as int, pt.main_local@.len() as int),
            pt.main_next@.len() == pt.main_local@.len(),
            pt.prep_next@.len() == pt.prep_local@.len(),
        ensures
            r@ == self.eval_ext(pt@),
        decreases self,
    {
        match self {
            Expr::Const(c) => Ext::from_base(Felt::from_wrapped_u32(*c)),
            Expr::PrepLocal(i) => pt.prep_local[*i],
            Expr::PrepNext(i) => pt.prep_next[*i],
            Expr::Local(i) => pt.main_local[*i],
            Expr::Next(i) => pt.main_next[*i],
            Expr::IsFirstRow => pt.is_first_row,
            Expr::IsLastRow => pt.is_last_row,
            Expr::IsTransition => pt.is_transition,
            Expr::Add(a, b) => a.eval_on_opening(pt).add(b.eval_on_opening(pt)),
            Expr::Sub(a, b) => a.eval_on_opening(pt).sub(b.eval_on_opening(pt)),
            Expr::Mul(a, b) => a.eval_on_opening(pt).mul(b.eval_on_opening(pt)),
        }
    }

    /// A copy of the expression.
    pub fn duplicate(&self) -> (r: Expr)
        ensures
            r == *self,
        decreases self,
    {
        match self {
            Expr::Const(c) => Expr::Const(*c),
            Expr::PrepLocal(i) => Expr::PrepLocal(*i),
            Expr::PrepNext(i) => Expr::PrepNext(*i),
            Expr::Local(i) => Expr::Local(*i),
            Expr::Next(i) => Expr::Next(*i),
            Expr::IsFirstRow => Expr::IsFirstRow,
            Expr::IsLastRow => Expr::IsLastRow,
            Expr::IsTransition => Expr::IsTransition,
            Expr::Add(a, b) => Expr::Add(Box::new(a.duplicate()), Box::new(b.duplicate())),
            Expr::Sub(a, b) => Expr::Sub(Box::new(a.duplicate()), Box::new(b.duplicate())),
            Expr::Mul(a, b) => Expr::Mul(Box::new(a.duplicate()), Box::new(b.duplicate())),
        }
    }
}

/// The sum of two expressions.
pub open spec fn s_add(a: Expr, b: Expr) -> Expr {
    Expr::Add(Box::new(a), Box::new(b))
}

/// The difference of two expressions.
pub open spec fn s_sub(a: Expr, b: Expr) -> Expr {
    Expr::Sub(Box::new(a), Box::new(b))
}

/// The product of two expressions.
pub open spec fn s_mul(a: Expr, b: Expr) -> Expr {
    Expr::Mul(Box::new(a), Box::new(b))
}

pub fn e_add(a: Expr, b: Expr) -> (r: Expr)
    ensures
        r == s_add(a, b),
{
    Expr::Add(Box::new(a), Box::new(b))
}

pub fn e_sub(a: Expr, b: Expr) -> (r: Expr)
    ensures
        r == s_sub(a, b),
{
    Expr::Sub(Box::new(a), Box::new(b))
}

pub fn e_mul(a: Expr, b: Expr) -> (r: Expr)
    ensures
        r == s_mul(a, b),
{
    Expr::Mul(Box::new(a), Box::new(b))
}

/// How sums, differences and products of expressions evaluate.
pub proof fn lemma_eval_ops(a: Expr, b: Expr, pt: Point<int>)
    ensures
        s_add(a, b).eval_base(pt) == fadd(a.eval_base(pt), b.eval_base(pt)),
        s_sub(a, b).eval_base(pt) == fsub(a.eval_base(pt), b.eval_base(pt)),
        s_mul(a, b).eval_base(pt) == fmul(a.eval_base(pt), b.eval_base(pt)),
{
}

/// How columns of the current row and constants evaluate.
pub proof fn lemma_eval_leaf(i: usize, n: u32, pt: Point<int>)
    ensures
        Expr::Local(i).eval_base(pt) == pt.main_local[i as int],
        Expr::Const(n).eval_base(pt) == n as int % (P as int),
{
}

/// Evaluation over the extension agrees with evaluation over the base
/// field: on a point of base values, an expression takes the base value,
/// seen in the extension.
pub proof fn lemma_eval_agrees(e: Expr, pt: Point<int>)
    requires
        e.within(pt.prep_local.len() as int, pt.main_local.len() as int),
        pt.main_next.len() == pt.main_local.len(),
        pt.prep_next.len() == pt.prep_local.len(),
    ensures
        e.eval_ext(lift_point(pt)) == q_base(e.eval_base(pt)),
    decreases e,
{
    match e {
        Expr::Add(a, b) => {
            lemma_eval_agrees(*a, pt);
            lemma_eval_agrees(*b, pt);
            lemma_base_is_subring(a.eval_base(pt), b.eval_base(pt));
        },
        Expr::Sub(a, b) => {
            lemma_eval_agrees(*a, pt);
            lemma_eval_agrees(*b, pt);
            lemma_base_is_subring(a.eval_base(pt), b.eval_base(pt));
        },
        Expr::Mul(a, b) => {
            lemma_eval_agrees(*a, pt);
            lemma_eval_agrees(*b, pt);
            lemma_base_is_subring(a.eval_base(pt), b.eval_base(pt));
        },
        _ => {},
    }
}

/// The buses of the machine: each names one multiset-equality argument
/// between the chips.
#[derive(Clone, Copy, Debug, PartialEq, Eq, Structural)]
pub enum InteractionKind {
    /// Accesses to memory and to the registers.
    Memory,
    /// Fetches of instructions from the program table.
    Program,
    /// Arithmetic and logic operations.
    Alu,
    /// Operations on bytes and range checks.
    Byte,
    /// Calls of precompiles.
    Syscall,
}

impl InteractionKind {
    /// The number that identifies the bus in a fingerprint.
    pub open spec fn index_spec(self) -> int {
        match self {
            InteractionKind::Memory => 1,
            InteractionKind::Program => 2,
            InteractionKind::Alu => 3,
            InteractionKind::Byte => 4,
            InteractionKind::Syscall => 5,
        }
    }

    pub fn index(self) -> (r: u32)
        ensures
            r == self.index_spec(),
    {
        match self {
            InteractionKind::Memory => 1,
            InteractionKind::Program => 2,
            InteractionKind::Alu => 3,
            InteractionKind::Byte => 4,
            InteractionKind::Syscall => 5,
        }
    }
}

/// One declared interaction of a chip with a bus: on every row, the tuple
/// `values` is sent, or received, `multiplicity` times.
pub struct Interaction {
    pub values: Vec<Expr>,
    pub multiplicity: Expr,
    pub kind: InteractionKind,
}

/// Every expression of the sequence lies within the given widths.
pub open spec fn all_within(es: Seq<Expr>, prep_width: int, width: int) -> bool {
    forall|i: int| 0 <= i < es.len() ==> (#[trigger] es[i]).within(prep_width, width)
}

impl Interaction {
    pub open spec fn within(&self, prep_width: int, width: int) -> bool {
        all_within(self.values@, prep_width, width) && self.multiplicity.within(
            prep_width,
            width,
        )
    }
}

/// Whether every expression of the vector lies within the given widths.
pub fn all_fit_within(es: &Vec<Expr>, prep_width: usize, width: usize) -> (r: bool)
    ensures
        r == all_within(es@, prep_width as int, width as int),
{
    let mut k: usize = 0;
    while k < es.len()
        invariant
            k <= es@.len(),
            forall|j: int|
                0 <= j < k ==> (#[trigger] es@[j]).within(prep_width as int, width as int),
        decreases es@.len() - k,
    {
        if !es[k].fits_within(prep_width, width) {
            return false;
        }
        k = k + 1;
    }
    true
}

impl Interaction {
    /// Whether every column that the interaction names lies within the
    /// given widths.
    pub fn fits_within(&self, prep_width: usize, width: usize) -> (r: bool)
        ensures
            r == self.within(prep_width as int, width as int),
    {
        all_fit_within(&self.values, prep_width, width) && self.multiplicity.fits_within(
            prep_width,
            width,
        )
    }
}

/// Whether every interaction of the vector lies within the given widths.
pub fn interactions_fit_within(xs: &Vec<Interaction>, prep_width: usize, width: usize) -> (r:
    bool)
    ensures
        r == interactions_within(xs@, prep_width as int, width as int),
{
    let mut k: usize = 0;
    while k < xs.len()
        invariant
            k <= xs@.len(),
            forall|j: int|
                0 <= j < k ==> (#[trigger] xs@[j]).within(prep_width as int, width as int),
        decreases xs@.len() - k,
    {
        if !xs[k].fits_within(prep_width, width) {
            return false;
        }
        k = k + 1;
    }
    true
}

/// Every interaction of the sequence lies within the given widths.
pub open spec fn interactions_within(xs: Seq<Interaction>, prep_width: int, width: int) -> bool {
    forall|i: int| 0 <= i < xs.len() ==> (#[trigger] xs[i]).within(prep_width, width)
}


/// The mathematical content of an `Interaction`.
pub struct InteractionSpec {
    pub values: Seq<Expr>,
    pub multiplicity: Expr,
    pub kind: InteractionKind,
}

impl View for Interaction {
    type V = InteractionSpec;

    open spec fn view(&self) -> InteractionSpec {
        InteractionSpec { values: self.values@, multiplicity: self.multiplicity, kind: self.kind }
    }
}

/// The contents of a sequence of interactions.
pub open spec fn interactions_view(xs: Seq<Interaction>) -> Seq<InteractionSpec> {
    xs.map_values(|x: Interaction| x@)
}

/// The constant `n`, as an expression.
pub open spec fn s_const(n: u32) -> Expr {
    Expr::Const(n)
}

/// The main-trace column `i` of the current row, as an expression.
pub open spec fn s_col(i: usize) -> Expr {
    Expr::Local(i)
}

/// The constraint that `e` is zero or one: `e * (e - 1)`.
pub open spec fn s_bool(e: Expr) -> Expr {
    s_mul(e, s_sub(e, s_const(1)))
}

/// The tuple of an operation on words, as sent to the bus of arithmetic:
/// the opcode, then the limbs of `a`, `b` and `c`.
pub open spec fn alu_values(opcode: Expr, a: [usize; 4], b: [usize; 4], c: [usize; 4]) -> Seq<
    Expr,
> {
    seq![
        opcode,
        s_col(a[0]),
        s_col(a[1]),
        s_col(a[2]),
        s_col(a[3]),
        s_col(b[0]),
        s_col(b[1]),
        s_col(b[2]),
        s_col(b[3]),
        s_col(c[0]),
        s_col(c[1]),
        s_col(c[2]),
        s_col(c[3]),
    ]
}

/// The interaction that puts an operation on words on the bus of
/// arithmetic.
pub open spec fn alu_interaction(
    opcode: Expr,
    a: [usize; 4],
    b: [usize; 4],
    c: [usize; 4],
    multiplicity: Expr,
) -> InteractionSpec {
    InteractionSpec {
        values: alu_values(opcode, a, b, c),
        multiplicity,
        kind: InteractionKind::Alu,
    }
}

/// The interaction that puts a lookup of a byte operation on the bus of
/// bytes: the opcode, the two results and the two operands.
pub open spec fn byte_interaction(
    opcode: Expr,
    a1: Expr,
    a2: Expr,
    b: Expr,
    c: Expr,
    multiplicity: Expr,
) -> InteractionSpec {
    InteractionSpec {
        values: seq![opcode, a1, a2, b, c],
        multiplicity,
        kind: InteractionKind::Byte,
    }
}

/// The two range checks of the limbs of a word.
pub open spec fn word_range_interactions(w: [usize; 4], multiplicity: Expr) -> Seq<
    InteractionSpec,
> {
    seq![
        byte_interaction(
            s_const(4),
            s_const(0),
            s_const(0),
            s_col(w[0]),
            s_col(w[1]),
            multiplicity,
        ),
        byte_interaction(
            s_const(4),
            s_const(0),
            s_const(0),
            s_col(w[2]),
            s_col(w[3]),
            multiplicity,
        ),
    ]
}

/// Collects what a chip declares: the expressions that must vanish on
/// every row, and the interactions with the buses.
pub struct AirBuilder {
    pub constraints: Vec<Expr>,
    pub sends: Vec<Interaction>,
    pub receives: Vec<Interaction>,
}

impl AirBuilder {
    pub open spec fn sends_view(&self) -> Seq<InteractionSpec> {
        interactions_view(self.sends@)
    }

    pub open spec fn receives_view(&self) -> Seq<InteractionSpec> {
        interactions_view(self.receives@)
    }

    /// A builder that holds nothing yet.
    pub fn new() -> (r: AirBuilder)
        ensures
            r.constraints@.len() == 0,
            r.sends@.len() == 0,
            r.receives@.len() == 0,
    {
        AirBuilder { constraints: Vec::new(), sends: Vec::new(), receives: Vec::new() }
    }

    /// Declares that `e` vanishes on every row.
    pub fn assert_zero(&mut self, e: Expr)
        ensures
            final(self).constraints@ == old(self).constraints@.push(e),
            final(self).sends == old(self).sends,
            final(self).receives == old(self).receives,
    {
        self.constraints.push(e);
    }

    /// Declares that `a` and `b` agree on every row.
    pub fn assert_eq(&mut self, a: Expr, b: Expr)
        ensures
            final(self).constraints@ == old(self).constraints@.push(s_sub(a, b)),
            final(self).sends == old(self).sends,
            final(self).receives == old(self).receives,
    {
        self.constraints.push(e_sub(a, b));
    }

    /// Declares that column `i` is zero or one on every row.
    pub fn assert_bool(&mut self, i: usize)
        ensures
            final(self).constraints@ == old(self).constraints@.push(s_bool(s_col(i))),
            final(self).sends == old(self).sends,
            final(self).receives == old(self).receives,
    {
        self.constraints.push(
            e_mul(Expr::Local(i), e_sub(Expr::Local(i), Expr::Const(1))),
        );
    }

    /// Declares an interaction that sends.
    pub fn send(&mut self, x: Interaction)
        ensures
            final(self).constraints == old(self).constraints,
            final(self).sends_view() == old(self).sends_view().push(x@),
            final(self).receives == old(self).receives,
    {
        self.sends.push(x);
        assert(self.sends_view() =~= old(self).sends_view().push(x@));
    }

    /// Declares an interaction that receives.
    pub fn receive(&mut self, x: Interaction)
        ensures
            final(self).constraints == old(self).constraints,
            final(self).sends == old(self).sends,
            final(self).receives_view() == old(self).receives_view().push(x@),
    {
        self.receives.push(x);
        assert(self.receives_view() =~= old(self).receives_view().push(x@));
    }

    /// Receives an operation on words from the bus of arithmetic.
    pub fn receive_alu(
        &mut self,
        opcode: Expr,
        a: &[usize; 4],
        b: &[usize; 4],
        c: &[usize; 4],
        multiplicity: Expr,
    )
        ensures
            final(self).constraints == old(self).constraints,
            final(self).sends == old(self).sends,
            final(self).receives_view() == old(self).receives_view().push(
                alu_interaction(opcode, *a, *b, *c, multiplicity),
            ),
    {
        let mut values: Vec<Expr> = Vec::new();
        values.push(opcode);
        values.push(Expr::Local(a[0]));
        values.push(Expr::Local(a[1]));
        values.push(Expr::Local(a[2]));
        values.push(Expr::Local(a[3]));
        values.push(Expr::Local(b[0]));
        values.push(Expr::Local(b[1]));
        values.push(Expr::Local(b[2]));
        values.push(Expr::Local(b[3]));
        values.push(Expr::Local(c[0]));
        values.push(Expr::Local(c[1]));
        values.push(Expr::Local(c[2]));
        values.push(Expr::Local(c[3]));
        assert(values@ =~= alu_values(opcode, *a, *b, *c));
        self.receive(Interaction { values, multiplicity, kind: InteractionKind::Alu });
    }

    /// Sends a lookup of a byte operation to the bus of bytes.
    pub fn send_byte_pair(
        &mut self,
        opcode: Expr,
        a1: Expr,
        a2: Expr,
        b: Expr,
        c: Expr,
        multiplicity: Expr,
    )
        ensures
            final(self).constraints == old(self).constraints,
            final(self).sends_view() == old(self).sends_view().push(
                byte_interaction(opcode, a1, a2, b, c, multiplicity),
            ),
            final(self).receives == old(self).receives,
    {
        let mut values: Vec<Expr> = Vec::new();
        values.push(opcode);
        values.push(a1);
        values.push(a2);
        values.push(b);
        values.push(c);
        assert(values@ =~= seq![opcode, a1, a2, b, c]);
        self.send(Interaction { values, multiplicity, kind: InteractionKind::Byte });
    }

    /// Receives a lookup of a byte operation from the bus of bytes.
    pub fn receive_byte_pair(
        &mut self,
        opcode: Expr,
        a1: Expr,
        a2: Expr,
        b: Expr,
        c: Expr,
        multiplicity: Expr,
    )
        ensures
            final(self).constraints == old(self).constraints,
            final(self).sends == old(self).sends,
            final(self).receives_view() == old(self).receives_view().push(
                byte_interaction(opcode, a1, a2, b, c, multiplicity),
            ),
    {
        let mut values: Vec<Expr> = Vec::new();
        values.push(opcode);
        values.push(a1);
        values.push(a2);
        values.push(b);
        values.push(c);
        assert(values@ =~= seq![opcode, a1, a2, b, c]);
        self.receive(Interaction { values, multiplicity, kind: InteractionKind::Byte });
    }

    /// Sends the range checks of the limbs of a word, two limbs at a time,
    /// `multiplicity` times each.
    pub fn slice_range_check_u8(&mut self, w: &[usize; 4], multiplicity: usize)
        ensures
            final(self).constraints == old(self).constraints,
            final(self).sends_view() == old(self).sends_view() + word_range_interactions(
                *w,
                s_col(multiplicity),
            ),
            final(self).receives == old(self).receives,
    {
        self.send_byte_pair(
            Expr::Const(4),
            Expr::Const(0),
            Expr::Const(0),
            Expr::Local(w[0]),
            Expr::Local(w[1]),
            Expr::Local(multiplicity),
        );
        self.send_byte_pair(
            Expr::Const(4),
            Expr::Const(0),
            Expr::Const(0),
            Expr::Local(w[2]),
            Expr::Local(w[3]),
            Expr::Local(multiplicity),
        );
        assert(self.sends_view() =~= old(self).sends_view() + word_range_interactions(
            *w,
            s_col(multiplicity),
        ));
    }
}

/// A call of the system, as it stands on the bus of the calls: the shard
/// and the clock, the number of the call and its two arguments.
pub open spec fn syscall_interaction(
    shard: Expr,
    clk: Expr,
    syscall_id: Expr,
    arg1: Expr,
    arg2: Expr,
    multiplicity: Expr,
) -> InteractionSpec {
    InteractionSpec {
        values: seq![shard, clk, syscall_id, arg1, arg2],
        multiplicity,
        kind: InteractionKind::Syscall,
    }
}

/// That `a` and `b` agree limb by limb wherever both `outer` and `inner`
/// are not zero.
pub open spec fn guarded_equalities(outer: Expr, inner: Expr, a: Seq<Expr>, b: Seq<Expr>) -> Seq<
    Expr,
> {
    Seq::new(a.len(), |i: int| s_mul(outer, s_mul(inner, s_sub(a[i], b[i]))))
}

impl AirBuilder {
    /// Receives a call of the system from the bus of the calls.
    pub fn receive_syscall(
        &mut self,
        shard: Expr,
        clk: Expr,
        syscall_id: Expr,
        arg1: Expr,
        arg2: Expr,
        multiplicity: Expr,
    )
        ensures
            final(self).constraints == old(self).constraints,
            final(self).sends == old(self).sends,
            final(self).receives_view() == old(self).receives_view().push(
                syscall_interaction(shard, clk, syscall_id, arg1, arg2, multiplicity),
            ),
    {
        let mut values: Vec<Expr> = Vec::new();
        values.push(shard);
        values.push(clk);
        values.push(syscall_id);
        values.push(arg1);
        values.push(arg2);
        assert(values@ =~= seq![shard, clk, syscall_id, arg1, arg2]);
        self.receive(Interaction { values, multiplicity, kind: InteractionKind::Syscall });
    }

    /// Declares that `a` and `b` agree limb by limb on the rows where
    /// both `outer` and `inner` are not zero.
    pub fn assert_all_eq_when(&mut self, outer: &Expr, inner: &Expr, a: &Vec<Expr>, b: &Vec<Expr>)
        requires
            a@.len() == b@.len(),
        ensures
            final(self).constraints@ == old(self).constraints@ + guarded_equalities(
                *outer,
                *inner,
                a@,
                b@,
            ),
            final(self).sends == old(self).sends,
            final(self).receives == old(self).receives,
    {
        let ghost all = guarded_equalities(*outer, *inner, a@, b@);
        let mut i: usize = 0;
        while i < a.len()
            invariant
                i <= a@.len(),
                a@.len() == b@.len(),
                all == guarded_equalities(*outer, *inner, a@, b@),
                self.constraints@ == old(self).constraints@ + all.subrange(0, i as int),
                self.sends == old(self).sends,
                self.receives == old(self).receives,
            decreases a@.len() - i,
        {
            self.assert_zero(
                e_mul(
                    outer.duplicate(),
                    e_mul(inner.duplicate(), e_sub(a[i].duplicate(), b[i].duplicate())),
                ),
            );
            i = i + 1;
            assert(self.constraints@ =~= old(self).constraints@ + all.subrange(0, i as int));
        }
        assert(all.subrange(0, a@.len() as int) =~= all);
    }
}

} // verus!
