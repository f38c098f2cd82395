//! Checking what a chip declares on its traces themselves, row by row:
//! every constraint is evaluated on every row, together with the row that
//! follows it, the first row following the last.

use crate::air::{all_fit_within, all_within, felts_view, EvalPoint, Expr, Point};
use crate::field::Felt;
use crate::stark::machine::trace_rows;
use crate::stark::types::MachineChip;
use crate::trace::Trace;
use vstd::prelude::*;

verus! {

/// One for a condition that holds, zero for one that does not.
pub open spec fn flag(b: bool) -> int {
    if b {
        1
    } else {
        0
    }
}

/// What the constraints are evaluated on at row `r`: the row and the row
/// after it, of the preprocessed trace where there is one and of the main
/// trace, and the three selectors of the rows.
pub open spec fn row_point(prep: Seq<Seq<int>>, main: Seq<Seq<int>>, r: int) -> Point<int> {
    let next = if r + 1 == main.len() {
        0
    } else {
        r + 1
    };
    Point {
        prep_local: if prep.len() == main.len() {
            prep[r]
        } else {
            Seq::empty()
        },
        prep_next: if prep.len() == main.len() {
            prep[next]
        } else {
            Seq::empty()
        },
        main_local: main[r],
        main_next: main[next],
        is_first_row: flag(r == 0),
        is_last_row: flag(r + 1 == main.len()),
        is_transition: flag(r + 1 != main.len()),
    }
}

/// Constraint `k` does not vanish on row `r`.
pub open spec fn fails_at(
    constraints: Seq<Expr>,
    prep: Seq<Seq<int>>,
    main: Seq<Seq<int>>,
    r: int,
    k: int,
) -> bool {
    constraints[k].eval_base(row_point(prep, main, r)) != 0
}

/// Every constraint vanishes on every row.
pub open spec fn holds_on(constraints: Seq<Expr>, prep: Seq<Seq<int>>, main: Seq<Seq<int>>) -> bool {
    forall|r: int, k: int|
        0 <= r < main.len() && 0 <= k < constraints.len() ==> !#[trigger] fails_at(
            constraints,
            prep,
            main,
            r,
            k,
        )
}

/// The rows of the preprocessed trace, none where there is no such trace.
pub open spec fn rows_or_none(prep: &Option<Trace>) -> Seq<Seq<int>> {
    match prep {
        Some(t) => trace_rows(t),
        None => Seq::empty(),
    }
}

/// The traces have the shape that the chip declares: the widths are those
/// of the chip, the traces have the same number of rows and at least one,
/// and every column that a constraint names is there.
pub open spec fn shapes_agree(chip: &MachineChip, prep: &Option<Trace>, main: &Trace) -> bool {
    &&& main.well_formed()
    &&& main.width == chip.width
    &&& main.height() > 0
    &&& all_within(chip.constraints@, chip.preprocessed_width as int, chip.width as int)
    &&& match prep {
        Some(p) => p.well_formed() && p.width == chip.preprocessed_width && p.height()
            == main.height(),
        None => chip.preprocessed_width == 0,
    }
}

/// A constraint that does not vanish on a row.
#[derive(Debug, Clone, Copy, PartialEq, Eq, Structural)]
pub struct ConstraintFailure {
    pub row: usize,
    pub constraint: usize,
}

/// Why the traces of a chip were not accepted.
#[derive(Debug, Clone, Copy, PartialEq, Eq, Structural)]
pub enum RowsError {
    /// The traces do not have the shape that the chip declares.
    Shape,
    /// A constraint does not vanish on a row.
    Violation(ConstraintFailure),
}

/// Whether the traces have the shape that the chip declares.
pub fn shapes_ok(chip: &MachineChip, prep: &Option<Trace>, main: &Trace) -> (r: bool)
    ensures
        r == shapes_agree(chip, prep, main),
{
    if main.width == 0 || main.width != chip.width || main.values.len() % main.width != 0
        || main.values.len() / main.width == 0 {
        return false;
    }
    if !all_fit_within(&chip.constraints, chip.preprocessed_width, chip.width) {
        return false;
    }
    match prep {
        Some(p) => p.width != 0 && p.values.len() % p.width == 0 && p.width
            == chip.preprocessed_width && p.values.len() / p.width == main.values.len()
            / main.width,
        None => chip.preprocessed_width == 0,
    }
}

/// The first constraint that does not vanish at a point, if there is
/// one.
fn first_failure(constraints: &Vec<Expr>, pt: &EvalPoint<Felt>) -> (r: Option<usize>)
    requires
        all_within(constraints@, pt.prep_local@.len() as int, pt.main_local@.len() as int),
        pt.main_next@.len() == pt.main_local@.len(),
        pt.prep_next@.len() == pt.prep_local@.len(),
    ensures
        match r {
            Some(k) => k < constraints@.len() && constraints@[k as int].eval_base(pt@) != 0,
            None => forall|k: int|
                0 <= k < constraints@.len() ==> (#[trigger] constraints@[k]).eval_base(pt@) == 0,
        },
{
    let mut k: usize = 0;
    while k < constraints.len()
        invariant
            k <= constraints@.len(),
            all_within(constraints@, pt.prep_local@.len() as int, pt.main_local@.len() as int),
            pt.main_next@.len() == pt.main_local@.len(),
            pt.prep_next@.len() == pt.prep_local@.len(),
            forall|j: int| 0 <= j < k ==> (#[trigger] constraints@[j]).eval_base(pt@) == 0,
        decreases constraints@.len() - k,
    {
        let v = constraints[k].eval_on_row(pt);
        if v.as_canonical_u32() != 0 {
            return Some(k);
        }
        k = k + 1;
    }
    None
}

fn row_of(t: &Trace, r: usize, height: usize) -> (v: Vec<Felt>)
    requires
        t.well_formed(),
        height == t.height(),
        r < height,
    ensures
        felts_view(v@) == trace_rows(t)[r as int],
        v@.len() == t.width,
{
    proof {
        let w = t.width as int;
        let len = t.values@.len() as int;
        vstd::arithmetic::div_mod::lemma_fundamental_div_mod(len, w);
        assert(len == w * (len / w));
        assert((r + 1) * w <= (len / w) * w) by (nonlinear_arith)
            requires
                r + 1 <= len / w,
                w > 0,
        ;
        assert((len / w) * w == w * (len / w)) by (nonlinear_arith);
    }
    t.row_vec(r)
}

/// Checks every constraint of the chip on every row of its traces.
pub fn check_rows(chip: &MachineChip, prep: &Option<Trace>, main: &Trace) -> (r: Result<
    (),
    RowsError,
>)
    ensures
        r is Ok <==> shapes_agree(chip, prep, main) && holds_on(
            chip.constraints@,
            rows_or_none(prep),
            trace_rows(main),
        ),
        r == Err::<(), RowsError>(RowsError::Shape) <==> !shapes_agree(chip, prep, main),
        r matches Err(RowsError::Violation(f)) ==> f.row < main.height() && f.constraint
            < chip.constraints@.len() && fails_at(
            chip.constraints@,
            rows_or_none(prep),
            trace_rows(main),
            f.row as int,
            f.constraint as int,
        ),
{
    if !shapes_ok(chip, prep, main) {
        return Err(RowsError::Shape);
    }
    let height = main.values.len() / main.width;
    let ghost rows = trace_rows(main);
    let ghost prep_rows = rows_or_none(prep);
    let mut r: usize = 0;
    while r < height
        invariant
            r <= height,
            height == main.height(),
            shapes_agree(chip, prep, main),
            rows == trace_rows(main),
            prep_rows == rows_or_none(prep),
            forall|i: int, k: int|
                0 <= i < r && 0 <= k < chip.constraints@.len() ==> !#[trigger] fails_at(
                    chip.constraints@,
                    prep_rows,
                    rows,
                    i,
                    k,
                ),
        decreases height - r,
    {
        let next = if r + 1 == height {
            0
        } else {
            r + 1
        };
        let (prep_local, prep_next) = match prep {
            Some(p) => (row_of(p, r, height), row_of(p, next, height)),
            None => (Vec::new(), Vec::new()),
        };
        let pt = EvalPoint {
            prep_local,
            prep_next,
            main_local: row_of(main, r, height),
            main_next: row_of(main, next, height),
            is_first_row: Felt::from_bool(r == 0),
            is_last_row: Felt::from_bool(r + 1 == height),
            is_transition: Felt::from_bool(r + 1 != height),
        };
        proof {
            assert(felts_view(pt.prep_local@) =~= row_point(prep_rows, rows, r as int).prep_local);
            assert(felts_view(pt.prep_next@) =~= row_point(prep_rows, rows, r as int).prep_next);
            assert(pt@ == row_point(prep_rows, rows, r as int));
        }
        match first_failure(&chip.constraints, &pt) {
            Some(k) => {
                proof {
                    assert(fails_at(chip.constraints@, prep_rows, rows, r as int, k as int));
                    assert(!holds_on(chip.constraints@, prep_rows, rows));
                }
                return Err(RowsError::Violation(ConstraintFailure { row: r, constraint: k }));
            },
            None => {},
        }
        r = r + 1;
    }
    Ok(())
}

} // verus!
