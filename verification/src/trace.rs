//! Traces: dense row-major tables of field elements, padded to a power of
//! two rows and never fewer than four.

use crate::air::felts_view;
use crate::field::Felt;
use vstd::arithmetic::power2::{lemma_pow2_unfold, pow2};
use vstd::prelude::*;

verus! {

/// The least height a trace may have.
pub const MIN_HEIGHT: usize = 4;

/// `n` is a power of two.
pub open spec fn is_power_of_two(n: nat) -> bool {
    exists|k: nat| n == pow2(k)
}

/// How far `p` is below `n`.
pub open spec fn shortfall(n: nat, p: nat) -> nat {
    if p < n {
        (n - p) as nat
    } else {
        0
    }
}

/// The first of `p, 2p, 4p, ...` that is at least `n`.
pub open spec fn doubling_from(n: nat, p: nat) -> nat
    decreases shortfall(n, p),
{
    if p >= n || p == 0 {
        p
    } else {
        doubling_from(n, 2 * p)
    }
}

/// The height of a padded trace with `n` rows of content: the least power
/// of two that is at least `n` and at least four.
pub open spec fn padded_height(n: nat) -> nat {
    doubling_from(n, 4)
}

proof fn lemma_doubling(n: nat, p: nat)
    requires
        is_power_of_two(p),
        p >= 1,
    ensures
        is_power_of_two(doubling_from(n, p)),
        doubling_from(n, p) >= n,
        doubling_from(n, p) >= p,
        p < n ==> doubling_from(n, p) < 2 * n,
        p < n ==> doubling_from(n, p) >= 2 * p,
    decreases shortfall(n, p),
{
    if p < n {
        let k = choose|k: nat| p == pow2(k);
        lemma_pow2_unfold(k + 1);
        assert(2 * p == pow2(k + 1));
        lemma_doubling(n, 2 * p);
    }
}

/// The padding invariant: the padded height is a power of two, at least
/// four, at least the number of rows, and less than twice that number once
/// there are more than four rows.
pub proof fn lemma_padded_height(n: nat)
    ensures
        is_power_of_two(padded_height(n)),
        padded_height(n) >= 4,
        padded_height(n) >= n,
        n > 4 ==> padded_height(n) < 2 * n,
{
    lemma_pow2_unfold(1);
    lemma_pow2_unfold(2);
    assert(pow2(0) == 1) by {
        vstd::arithmetic::power2::lemma2_to64();
    }
    assert(4 == pow2(2));
    lemma_doubling(n, 4);
}

/// The padded height for `n` rows of content.
pub fn height_for(n: usize) -> (r: usize)
    requires
        padded_height(n as nat) <= usize::MAX,
    ensures
        r == padded_height(n as nat),
{
    let mut p: usize = 4;
    proof {
        lemma_pow2_unfold(1);
        lemma_pow2_unfold(2);
        vstd::arithmetic::power2::lemma2_to64();
        assert(4 == pow2(2));
    }
    while p < n
        invariant
            p >= 4,
            is_power_of_two(p as nat),
            doubling_from(n as nat, p as nat) == padded_height(n as nat),
            padded_height(n as nat) <= usize::MAX,
        decreases shortfall(n as nat, p as nat),
    {
        proof {
            lemma_doubling(n as nat, p as nat);
            let k = choose|k: nat| p as nat == pow2(k);
            lemma_pow2_unfold(k + 1);
            assert(2 * p == pow2(k + 1));
        }
        p = 2 * p;
    }
    p
}

/// A trace: `values` holds the rows one after another, each `width` wide.
pub struct Trace {
    pub values: Vec<Felt>,
    pub width: usize,
}

/// `len` zeros.
pub open spec fn zeros(len: nat) -> Seq<int> {
    Seq::new(len, |i: int| 0int)
}

impl Trace {
    /// The values fill whole rows.
    pub open spec fn well_formed(&self) -> bool {
        self.width > 0 && self.values@.len() % (self.width as nat) == 0
    }

    /// The number of rows.
    pub open spec fn height(&self) -> nat {
        self.values@.len() / (self.width as nat)
    }

    /// The `i`-th row, as integers.
    pub open spec fn row(&self, i: int) -> Seq<int> {
        felts_view(self.values@.subrange(i * self.width, (i + 1) * self.width))
    }

    /// The values of row `r`.
    pub fn row_vec(&self, r: usize) -> (v: Vec<Felt>)
        requires
            (r + 1) * self.width <= self.values@.len(),
        ensures
            v@ == self.values@.subrange(r * self.width, (r + 1) * self.width),
            felts_view(v@) == self.row(r as int),
            v@.len() == self.width,
    {
        let total = self.values.len();
        proof {
            assert(r * self.width + self.width == (r + 1) * self.width) by (nonlinear_arith);
            assert(r * self.width >= 0) by (nonlinear_arith)
                requires
                    r >= 0,
                    self.width >= 0,
            ;
            assert(r * self.width <= total);
        }
        let start = r * self.width;
        let mut v: Vec<Felt> = Vec::new();
        let mut j: usize = 0;
        while j < self.width
            invariant
                j <= self.width,
                start == r * self.width,
                start + self.width == (r + 1) * self.width,
                start + self.width <= self.values@.len(),
                self.values@.len() <= usize::MAX,
                v@ == self.values@.subrange(start as int, start + j),
            decreases self.width - j,
        {
            v.push(self.values[start + j]);
            j = j + 1;
            assert(v@ =~= self.values@.subrange(start as int, start + j));
        }
        v
    }

    /// The number of rows.
    pub fn num_rows(&self) -> (r: usize)
        requires
            self.well_formed(),
        ensures
            r == self.height(),
    {
        self.values.len() / self.width
    }
}

/// Appends rows of zeros to `values`, which holds `rows` rows of `width`
/// columns, until it holds the padded height.
pub fn pad_to_power_of_two(values: &mut Vec<Felt>, width: usize, rows: usize)
    requires
        width > 0,
        old(values)@.len() == rows * width,
        padded_height(rows as nat) * width <= usize::MAX,
    ensures
        final(values)@.len() == padded_height(rows as nat) * width,
        final(values)@.subrange(0, old(values)@.len() as int) == old(values)@,
        forall|i: int|
            old(values)@.len() <= i < final(values)@.len() ==> (#[trigger] final(values)@[i])@ == 0,
{
    proof {
        lemma_padded_height(rows as nat);
        assert(padded_height(rows as nat) <= padded_height(rows as nat) * width)
            by (nonlinear_arith)
            requires
                width >= 1,
        ;
    }
    let target = height_for(rows);
    let ghost start = values@;
    let mut i: usize = rows;
    while i < target
        invariant
            rows <= i <= target,
            width > 0,
            target == padded_height(rows as nat),
            target * width <= usize::MAX,
            start.len() == rows * width,
            values@.len() == i * width,
            values@.subrange(0, start.len() as int) == start,
            forall|k: int| start.len() <= k < values@.len() ==> (#[trigger] values@[k])@ == 0,
        decreases target - i,
    {
        let ghost before = values@;
        let mut j: usize = 0;
        proof {
            assert((i + 1) * width == i * width + width) by (nonlinear_arith);
            assert((i + 1) * width <= target * width) by (nonlinear_arith)
                requires
                    i + 1 <= target,
                    width >= 0,
            ;
            assert(rows * width <= i * width) by (nonlinear_arith)
                requires
                    rows <= i,
                    width >= 0,
            ;
        }
        while j < width
            invariant
                j <= width,
                values@.len() == before.len() + j,
                before.len() + width <= usize::MAX,
                start.len() <= before.len(),
                values@.subrange(0, start.len() as int) == start,
                forall|k: int| start.len() <= k < values@.len() ==> (#[trigger] values@[k])@ == 0,
            decreases width - j,
        {
            values.push(Felt::zero());
            j = j + 1;
            assert(values@.subrange(0, start.len() as int) =~= start);
        }
        i = i + 1;
    }
}

/// Rows lie one after the other: row `k` of `rows` rows ends before the
/// values end.
pub proof fn lemma_row_bounds(k: int, rows: int, width: int)
    requires
        0 <= k < rows,
        width >= 0,
    ensures
        0 <= k * width,
        k * width + width == (k + 1) * width,
        (k + 1) * width <= rows * width,
{
    assert(k * width + width == (k + 1) * width) by (nonlinear_arith);
    assert(0 <= k * width) by (nonlinear_arith)
        requires
            0 <= k,
            width >= 0,
    ;
    assert((k + 1) * width <= rows * width) by (nonlinear_arith)
        requires
            k + 1 <= rows,
            width >= 0,
    ;
}

/// The trace that holds the rows of `values` and then rows of zeros up to
/// the padded height.
pub fn padded_trace(values: Vec<Felt>, width: usize, rows: usize) -> (t: Trace)
    requires
        width > 0,
        values@.len() == rows * width,
        padded_height(rows as nat) * width <= usize::MAX,
    ensures
        t.width == width,
        t.values@.len() == padded_height(rows as nat) * width,
        forall|k: int|
            0 <= k < rows ==> #[trigger] t.row(k) == felts_view(
                values@.subrange(k * width, (k + 1) * width),
            ),
        forall|k: int|
            rows <= k < padded_height(rows as nat) ==> #[trigger] t.row(k) == zeros(width as nat),
{
    let ghost content = values@;
    let mut values = values;
    pad_to_power_of_two(&mut values, width, rows);
    let t = Trace { values, width };
    proof {
        lemma_padded_height(rows as nat);
        let h = padded_height(rows as nat) as int;
        assert(rows * width <= h * width) by (nonlinear_arith)
            requires
                rows <= h,
                width >= 0,
        ;
        assert forall|k: int| 0 <= k < rows implies #[trigger] t.row(k) == felts_view(
            content.subrange(k * width, (k + 1) * width),
        ) by {
            lemma_row_bounds(k, rows as int, width as int);
            let prefix = t.values@.subrange(0, content.len() as int);
            assert(prefix == content);
            assert(t.values@.subrange(k * width, (k + 1) * width) =~= prefix.subrange(
                k * width,
                (k + 1) * width,
            ));
        }
        assert forall|k: int| rows <= k < h implies #[trigger] t.row(k) == zeros(
            width as nat,
        ) by {
            lemma_row_bounds(k, h, width as int);
            assert(rows * width <= k * width) by (nonlinear_arith)
                requires
                    rows <= k,
                    width >= 0,
            ;
            let r = t.values@.subrange(k * width, (k + 1) * width);
            assert forall|j: int| 0 <= j < width implies (#[trigger] r[j])@ == 0 by {
                assert(r[j] == t.values@[k * width + j]);
            }
            assert(t.row(k) =~= zeros(width as nat));
        }
    }
    t
}

/// Appends a row to the rows that `values` holds; the rows before stay as
/// they are.
pub fn append_row(values: &mut Vec<Felt>, row: &Vec<Felt>, width: usize, count: usize)
    requires
        old(values)@.len() == count * width,
        row@.len() == width,
    ensures
        final(values)@.len() == (count + 1) * width,
        forall|k: int|
            0 <= k < count ==> #[trigger] final(values)@.subrange(k * width, (k + 1) * width)
                == old(values)@.subrange(k * width, (k + 1) * width),
        final(values)@.subrange(count * width, (count + 1) * width) == row@,
{
    proof {
        assert((count + 1) * width == count * width + width) by (nonlinear_arith);
    }
    let mut j: usize = 0;
    while j < width
        invariant
            j <= width,
            row@.len() == width,
            old(values)@.len() == count * width,
            (count + 1) * width == count * width + width,
            values@ == old(values)@ + row@.subrange(0, j as int),
        decreases width - j,
    {
        values.push(row[j]);
        j = j + 1;
        assert(values@ =~= old(values)@ + row@.subrange(0, j as int));
    }
    proof {
        assert(row@.subrange(0, width as int) =~= row@);
        assert(values@.subrange(count * width, (count + 1) * width) =~= row@);
        assert forall|k: int| 0 <= k < count implies #[trigger] values@.subrange(
            k * width,
            (k + 1) * width,
        ) == old(values)@.subrange(k * width, (k + 1) * width) by {
            lemma_row_bounds(k, count as int, width as int);
            assert(values@.subrange(k * width, (k + 1) * width) =~= old(values)@.subrange(
                k * width,
                (k + 1) * width,
            ));
        }
    }
}

/// The trace that holds the rows of `values` and then the row `filler`
/// again and again up to the padded height.
pub fn padded_with(values: Vec<Felt>, width: usize, rows: usize, filler: &Vec<Felt>) -> (t: Trace)
    requires
        width > 0,
        values@.len() == rows * width,
        filler@.len() == width,
        padded_height(rows as nat) * width <= usize::MAX,
    ensures
        t.width == width,
        t.values@.len() == padded_height(rows as nat) * width,
        forall|k: int|
            0 <= k < rows ==> #[trigger] t.row(k) == felts_view(
                values@.subrange(k * width, (k + 1) * width),
            ),
        forall|k: int|
            rows <= k < padded_height(rows as nat) ==> #[trigger] t.row(k) == felts_view(filler@),
{
    proof {
        lemma_padded_height(rows as nat);
        let h = padded_height(rows as nat) as int;
        assert(h <= h * width) by (nonlinear_arith)
            requires
                h >= 0,
                width >= 1,
        ;
    }
    let height = height_for(rows);
    let ghost content = values@;
    let mut values = values;
    let mut count: usize = rows;
    while count < height
        invariant
            rows <= count <= height,
            width > 0,
            height * width <= usize::MAX,
            filler@.len() == width,
            values@.len() == count * width,
            forall|k: int|
                0 <= k < rows ==> #[trigger] values@.subrange(k * width, (k + 1) * width)
                    == content.subrange(k * width, (k + 1) * width),
            forall|k: int|
                rows <= k < count ==> #[trigger] values@.subrange(k * width, (k + 1) * width)
                    == filler@,
        decreases height - count,
    {
        append_row(&mut values, filler, width, count);
        count = count + 1;
    }
    Trace { values, width }
}

/// The padded height for `n` rows of content, where a `usize` can hold
/// it.
pub fn checked_height(n: usize) -> (r: Option<usize>)
    ensures
        match r {
            Some(h) => h == padded_height(n as nat),
            None => padded_height(n as nat) > usize::MAX,
        },
{
    let mut p: usize = 4;
    proof {
        lemma_pow2_unfold(1);
        lemma_pow2_unfold(2);
        vstd::arithmetic::power2::lemma2_to64();
        assert(4 == pow2(2));
    }
    while p < n
        invariant
            p >= 4,
            is_power_of_two(p as nat),
            doubling_from(n as nat, p as nat) == padded_height(n as nat),
        decreases shortfall(n as nat, p as nat),
    {
        proof {
            lemma_doubling(n as nat, p as nat);
            let k = choose|k: nat| p as nat == pow2(k);
            lemma_pow2_unfold(k + 1);
            assert(2 * p == pow2(k + 1));
        }
        if p > usize::MAX / 2 {
            return None;
        }
        p = 2 * p;
    }
    Some(p)
}

/// Whether a padded trace of `n` rows of content and `width` columns is
/// no longer than a vector can be.
pub fn rows_fit(n: usize, width: usize) -> (r: bool)
    requires
        width > 0,
    ensures
        r == (padded_height(n as nat) * width <= usize::MAX),
{
    match checked_height(n) {
        Some(h) => {
            proof {
                let q = (usize::MAX / width) as int;
                vstd::arithmetic::div_mod::lemma_fundamental_div_mod(usize::MAX as int, width as int);
                if h <= q {
                    assert(h * width <= q * width) by (nonlinear_arith)
                        requires
                            h <= q,
                            width > 0,
                    ;
                } else {
                    assert(h * width >= (q + 1) * width) by (nonlinear_arith)
                        requires
                            h >= q + 1,
                            width > 0,
                    ;
                    assert((q + 1) * width == q * width + width) by (nonlinear_arith);
                    vstd::arithmetic::div_mod::lemma_mod_bound(usize::MAX as int, width as int);
                }
            }
            h <= usize::MAX / width
        },
        None => {
            proof {
                let h = padded_height(n as nat) as int;
                assert(h * width >= h) by (nonlinear_arith)
                    requires
                        h >= 0,
                        width >= 1,
                ;
            }
            false
        },
    }
}

} // verus!
