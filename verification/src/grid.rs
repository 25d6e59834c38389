//! The mathematical view of an environment grid.
//!
//! A grid is a sequence of `h` rows of `w` fixed-point intensity values on
//! a torus: both axes wrap, so every cell has exactly eight neighbours and
//! every cell lies in exactly nine of the three-by-three neighbourhoods.
//! This module defines the grid sums that the decay-monotonicity law is
//! stated over, and proves the rearrangement lemmas that law needs: a
//! rotated row keeps its sum, a shifted grid keeps its total, and sums are
//! monotone cell by cell.

use vstd::prelude::*;
use crate::params::INTENSITY_CAP;

verus! {

/// A well-formed grid: `h` rows of `w` cells, every cell within the
/// intensity cap.
pub open spec fn grid_wf(g: Seq<Seq<u64>>, w: int, h: int) -> bool {
    &&& g.len() == h
    &&& forall|y: int| 0 <= y < h ==> (#[trigger] g[y]).len() == w
    &&& forall|y: int, x: int|
        0 <= y < h && 0 <= x < w ==> #[trigger] g[y][x] <= INTENSITY_CAP
}

/// The grid whose every cell holds `level`.
pub open spec fn uniform_grid(w: int, h: int, level: u64) -> Seq<Seq<u64>> {
    Seq::new(h as nat, |y: int| Seq::new(w as nat, |x: int| level))
}

/// The zero-filled grid.
pub open spec fn zero_grid(w: int, h: int) -> Seq<Seq<u64>> {
    uniform_grid(w, h, 0)
}

/// One step backwards along a wrapping axis of extent `n`.
pub open spec fn wrap_dec(i: int, n: int) -> int {
    if i == 0 {
        n - 1
    } else {
        i - 1
    }
}

/// One step forwards along a wrapping axis of extent `n`.
pub open spec fn wrap_inc(i: int, n: int) -> int {
    if i + 1 == n {
        0
    } else {
        i + 1
    }
}

/// The index one neighbour step `d` in `{-1, 0, 1}` away from `i` on a
/// wrapping axis of extent `n`.
pub open spec fn axis_idx(i: int, d: int, n: int) -> int {
    if d == -1 {
        wrap_dec(i, n)
    } else if d == 1 {
        wrap_inc(i, n)
    } else {
        i
    }
}

/// The sum of a row of cells.
pub open spec fn sum_row(s: Seq<u64>) -> int
    decreases s.len(),
{
    if s.len() == 0 {
        0
    } else {
        s[0] + sum_row(s.drop_first())
    }
}

/// The sum of a row of unbounded integers.
pub open spec fn sum_irow(s: Seq<int>) -> int
    decreases s.len(),
{
    if s.len() == 0 {
        0
    } else {
        s[0] + sum_irow(s.drop_first())
    }
}

/// The total intensity held by a grid.
pub open spec fn total(g: Seq<Seq<u64>>) -> int
    decreases g.len(),
{
    if g.len() == 0 {
        0
    } else {
        sum_row(g[0]) + total(g.drop_first())
    }
}

/// The total of a grid of unbounded integers.
pub open spec fn total_irows(g: Seq<Seq<int>>) -> int
    decreases g.len(),
{
    if g.len() == 0 {
        0
    } else {
        sum_irow(g[0]) + total_irows(g.drop_first())
    }
}

/// Each row's sum, as a row of integers.
pub open spec fn row_sums(g: Seq<Seq<u64>>) -> Seq<int> {
    Seq::new(g.len(), |y: int| sum_row(g[y]))
}

/// A row read through a wrapping neighbour step: a rotation by one place.
pub open spec fn rot_row(s: Seq<u64>, d: int) -> Seq<u64> {
    Seq::new(s.len(), |x: int| s[axis_idx(x, d, s.len() as int)])
}

/// A row of integers read through a wrapping neighbour step.
pub open spec fn rot_irow(s: Seq<int>, d: int) -> Seq<int> {
    Seq::new(s.len(), |y: int| s[axis_idx(y, d, s.len() as int)])
}

/// The whole grid read through a wrapping neighbour step `(dx, dy)`.
pub open spec fn shift_grid(g: Seq<Seq<u64>>, w: int, h: int, dx: int, dy: int) -> Seq<
    Seq<u64>,
> {
    Seq::new(h as nat, |y: int| Seq::new(w as nat, |x: int| g[axis_idx(y, dy, h)][axis_idx(x, dx, w)]))
}

/// The mathematical grid held by a vector of plain rows.
pub open spec fn rows_view<T>(rows: Seq<Vec<T>>) -> Seq<Seq<T>> {
    Seq::new(rows.len(), |y: int| rows[y]@)
}

/// A row of cells, widened to unbounded integers.
pub open spec fn to_irow(s: Seq<u64>) -> Seq<int> {
    Seq::new(s.len(), |i: int| s[i] as int)
}

/// A grid of cells, widened to unbounded integers.
pub open spec fn to_igrid(g: Seq<Seq<u64>>) -> Seq<Seq<int>> {
    Seq::new(g.len(), |y: int| to_irow(g[y]))
}

/// Pointwise sum of two integer rows.
pub open spec fn add_irows(a: Seq<int>, b: Seq<int>) -> Seq<int> {
    Seq::new(a.len(), |i: int| a[i] + b[i])
}

/// Pointwise sum of two integer grids.
pub open spec fn add_igrids(a: Seq<Seq<int>>, b: Seq<Seq<int>>) -> Seq<Seq<int>> {
    Seq::new(a.len(), |y: int| add_irows(a[y], b[y]))
}

pub proof fn lemma_sum_row_nonneg(s: Seq<u64>)
    ensures
        sum_row(s) >= 0,
    decreases s.len(),
{
    if s.len() != 0 {
        lemma_sum_row_nonneg(s.drop_first());
    }
}

pub proof fn lemma_total_nonneg(g: Seq<Seq<u64>>)
    ensures
        total(g) >= 0,
    decreases g.len(),
{
    if g.len() != 0 {
        lemma_sum_row_nonneg(g[0]);
        lemma_total_nonneg(g.drop_first());
    }
}

pub proof fn lemma_sum_row_append(a: Seq<u64>, b: Seq<u64>)
    ensures
        sum_row(a + b) == sum_row(a) + sum_row(b),
    decreases a.len(),
{
    if a.len() == 0 {
        assert(a + b =~= b);
    } else {
        assert((a + b).drop_first() =~= a.drop_first() + b);
        lemma_sum_row_append(a.drop_first(), b);
    }
}

pub proof fn lemma_sum_irow_append(a: Seq<int>, b: Seq<int>)
    ensures
        sum_irow(a + b) == sum_irow(a) + sum_irow(b),
    decreases a.len(),
{
    if a.len() == 0 {
        assert(a + b =~= b);
    } else {
        assert((a + b).drop_first() =~= a.drop_first() + b);
        lemma_sum_irow_append(a.drop_first(), b);
    }
}

/// A row rotated by one wrapping neighbour step keeps its sum.
pub proof fn lemma_rot_row_sum(s: Seq<u64>, d: int)
    requires
        s.len() > 0,
        -1 <= d <= 1,
    ensures
        sum_row(rot_row(s, d)) == sum_row(s),
{
    let n = s.len() as int;
    if d == 0 {
        assert(rot_row(s, 0) =~= s);
    } else if d == 1 {
        assert(rot_row(s, 1) =~= s.subrange(1, n) + s.subrange(0, 1));
        lemma_sum_row_append(s.subrange(1, n), s.subrange(0, 1));
        assert(s =~= s.subrange(0, 1) + s.subrange(1, n));
        lemma_sum_row_append(s.subrange(0, 1), s.subrange(1, n));
    } else {
        assert(rot_row(s, -1) =~= s.subrange(n - 1, n) + s.subrange(0, n - 1));
        lemma_sum_row_append(s.subrange(n - 1, n), s.subrange(0, n - 1));
        assert(s =~= s.subrange(0, n - 1) + s.subrange(n - 1, n));
        lemma_sum_row_append(s.subrange(0, n - 1), s.subrange(n - 1, n));
    }
}

/// An integer row rotated by one wrapping neighbour step keeps its sum.
pub proof fn lemma_rot_irow_sum(s: Seq<int>, d: int)
    requires
        s.len() > 0,
        -1 <= d <= 1,
    ensures
        sum_irow(rot_irow(s, d)) == sum_irow(s),
{
    let n = s.len() as int;
    if d == 0 {
        assert(rot_irow(s, 0) =~= s);
    } else if d == 1 {
        assert(rot_irow(s, 1) =~= s.subrange(1, n) + s.subrange(0, 1));
        lemma_sum_irow_append(s.subrange(1, n), s.subrange(0, 1));
        assert(s =~= s.subrange(0, 1) + s.subrange(1, n));
        lemma_sum_irow_append(s.subrange(0, 1), s.subrange(1, n));
    } else {
        assert(rot_irow(s, -1) =~= s.subrange(n - 1, n) + s.subrange(0, n - 1));
        lemma_sum_irow_append(s.subrange(n - 1, n), s.subrange(0, n - 1));
        assert(s =~= s.subrange(0, n - 1) + s.subrange(n - 1, n));
        lemma_sum_irow_append(s.subrange(0, n - 1), s.subrange(n - 1, n));
    }
}

/// A grid's total is the sum of its row sums.
pub proof fn lemma_total_rows(g: Seq<Seq<u64>>)
    ensures
        total(g) == sum_irow(row_sums(g)),
    decreases g.len(),
{
    if g.len() != 0 {
        lemma_total_rows(g.drop_first());
        assert(row_sums(g).drop_first() =~= row_sums(g.drop_first()));
    }
}

/// A grid read through any wrapping neighbour step keeps its total: the
/// shift permutes rows and rotates each row, and neither changes a sum.
pub proof fn lemma_shift_total(g: Seq<Seq<u64>>, w: int, h: int, dx: int, dy: int)
    requires
        w > 0,
        h > 0,
        g.len() == h,
        forall|y: int| 0 <= y < h ==> (#[trigger] g[y]).len() == w,
        -1 <= dx <= 1,
        -1 <= dy <= 1,
    ensures
        total(shift_grid(g, w, h, dx, dy)) == total(g),
{
    let sh = shift_grid(g, w, h, dx, dy);
    assert forall|y: int| 0 <= y < h implies sum_row(sh[y]) == row_sums(g)[axis_idx(
        y,
        dy,
        h,
    )] by {
        let yy = axis_idx(y, dy, h);
        assert(0 <= yy < h);
        assert(sh[y] =~= rot_row(g[yy], dx));
        lemma_rot_row_sum(g[yy], dx);
    }
    assert(row_sums(sh) =~= rot_irow(row_sums(g), dy));
    lemma_rot_irow_sum(row_sums(g), dy);
    lemma_total_rows(g);
    lemma_total_rows(sh);
}

pub proof fn lemma_sum_to_irow(s: Seq<u64>)
    ensures
        sum_irow(to_irow(s)) == sum_row(s),
    decreases s.len(),
{
    if s.len() != 0 {
        assert(to_irow(s).drop_first() =~= to_irow(s.drop_first()));
        lemma_sum_to_irow(s.drop_first());
    }
}

pub proof fn lemma_total_to_igrid(g: Seq<Seq<u64>>)
    ensures
        total_irows(to_igrid(g)) == total(g),
    decreases g.len(),
{
    if g.len() != 0 {
        lemma_sum_to_irow(g[0]);
        assert(to_igrid(g).drop_first() =~= to_igrid(g.drop_first()));
        lemma_total_to_igrid(g.drop_first());
    }
}

pub proof fn lemma_sum_irow_add(a: Seq<int>, b: Seq<int>)
    requires
        a.len() == b.len(),
    ensures
        sum_irow(add_irows(a, b)) == sum_irow(a) + sum_irow(b),
    decreases a.len(),
{
    if a.len() != 0 {
        assert(add_irows(a, b).drop_first() =~= add_irows(a.drop_first(), b.drop_first()));
        lemma_sum_irow_add(a.drop_first(), b.drop_first());
    }
}

pub proof fn lemma_total_irows_add(a: Seq<Seq<int>>, b: Seq<Seq<int>>)
    requires
        a.len() == b.len(),
        forall|y: int| 0 <= y < a.len() ==> (#[trigger] a[y]).len() == b[y].len(),
    ensures
        total_irows(add_igrids(a, b)) == total_irows(a) + total_irows(b),
    decreases a.len(),
{
    if a.len() != 0 {
        lemma_sum_irow_add(a[0], b[0]);
        assert(add_igrids(a, b).drop_first() =~= add_igrids(a.drop_first(), b.drop_first()));
        lemma_total_irows_add(a.drop_first(), b.drop_first());
    }
}

/// Summing is monotone: if nine times each cell is below the matching
/// integer entry, nine times the row sum is below the integer row sum.
pub proof fn lemma_sum_nine_le(a: Seq<u64>, b: Seq<int>)
    requires
        a.len() == b.len(),
        forall|i: int| 0 <= i < a.len() ==> 9 * (#[trigger] a[i]) <= b[i],
    ensures
        9 * sum_row(a) <= sum_irow(b),
    decreases a.len(),
{
    if a.len() != 0 {
        lemma_sum_nine_le(a.drop_first(), b.drop_first());
    }
}

pub proof fn lemma_total_nine_le(a: Seq<Seq<u64>>, b: Seq<Seq<int>>)
    requires
        a.len() == b.len(),
        forall|y: int| 0 <= y < a.len() ==> (#[trigger] a[y]).len() == b[y].len(),
        forall|y: int, i: int|
            0 <= y < a.len() && 0 <= i < a[y].len() ==> 9 * (#[trigger] a[y][i]) <= b[y][i],
    ensures
        9 * total(a) <= total_irows(b),
    decreases a.len(),
{
    if a.len() != 0 {
        lemma_sum_nine_le(a[0], b[0]);
        lemma_total_nine_le(a.drop_first(), b.drop_first());
    }
}

/// The strict variant: one witness entry with slack nine forces slack nine
/// on the whole row sum.
pub proof fn lemma_sum_nine_le_strict(a: Seq<u64>, b: Seq<int>, i0: int)
    requires
        a.len() == b.len(),
        forall|i: int| 0 <= i < a.len() ==> 9 * (#[trigger] a[i]) <= b[i],
        0 <= i0 < a.len(),
        9 * a[i0] + 9 <= b[i0],
    ensures
        9 * sum_row(a) + 9 <= sum_irow(b),
    decreases a.len(),
{
    if i0 == 0 {
        lemma_sum_nine_le(a.drop_first(), b.drop_first());
    } else {
        lemma_sum_nine_le_strict(a.drop_first(), b.drop_first(), i0 - 1);
    }
}

pub proof fn lemma_total_nine_le_strict(a: Seq<Seq<u64>>, b: Seq<Seq<int>>, x0: int, y0: int)
    requires
        a.len() == b.len(),
        forall|y: int| 0 <= y < a.len() ==> (#[trigger] a[y]).len() == b[y].len(),
        forall|y: int, i: int|
            0 <= y < a.len() && 0 <= i < a[y].len() ==> 9 * (#[trigger] a[y][i]) <= b[y][i],
        0 <= y0 < a.len(),
        0 <= x0 < a[y0].len(),
        9 * a[y0][x0] + 9 <= b[y0][x0],
    ensures
        9 * total(a) + 9 <= total_irows(b),
    decreases a.len(),
{
    if y0 == 0 {
        lemma_sum_nine_le_strict(a[0], b[0], x0);
        lemma_total_nine_le(a.drop_first(), b.drop_first());
    } else {
        lemma_sum_nine_le(a[0], b[0]);
        lemma_total_nine_le_strict(a.drop_first(), b.drop_first(), x0, y0 - 1);
    }
}

/// A row whose entries are all zero sums to zero.
pub proof fn lemma_sum_row_zero(s: Seq<u64>)
    requires
        forall|i: int| 0 <= i < s.len() ==> #[trigger] s[i] == 0,
    ensures
        sum_row(s) == 0,
    decreases s.len(),
{
    if s.len() != 0 {
        lemma_sum_row_zero(s.drop_first());
    }
}

/// A grid whose entries are all zero totals zero.
pub proof fn lemma_total_zero(g: Seq<Seq<u64>>)
    requires
        forall|y: int, x: int|
            0 <= y < g.len() && 0 <= x < g[y].len() ==> #[trigger] g[y][x] == 0,
    ensures
        total(g) == 0,
    decreases g.len(),
{
    if g.len() != 0 {
        lemma_sum_row_zero(g[0]);
        lemma_total_zero(g.drop_first());
    }
}

/// A row of capped cells sums to at most the cap times its length.
pub proof fn lemma_sum_row_le_cap(s: Seq<u64>)
    requires
        forall|i: int| 0 <= i < s.len() ==> #[trigger] s[i] <= INTENSITY_CAP,
    ensures
        sum_row(s) <= s.len() * INTENSITY_CAP,
    decreases s.len(),
{
    if s.len() == 0 {
    } else {
        lemma_sum_row_le_cap(s.drop_first());
        assert((s.len() - 1) * INTENSITY_CAP + INTENSITY_CAP == s.len() * INTENSITY_CAP)
            by (nonlinear_arith);
    }
}

/// A well-formed grid's total is at most the cap times its cell count.
pub proof fn lemma_total_le_cap(g: Seq<Seq<u64>>, w: int, h: int)
    requires
        grid_wf(g, w, h),
        0 <= w,
    ensures
        total(g) <= h * w * INTENSITY_CAP,
    decreases g.len(),
{
    if g.len() == 0 {
    } else {
        lemma_sum_row_le_cap(g[0]);
        assert(grid_wf(g.drop_first(), w, h - 1));
        lemma_total_le_cap(g.drop_first(), w, h - 1);
        assert((h - 1) * w * INTENSITY_CAP + w * INTENSITY_CAP == h * w * INTENSITY_CAP)
            by (nonlinear_arith);
    }
}

} // verus!
