//! The environment trail field and its diffusion/decay kernel.
//!
//! The field is a `width` by `height` grid of trail-intensity cells,
//! double-buffered like the agent population.  One environment step reads
//! the current buffer role and writes the other: every cell of the written
//! buffer is the mean of its three-by-three toroidal neighbourhood, decayed
//! by the factor `decay_num / decay_den`, plus whatever the agents
//! deposited into the cell this tick, saturating at the intensity cap.
//!
//! The decay-monotonicity law is proved here: with no deposits, one step
//! never increases the total intensity, and strictly decreases it while
//! the decay factor is below one and any intensity remains.

use vstd::prelude::*;
use vstd::arithmetic::div_mod::{
    lemma_basic_div, lemma_div_is_ordered, lemma_div_multiples_vanish,
    lemma_div_multiples_vanish_fancy, lemma_div_pos_is_pos, lemma_fundamental_div_mod,
};
use vstd::arithmetic::mul::{
    lemma_mul_basics, lemma_mul_inequality, lemma_mul_is_commutative,
    lemma_mul_is_distributive_sub, lemma_mul_nonnegative,
};
use crate::buffers::{current_role, current_role_spec, next_role, next_role_spec, Role};
use crate::grid::{
    add_igrids, grid_wf, lemma_shift_total, lemma_sum_row_nonneg, lemma_total_irows_add,
    lemma_total_le_cap, lemma_total_nine_le, lemma_total_nine_le_strict, lemma_total_nonneg,
    lemma_total_to_igrid, lemma_total_zero, rows_view, shift_grid, sum_row, to_igrid, total,
    total_irows, uniform_grid, wrap_dec, wrap_inc, zero_grid,
};
use crate::params::{INTENSITY_CAP, MAX_DIM};

verus! {

/// One cell of the environment field.
#[derive(Clone, Copy, PartialEq, Eq, Structural, Debug)]
pub struct EnvCell {
    /// Trail intensity, in fixed-point intensity units.
    pub pheromone_level: u64,
}

/// The intensities of one row of cells.
pub open spec fn row_levels(s: Seq<EnvCell>) -> Seq<u64> {
    Seq::new(s.len(), |i: int| s[i].pheromone_level)
}

/// The intensity grid held by a buffer of cell rows.
pub open spec fn rows_levels(rows: Seq<Vec<EnvCell>>) -> Seq<Seq<u64>> {
    Seq::new(rows.len(), |y: int| row_levels(rows[y]@))
}

/// The sum of the three-by-three toroidal neighbourhood of `(x, y)`.
pub open spec fn nb_sum(g: Seq<Seq<u64>>, w: int, h: int, x: int, y: int) -> int {
    g[wrap_dec(y, h)][wrap_dec(x, w)] + g[wrap_dec(y, h)][x] + g[wrap_dec(y, h)][wrap_inc(x, w)]
        + g[y][wrap_dec(x, w)] + g[y][x] + g[y][wrap_inc(x, w)] + g[wrap_inc(y, h)][wrap_dec(
        x,
        w,
    )] + g[wrap_inc(y, h)][x] + g[wrap_inc(y, h)][wrap_inc(x, w)]
}

/// `v` decayed by the factor `num / den`, rounding down.
pub open spec fn decayed(v: int, num: int, den: int) -> int {
    v * num / den
}

/// `v` saturated at `cap`.
pub open spec fn cap_at(cap: int, v: int) -> int {
    if v > cap {
        cap
    } else {
        v
    }
}

/// The intensity written to cell `(x, y)` by one environment step: the
/// decayed neighbourhood mean plus the deposit, saturated at the cap.
pub open spec fn env_step_val(
    g: Seq<Seq<u64>>,
    w: int,
    h: int,
    x: int,
    y: int,
    num: int,
    den: int,
    dep: int,
) -> int {
    cap_at(INTENSITY_CAP as int, decayed(nb_sum(g, w, h, x, y) / 9, num, den) + dep)
}

/// The whole grid written by one environment step.
pub open spec fn env_step_grid(
    g: Seq<Seq<u64>>,
    deps: Seq<Seq<u64>>,
    w: int,
    h: int,
    num: int,
    den: int,
) -> Seq<Seq<u64>> {
    Seq::new(
        h as nat,
        |y: int| Seq::new(w as nat, |x: int| env_step_val(g, w, h, x, y, num, den, deps[y][x] as int) as u64),
    )
}

/// Every cell's neighbourhood sum, as a grid of integers.
pub open spec fn nb_grid(g: Seq<Seq<u64>>, w: int, h: int) -> Seq<Seq<int>> {
    Seq::new(h as nat, |y: int| Seq::new(w as nat, |x: int| nb_sum(g, w, h, x, y)))
}

proof fn lemma_decayed_le(q: int, num: int, den: int)
    requires
        0 <= q,
        0 <= num <= den,
        0 < den,
    ensures
        0 <= decayed(q, num, den) <= q,
{
    lemma_mul_inequality(num, den, q);
    lemma_div_is_ordered(q * num, q * den, den);
    lemma_div_multiples_vanish(q, den);
    lemma_mul_nonnegative(q, num);
    lemma_div_pos_is_pos(q * num, den);
}

proof fn lemma_decayed_strict(q: int, num: int, den: int)
    requires
        1 <= q,
        0 <= num < den,
    ensures
        decayed(q, num, den) <= q - 1,
{
    lemma_mul_inequality(num, den - 1, q);
    lemma_mul_is_distributive_sub(q, den, 1);
    assert(q * num <= q * den - q);
    lemma_div_is_ordered(q * num, q * den - 1, den);
    assert(den * (q - 1) + (den - 1) == q * den - 1) by {
        lemma_mul_is_distributive_sub(den, q, 1);
        lemma_mul_basics(den);
        lemma_mul_is_commutative(den, q);
    }
    lemma_div_multiples_vanish_fancy(q - 1, den - 1, den);
}

/// The nine neighbourhood sums of a grid add up to nine times its total:
/// on the torus every cell lies in exactly nine neighbourhoods.
proof fn lemma_nb_total(g: Seq<Seq<u64>>, w: int, h: int)
    requires
        w > 0,
        h > 0,
        g.len() == h,
        forall|y: int| 0 <= y < h ==> (#[trigger] g[y]).len() == w,
    ensures
        total_irows(nb_grid(g, w, h)) == 9 * total(g),
{
    let s1 = to_igrid(shift_grid(g, w, h, -1, -1));
    let s2 = to_igrid(shift_grid(g, w, h, 0, -1));
    let s3 = to_igrid(shift_grid(g, w, h, 1, -1));
    let s4 = to_igrid(shift_grid(g, w, h, -1, 0));
    let s5 = to_igrid(shift_grid(g, w, h, 0, 0));
    let s6 = to_igrid(shift_grid(g, w, h, 1, 0));
    let s7 = to_igrid(shift_grid(g, w, h, -1, 1));
    let s8 = to_igrid(shift_grid(g, w, h, 0, 1));
    let s9 = to_igrid(shift_grid(g, w, h, 1, 1));
    let t2 = add_igrids(s1, s2);
    let t3 = add_igrids(t2, s3);
    let t4 = add_igrids(t3, s4);
    let t5 = add_igrids(t4, s5);
    let t6 = add_igrids(t5, s6);
    let t7 = add_igrids(t6, s7);
    let t8 = add_igrids(t7, s8);
    let t9 = add_igrids(t8, s9);
    assert forall|y: int, x: int| 0 <= y < h && 0 <= x < w implies nb_grid(g, w, h)[y][x]
        == t9[y][x] by {
        assert(t9[y][x] == t8[y][x] + s9[y][x]);
        assert(t8[y][x] == t7[y][x] + s8[y][x]);
        assert(t7[y][x] == t6[y][x] + s7[y][x]);
        assert(t6[y][x] == t5[y][x] + s6[y][x]);
        assert(t5[y][x] == t4[y][x] + s5[y][x]);
        assert(t4[y][x] == t3[y][x] + s4[y][x]);
        assert(t3[y][x] == t2[y][x] + s3[y][x]);
        assert(t2[y][x] == s1[y][x] + s2[y][x]);
    }
    assert(nb_grid(g, w, h) =~~= t9);
    lemma_total_irows_add(t8, s9);
    lemma_total_irows_add(t7, s8);
    lemma_total_irows_add(t6, s7);
    lemma_total_irows_add(t5, s6);
    lemma_total_irows_add(t4, s5);
    lemma_total_irows_add(t3, s4);
    lemma_total_irows_add(t2, s3);
    lemma_total_irows_add(s1, s2);
    lemma_total_to_igrid(shift_grid(g, w, h, -1, -1));
    lemma_total_to_igrid(shift_grid(g, w, h, 0, -1));
    lemma_total_to_igrid(shift_grid(g, w, h, 1, -1));
    lemma_total_to_igrid(shift_grid(g, w, h, -1, 0));
    lemma_total_to_igrid(shift_grid(g, w, h, 0, 0));
    lemma_total_to_igrid(shift_grid(g, w, h, 1, 0));
    lemma_total_to_igrid(shift_grid(g, w, h, -1, 1));
    lemma_total_to_igrid(shift_grid(g, w, h, 0, 1));
    lemma_total_to_igrid(shift_grid(g, w, h, 1, 1));
    lemma_shift_total(g, w, h, -1, -1);
    lemma_shift_total(g, w, h, 0, -1);
    lemma_shift_total(g, w, h, 1, -1);
    lemma_shift_total(g, w, h, -1, 0);
    lemma_shift_total(g, w, h, 0, 0);
    lemma_shift_total(g, w, h, 1, 0);
    lemma_shift_total(g, w, h, -1, 1);
    lemma_shift_total(g, w, h, 0, 1);
    lemma_shift_total(g, w, h, 1, 1);
}

/// Each written cell, scaled by nine, stays below the cell's neighbourhood
/// sum when nothing is deposited.
proof fn lemma_step_le_pointwise(g: Seq<Seq<u64>>, w: int, h: int, num: int, den: int)
    requires
        grid_wf(g, w, h),
        0 < w,
        0 < h,
        0 < den,
        0 <= num <= den,
    ensures
        forall|y: int, x: int|
            0 <= y < h && 0 <= x < w ==> 9 * (
            #[trigger] env_step_grid(g, zero_grid(w, h), w, h, num, den)[y][x]) <= nb_grid(
                g,
                w,
                h,
            )[y][x],
{
    let out = env_step_grid(g, zero_grid(w, h), w, h, num, den);
    assert forall|y: int, x: int| 0 <= y < h && 0 <= x < w implies 9 * (#[trigger] out[y][x])
        <= nb_grid(g, w, h)[y][x] by {
        let nb = nb_sum(g, w, h, x, y);
        let q = nb / 9;
        lemma_div_pos_is_pos(nb, 9);
        lemma_decayed_le(q, num, den);
        let v = env_step_val(g, w, h, x, y, num, den, 0);
        assert(zero_grid(w, h)[y][x] == 0);
        assert(out[y][x] == v as u64);
        assert(0 <= v <= q);
        lemma_fundamental_div_mod(nb, 9);
        assert(9 * v <= nb);
        assert(nb_grid(g, w, h)[y][x] == nb);
    }
}

/// Decay monotonicity: with agent deposits disabled, one environment step
/// never increases the total trail intensity of the field.
pub proof fn lemma_decay_monotone(g: Seq<Seq<u64>>, w: int, h: int, num: int, den: int)
    requires
        grid_wf(g, w, h),
        0 < w,
        0 < h,
        0 < den,
        0 <= num <= den,
    ensures
        total(env_step_grid(g, zero_grid(w, h), w, h, num, den)) <= total(g),
{
    let out = env_step_grid(g, zero_grid(w, h), w, h, num, den);
    let nbg = nb_grid(g, w, h);
    lemma_step_le_pointwise(g, w, h, num, den);
    lemma_total_nine_le(out, nbg);
    lemma_nb_total(g, w, h);
}

/// Strict decay: with deposits disabled, a decay factor strictly below one
/// strictly shrinks a nonzero field in one environment step.
pub proof fn lemma_decay_strict(g: Seq<Seq<u64>>, w: int, h: int, num: int, den: int)
    requires
        grid_wf(g, w, h),
        0 < w,
        0 < h,
        0 <= num < den,
        total(g) > 0,
    ensures
        total(env_step_grid(g, zero_grid(w, h), w, h, num, den)) < total(g),
{
    let out = env_step_grid(g, zero_grid(w, h), w, h, num, den);
    let nbg = nb_grid(g, w, h);
    lemma_step_le_pointwise(g, w, h, num, den);
    lemma_nb_total(g, w, h);
    if exists|y: int, x: int| 0 <= y < h && 0 <= x < w && nb_sum(g, w, h, x, y) >= 9 {
        let (y0, x0) = choose|y0: int, x0: int|
            0 <= y0 < h && 0 <= x0 < w && nb_sum(g, w, h, x0, y0) >= 9;
        let nb = nb_sum(g, w, h, x0, y0);
        let q = nb / 9;
        lemma_div_is_ordered(9, nb, 9);
        assert(q >= 1);
        lemma_decayed_strict(q, num, den);
        let v = env_step_val(g, w, h, x0, y0, num, den, 0);
        assert(zero_grid(w, h)[y0][x0] == 0);
        assert(out[y0][x0] == v as u64);
        lemma_div_pos_is_pos(nb, 9);
        lemma_decayed_le(q, num, den);
        assert(0 <= v <= q - 1);
        lemma_fundamental_div_mod(nb, 9);
        assert(9 * out[y0][x0] + 9 <= nbg[y0][x0]);
        lemma_total_nine_le_strict(out, nbg, x0, y0);
    } else {
        assert forall|y: int, x: int| 0 <= y < out.len() && 0 <= x < out[y].len() implies (
        #[trigger] out[y][x]) == 0 by {
            let nb = nb_sum(g, w, h, x, y);
            assert(!(0 <= y < h && 0 <= x < w && nb >= 9));
            assert(nb < 9);
            lemma_div_pos_is_pos(nb, 9);
            lemma_basic_div(nb, 9);
            let v = env_step_val(g, w, h, x, y, num, den, 0);
            assert(decayed(0, num, den) == 0) by {
                lemma_basic_div(0, den);
            }
            assert(zero_grid(w, h)[y][x] == 0);
            assert(out[y][x] == v as u64);
        }
        lemma_total_zero(out);
    }
}

/// One environment step writes a well-formed grid: the saturating combine
/// keeps every cell within the cap.
pub proof fn lemma_env_step_grid_wf(
    g: Seq<Seq<u64>>,
    deps: Seq<Seq<u64>>,
    w: int,
    h: int,
    num: int,
    den: int,
)
    requires
        grid_wf(g, w, h),
        0 < w,
        0 < h,
        0 < den,
        0 <= num <= den,
    ensures
        grid_wf(env_step_grid(g, deps, w, h, num, den), w, h),
{
    let out = env_step_grid(g, deps, w, h, num, den);
    assert forall|y: int, x: int| 0 <= y < h && 0 <= x < w implies #[trigger] out[y][x]
        <= INTENSITY_CAP by {
        let nb = nb_sum(g, w, h, x, y);
        let q = nb / 9;
        lemma_div_pos_is_pos(nb, 9);
        lemma_decayed_le(q, num, den);
        let v = env_step_val(g, w, h, x, y, num, den, deps[y][x] as int);
        assert(0 <= v <= INTENSITY_CAP as int);
        assert(out[y][x] == v as u64);
    }
}

/// The double-buffered environment field.
pub struct EnvField {
    /// Field width in cells.
    pub width: u32,
    /// Field height in cells.
    pub height: u32,
    /// The forward buffer: read on even ticks, written on odd ticks.
    pub fwd: Vec<Vec<EnvCell>>,
    /// The reverse buffer: written on even ticks, read on odd ticks.
    pub rev: Vec<Vec<EnvCell>>,
}

impl EnvField {
    /// The intensity grid held by the buffer with role `r`.
    pub open spec fn buf_levels(self, r: Role) -> Seq<Seq<u64>> {
        match r {
            Role::Forward => rows_levels(self.fwd@),
            Role::Reverse => rows_levels(self.rev@),
        }
    }

    /// Well-formed field: nonzero dimensions within bounds and two grids of
    /// exactly that shape, every cell within the intensity cap.
    pub open spec fn wf(self) -> bool {
        &&& 0 < self.width <= MAX_DIM
        &&& 0 < self.height <= MAX_DIM
        &&& grid_wf(self.buf_levels(Role::Forward), self.width as int, self.height as int)
        &&& grid_wf(self.buf_levels(Role::Reverse), self.width as int, self.height as int)
    }

    /// One buffer of rows, every cell at `level`.
    #[verifier::loop_isolation(false)]
    fn uniform_rows(width: u32, height: u32, level: u64) -> (rows: Vec<Vec<EnvCell>>)
        requires
            0 < width,
            0 < height,
        ensures
            rows_levels(rows@) == uniform_grid(width as int, height as int, level),
    {
        let w = width as usize;
        let h = height as usize;
        let mut rows: Vec<Vec<EnvCell>> = Vec::new();
        let mut y: usize = 0;
        while y < h
            invariant
                y <= h,
                rows@.len() == y,
                forall|yy: int|
                    0 <= yy < y ==> row_levels(#[trigger] rows@[yy]@) == uniform_grid(
                        width as int,
                        height as int,
                        level,
                    )[yy],
            decreases h - y,
        {
            let mut row: Vec<EnvCell> = Vec::new();
            let mut x: usize = 0;
            while x < w
                invariant
                    x <= w,
                    row@.len() == x,
                    forall|xx: int|
                        0 <= xx < x ==> (#[trigger] row@[xx]).pheromone_level == level,
                decreases w - x,
            {
                row.push(EnvCell { pheromone_level: level });
                x = x + 1;
            }
            proof {
                assert(row_levels(row@) =~= uniform_grid(width as int, height as int, level)[
                    y as int]);
            }
            rows.push(row);
            y = y + 1;
        }
        proof {
            assert(rows_levels(rows@) =~~= uniform_grid(width as int, height as int, level));
        }
        rows
    }

    /// A field whose every cell of both buffer roles holds `level`.
    pub fn uniform(width: u32, height: u32, level: u64) -> (field: EnvField)
        requires
            0 < width <= MAX_DIM,
            0 < height <= MAX_DIM,
            level <= INTENSITY_CAP,
        ensures
            field.wf(),
            field.width == width,
            field.height == height,
            field.buf_levels(Role::Forward) == uniform_grid(width as int, height as int, level),
            field.buf_levels(Role::Reverse) == uniform_grid(width as int, height as int, level),
    {
        let fwd = Self::uniform_rows(width, height, level);
        let rev = Self::uniform_rows(width, height, level);
        EnvField { width, height, fwd, rev }
    }

    /// A zero-filled field: both buffer roles start with no trail at all.
    pub fn initialize(width: u32, height: u32) -> (field: EnvField)
        requires
            0 < width <= MAX_DIM,
            0 < height <= MAX_DIM,
        ensures
            field.wf(),
            field.width == width,
            field.height == height,
            field.buf_levels(Role::Forward) == zero_grid(width as int, height as int),
            field.buf_levels(Role::Reverse) == zero_grid(width as int, height as int),
    {
        Self::uniform(width, height, 0)
    }

    /// The buffer role read during `tick`, by the shared parity rule.
    pub fn current_buffer(&self, tick: u64) -> (r: Role)
        ensures
            r == current_role_spec(tick),
    {
        current_role(tick)
    }

    /// The buffer role written during `tick`, by the shared parity rule.
    pub fn next_buffer(&self, tick: u64) -> (r: Role)
        ensures
            r == next_role_spec(tick),
    {
        next_role(tick)
    }

    /// Borrow the rows of the buffer with role `r`.
    pub fn buf(&self, r: Role) -> (rows: &Vec<Vec<EnvCell>>)
        ensures
            rows_levels(rows@) == self.buf_levels(r),
    {
        match r {
            Role::Forward => &self.fwd,
            Role::Reverse => &self.rev,
        }
    }

    /// Replace the rows of the buffer with role `r`.
    pub fn set_buf(&mut self, r: Role, rows: Vec<Vec<EnvCell>>)
        ensures
            final(self).buf_levels(r) == rows_levels(rows@),
            final(self).buf_levels(if r == Role::Forward {
                Role::Reverse
            } else {
                Role::Forward
            }) == old(self).buf_levels(
                if r == Role::Forward {
                    Role::Reverse
                } else {
                    Role::Forward
                },
            ),
            final(self).width == old(self).width,
            final(self).height == old(self).height,
    {
        match r {
            Role::Forward => {
                self.fwd = rows;
            },
            Role::Reverse => {
                self.rev = rows;
            },
        }
    }

    /// The total intensity held by the buffer with role `r`.
    #[verifier::loop_isolation(false)]
    pub fn total_intensity(&self, r: Role) -> (t: u128)
        requires
            self.wf(),
        ensures
            t as int == total(self.buf_levels(r)),
    {
        let g = Ghost(self.buf_levels(r));
        let rows = self.buf(r);
        let h = rows.len();
        proof {
            lemma_total_le_cap(g@, self.width as int, self.height as int);
            lemma_total_nonneg(g@);
        }
        let mut acc: u128 = 0;
        let mut y: usize = 0;
        proof {
            assert(g@.skip(0) =~= g@);
        }
        while y < h
            invariant
                y <= h,
                g@ == self.buf_levels(r),
                grid_wf(g@, self.width as int, self.height as int),
                rows_levels(rows@) == g@,
                h == g@.len(),
                acc as int + total(g@.skip(y as int)) == total(g@),
                acc as int <= total(g@),
                total(g@) <= (self.height as int) * (self.width as int) * (INTENSITY_CAP as int),
            decreases h - y,
        {
            let row = &rows[y];
            let w = row.len();
            proof {
                assert(row_levels(row@) == g@[y as int]);
                assert(g@.skip(y as int)[0] == g@[y as int]);
                assert(g@.skip(y as int).drop_first() =~= g@.skip(y as int + 1));
                lemma_total_nonneg(g@.skip(y as int + 1));
                lemma_sum_row_nonneg(g@[y as int]);
                assert(g@[y as int].skip(0) =~= g@[y as int]);
            }
            let mut x: usize = 0;
            while x < w
                invariant
                    x <= w,
                    g@ == self.buf_levels(r),
                    grid_wf(g@, self.width as int, self.height as int),
                    rows_levels(rows@) == g@,
                    h == g@.len(),
                    y < h,
                    row == rows@[y as int],
                    w == row@.len(),
                    row_levels(row@) == g@[y as int],
                    acc as int + sum_row(g@[y as int].skip(x as int)) + total(
                        g@.skip(y as int + 1),
                    ) == total(g@),
                    total(g@) <= (self.height as int) * (self.width as int) * (
                    INTENSITY_CAP as int),
                    acc as int + sum_row(g@[y as int].skip(x as int)) <= total(g@),
                decreases w - x,
            {
                proof {
                    assert(g@[y as int].skip(x as int)[0] == g@[y as int][x as int]);
                    assert(g@[y as int].skip(x as int).drop_first() =~= g@[y as int].skip(
                        x as int + 1,
                    ));
                    lemma_sum_row_nonneg(g@[y as int].skip(x as int + 1));
                    lemma_total_nonneg(g@.skip(y as int + 1));
                    assert((self.height as int) * (self.width as int) * (INTENSITY_CAP as int)
                        <= 0xFFFF_FFFF_FFFF_FFFF) by (nonlinear_arith)
                        requires
                            self.height <= 65535,
                            self.width <= 65535,
                            0 <= self.height,
                            0 <= self.width,
                    ;
                }
                acc = acc + row[x].pheromone_level as u128;
                x = x + 1;
            }
            proof {
                assert(g@[y as int].skip(w as int) =~= Seq::<u64>::empty());
            }
            y = y + 1;
        }
        proof {
            assert(g@.skip(h as int) =~= Seq::<Seq<u64>>::empty());
        }
        acc
    }
}

/// One run of the environment kernel: read the current grid and this
/// tick's deposits, write the diffused, decayed, deposited grid.
#[verifier::loop_isolation(false)]
pub fn env_kernel(
    read: &Vec<Vec<EnvCell>>,
    deposits: &Vec<Vec<u64>>,
    width: u32,
    height: u32,
    decay_num: u64,
    decay_den: u64,
) -> (out: Vec<Vec<EnvCell>>)
    requires
        0 < width <= MAX_DIM,
        0 < height <= MAX_DIM,
        grid_wf(rows_levels(read@), width as int, height as int),
        grid_wf(rows_view(deposits@), width as int, height as int),
        0 < decay_den <= 0xFFFF_FFFF,
        decay_num <= decay_den,
    ensures
        rows_levels(out@) == env_step_grid(
            rows_levels(read@),
            rows_view(deposits@),
            width as int,
            height as int,
            decay_num as int,
            decay_den as int,
        ),
{
    let g: Ghost<Seq<Seq<u64>>> = Ghost(rows_levels(read@));
    let target: Ghost<Seq<Seq<u64>>> = Ghost(
        env_step_grid(
            g@,
            rows_view(deposits@),
            width as int,
            height as int,
            decay_num as int,
            decay_den as int,
        ),
    );
    let w = width as usize;
    let h = height as usize;
    let mut out: Vec<Vec<EnvCell>> = Vec::new();
    let mut y: usize = 0;
    while y < h
        invariant
            y <= h,
            out@.len() == y,
            forall|yy: int| 0 <= yy < y ==> row_levels(#[trigger] out@[yy]@) == target@[yy],
        decreases h - y,
    {
        let ym = if y == 0 {
            h - 1
        } else {
            y - 1
        };
        let yp = if y + 1 == h {
            0
        } else {
            y + 1
        };
        let mut row: Vec<EnvCell> = Vec::new();
        let mut x: usize = 0;
        while x < w
            invariant
                x <= w,
                row@.len() == x,
                ym as int == wrap_dec(y as int, h as int),
                yp as int == wrap_inc(y as int, h as int),
                y < h,
                forall|xx: int|
                    0 <= xx < x ==> (#[trigger] row@[xx]).pheromone_level == target@[y as int][xx],
            decreases w - x,
        {
            let xm = if x == 0 {
                w - 1
            } else {
                x - 1
            };
            let xp = if x + 1 == w {
                0
            } else {
                x + 1
            };
            proof {
                assert(xm as int == wrap_dec(x as int, w as int));
                assert(xp as int == wrap_inc(x as int, w as int));
            }
            proof {
                assert(rows_levels(read@).len() == height as int);
                assert(rows_levels(read@)[ym as int].len() == width as int);
                assert(rows_levels(read@)[y as int].len() == width as int);
                assert(rows_levels(read@)[yp as int].len() == width as int);
                assert(read@[ym as int]@.len() == w);
                assert(read@[y as int]@.len() == w);
                assert(read@[yp as int]@.len() == w);
                assert(rows_view(deposits@).len() == height as int);
                assert(rows_view(deposits@)[y as int].len() == width as int);
                assert(deposits@[y as int]@.len() == w);
            }
            let c1 = read[ym][xm].pheromone_level;
            let c2 = read[ym][x].pheromone_level;
            let c3 = read[ym][xp].pheromone_level;
            let c4 = read[y][xm].pheromone_level;
            let c5 = read[y][x].pheromone_level;
            let c6 = read[y][xp].pheromone_level;
            let c7 = read[yp][xm].pheromone_level;
            let c8 = read[yp][x].pheromone_level;
            let c9 = read[yp][xp].pheromone_level;
            proof {
                assert(c1 == g@[ym as int][xm as int]);
                assert(c2 == g@[ym as int][x as int]);
                assert(c3 == g@[ym as int][xp as int]);
                assert(c4 == g@[y as int][xm as int]);
                assert(c5 == g@[y as int][x as int]);
                assert(c6 == g@[y as int][xp as int]);
                assert(c7 == g@[yp as int][xm as int]);
                assert(c8 == g@[yp as int][x as int]);
                assert(c9 == g@[yp as int][xp as int]);
            }
            let nb = c1 + c2 + c3 + c4 + c5 + c6 + c7 + c8 + c9;
            proof {
                assert(nb as int == nb_sum(g@, w as int, h as int, x as int, y as int));
            }
            let q = nb / 9;
            proof {
                assert(nb as int <= 9 * (INTENSITY_CAP as int));
                lemma_div_is_ordered(nb as int, 9 * (INTENSITY_CAP as int), 9);
                assert(q <= INTENSITY_CAP);
                assert(q as int * decay_num as int <= (INTENSITY_CAP as int) * (
                INTENSITY_CAP as int)) by {
                    lemma_mul_inequality(q as int, INTENSITY_CAP as int, decay_num as int);
                    lemma_mul_inequality(decay_num as int, INTENSITY_CAP as int,
                        INTENSITY_CAP as int);
                    lemma_mul_is_commutative(q as int, decay_num as int);
                    lemma_mul_is_commutative(decay_num as int, INTENSITY_CAP as int);
                }
                lemma_mul_nonnegative(q as int, decay_num as int);
            }
            let dcy = (q * decay_num) / decay_den;
            proof {
                lemma_decayed_le(q as int, decay_num as int, decay_den as int);
                assert(dcy as int == decayed(q as int, decay_num as int, decay_den as int));
                assert(dcy <= q);
            }
            let dep = deposits[y][x];
            proof {
                assert(dep == rows_view(deposits@)[y as int][x as int]);
                assert(dep <= INTENSITY_CAP);
            }
            let raw = dcy + dep;
            let val = if raw > INTENSITY_CAP {
                INTENSITY_CAP
            } else {
                raw
            };
            proof {
                assert(val as int == env_step_val(
                    g@,
                    w as int,
                    h as int,
                    x as int,
                    y as int,
                    decay_num as int,
                    decay_den as int,
                    dep as int,
                ));
                assert(target@[y as int][x as int] == val);
            }
            row.push(EnvCell { pheromone_level: val });
            x = x + 1;
        }
        proof {
            assert(row_levels(row@) =~= target@[y as int]);
        }
        out.push(row);
        y = y + 1;
    }
    proof {
        assert(rows_levels(out@) =~~= target@);
    }
    out
}

} // verus!
