//! The agent population and its update kernel.
//!
//! An agent is a point on the toroidal field with a fixed-point heading.
//! The population is seeded once, with random positions and headings, and
//! its size never changes afterwards; the store keeps the population in
//! two buffers selected by tick parity, like the environment field.
//!
//! Per tick the agent kernel maps every agent independently through one
//! policy step: sense the trail at three octant directions ahead, turn
//! toward the strongest signal by at most the turn speed, move one step
//! forward with wrap-around, and deposit intensity into the cell landed
//! on.  Deposits from several agents into one cell combine by saturating
//! addition, so the written deposit grid depends only on how many agents
//! share a cell, never on the order they are processed in.

use vstd::prelude::*;
use vstd::arithmetic::mul::{
    lemma_mul_basics, lemma_mul_is_distributive_add, lemma_mul_nonnegative,
};
use crate::buffers::{current_role, current_role_spec, next_role, next_role_spec, Role};
use crate::environment::{cap_at, rows_levels, EnvCell};
use crate::grid::{grid_wf, rows_view};
use crate::params::{Params, ANGLE_MOD, INTENSITY_CAP, MAX_DIM, OCTANT_WIDTH};
use crate::rng::sample_inclusive;

verus! {

/// The population size the simulation starts with by default.
pub const NUM_AGENTS: usize = 10_000;

/// One agent: a cell position, a heading, and a reserved per-agent turn
/// rate carried through unchanged by the kernel.
#[derive(Clone, Copy, PartialEq, Eq, Structural, Debug)]
pub struct Agent {
    /// Cell column, `0 .. width`.
    pub x: u32,
    /// Cell row, `0 .. height`.
    pub y: u32,
    /// Heading in heading units, `0 .. ANGLE_MOD`.
    pub angle: u32,
    /// Reserved per-agent turn rate, in heading units.
    pub turn_speed: u32,
}

/// An agent within a `w` by `h` field, with a heading below a full turn.
pub open spec fn agent_wf(a: Agent, w: int, h: int) -> bool {
    &&& a.x < w
    &&& a.y < h
    &&& a.angle < ANGLE_MOD
}

/// Every agent of a population within the field.
pub open spec fn agents_wf(s: Seq<Agent>, w: int, h: int) -> bool {
    forall|i: int| 0 <= i < s.len() ==> agent_wf(#[trigger] s[i], w, h)
}

/// The movement octant of a heading: one eighth of a turn each.
pub open spec fn octant(angle: u32) -> int {
    angle as int / (OCTANT_WIDTH as int)
}

/// Column component of an octant's unit direction.
pub open spec fn dir_dx(o: int) -> int {
    if o == 0 || o == 1 || o == 7 {
        1
    } else if o == 2 || o == 6 {
        0
    } else {
        -1
    }
}

/// Row component of an octant's unit direction.
pub open spec fn dir_dy(o: int) -> int {
    if o == 1 || o == 2 || o == 3 {
        1
    } else if o == 0 || o == 4 {
        0
    } else {
        -1
    }
}

/// `pos` moved `dist` cells along direction `dir` on a wrapping axis of
/// extent `n`.
pub open spec fn wrap_shift(pos: int, dir: int, dist: int, n: int) -> int {
    let eff = dist % n;
    if dir > 0 {
        if pos + eff >= n {
            pos + eff - n
        } else {
            pos + eff
        }
    } else if dir < 0 {
        if pos >= eff {
            pos - eff
        } else {
            pos + n - eff
        }
    } else {
        pos
    }
}

/// The trail intensity an agent at `(ax, ay)` senses `off` cells away in
/// the direction of octant `o`.
pub open spec fn sensed(
    g: Seq<Seq<u64>>,
    w: int,
    h: int,
    ax: int,
    ay: int,
    o: int,
    off: int,
) -> u64 {
    g[wrap_shift(ay, dir_dy(o), off, h)][wrap_shift(ax, dir_dx(o), off, w)]
}

/// The heading after one sensing step: keep it while the centre sensor is
/// strongest, otherwise turn by the turn speed toward the stronger side.
pub open spec fn turned_angle(a: Agent, g: Seq<Seq<u64>>, w: int, h: int, p: Params) -> u32 {
    let off = p.agent_compute_params.sensor_offset as int;
    let turn = p.agent_compute_params.turn_speed as int;
    let o = octant(a.angle);
    let c = sensed(g, w, h, a.x as int, a.y as int, o, off);
    let l = sensed(g, w, h, a.x as int, a.y as int, (o + 1) % 8, off);
    let r = sensed(g, w, h, a.x as int, a.y as int, (o + 7) % 8, off);
    if c >= l && c >= r {
        a.angle
    } else if l > r {
        ((a.angle as int + turn) % (ANGLE_MOD as int)) as u32
    } else if r > l {
        ((a.angle as int + ANGLE_MOD as int - turn) % (ANGLE_MOD as int)) as u32
    } else {
        a.angle
    }
}

/// One policy step of a single agent: turn, then move one wrapped step in
/// the new heading's octant.
pub open spec fn step_agent(a: Agent, g: Seq<Seq<u64>>, w: int, h: int, p: Params) -> Agent {
    let ang = turned_angle(a, g, w, h, p);
    let o = octant(ang);
    let step = p.agent_compute_params.step_size as int;
    Agent {
        x: wrap_shift(a.x as int, dir_dx(o), step, w) as u32,
        y: wrap_shift(a.y as int, dir_dy(o), step, h) as u32,
        angle: ang,
        turn_speed: a.turn_speed,
    }
}

/// The whole population after one kernel run over the read buffer `s`.
pub open spec fn stepped_agents(s: Seq<Agent>, g: Seq<Seq<u64>>, w: int, h: int, p: Params) -> Seq<
    Agent,
> {
    Seq::new(s.len(), |i: int| step_agent(s[i], g, w, h, p))
}

/// How many agents of `s` occupy cell `(x, y)`.  This is a property of
/// the population as a multiset: it never depends on processing order.
pub open spec fn deposit_count(s: Seq<Agent>, x: int, y: int) -> int
    decreases s.len(),
{
    if s.len() == 0 {
        0
    } else {
        deposit_count(s.drop_last(), x, y) + if s.last().x == x && s.last().y == y {
            1int
        } else {
            0int
        }
    }
}

/// The deposit grid a population writes: `dep` intensity per agent in the
/// cell, combined by saturating addition at the cap.
pub open spec fn deposit_grid_spec(s: Seq<Agent>, w: int, h: int, dep: int) -> Seq<Seq<u64>> {
    Seq::new(
        h as nat,
        |y: int| Seq::new(w as nat, |x: int| cap_at(INTENSITY_CAP as int, dep * deposit_count(s, x, y)) as u64),
    )
}

/// The agent texture: which cells hold at least one agent.  Cleared and
/// redrawn from scratch every tick.
pub open spec fn texture_spec(s: Seq<Agent>, w: int, h: int) -> Seq<Seq<bool>> {
    Seq::new(h as nat, |y: int| Seq::new(w as nat, |x: int| deposit_count(s, x, y) > 0))
}

proof fn lemma_deposit_count_nonneg(s: Seq<Agent>, x: int, y: int)
    ensures
        deposit_count(s, x, y) >= 0,
    decreases s.len(),
{
    if s.len() != 0 {
        lemma_deposit_count_nonneg(s.drop_last(), x, y);
    }
}

/// Removing one agent lowers exactly that agent's cell count by one,
/// wherever in the order it stood.
proof fn lemma_deposit_count_remove(s: Seq<Agent>, i: int, x: int, y: int)
    requires
        0 <= i < s.len(),
    ensures
        deposit_count(s, x, y) == deposit_count(s.remove(i), x, y) + if s[i].x == x && s[i].y
            == y {
            1int
        } else {
            0int
        },
    decreases s.len(),
{
    if i == s.len() - 1 {
        assert(s.remove(i) =~= s.drop_last());
    } else {
        lemma_deposit_count_remove(s.drop_last(), i, x, y);
        assert(s.remove(i).drop_last() =~= s.drop_last().remove(i));
        assert(s.remove(i).last() == s.last());
    }
}

/// The per-cell count is a function of the population as a multiset
/// alone: any two orderings of the same agents count alike.
proof fn lemma_deposit_count_permutation(s1: Seq<Agent>, s2: Seq<Agent>, x: int, y: int)
    requires
        s1.to_multiset() == s2.to_multiset(),
    ensures
        deposit_count(s1, x, y) == deposit_count(s2, x, y),
    decreases s2.len(),
{
    broadcast use vstd::seq_lib::group_to_multiset_ensures;

    if s2.len() == 0 {
        assert(s1.len() == s1.to_multiset().len());
    } else {
        let a = s2.last();
        let last = s2.len() - 1;
        assert(s2.contains(a));
        assert(s1.to_multiset().count(a) > 0);
        assert(s1.contains(a));
        let i = choose|i: int| 0 <= i < s1.len() && s1[i] == a;
        assert(s1.remove(i).to_multiset() =~= s1.to_multiset().remove(a));
        assert(s2.remove(last).to_multiset() =~= s2.to_multiset().remove(a));
        assert(s2.remove(last) =~= s2.drop_last());
        lemma_deposit_count_permutation(s1.remove(i), s2.drop_last(), x, y);
        lemma_deposit_count_remove(s1, i, x, y);
    }
}

/// Order independence of the written grids: concurrent deposits combine
/// by a commutative, saturating rule, so any two processing orders of one
/// population write the same deposit grid and the same texture.  No
/// ordering among kernel invocations is observable in the output.
pub proof fn lemma_deposits_order_independent(
    s1: Seq<Agent>,
    s2: Seq<Agent>,
    w: int,
    h: int,
    dep: int,
)
    requires
        s1.to_multiset() == s2.to_multiset(),
    ensures
        deposit_grid_spec(s1, w, h, dep) == deposit_grid_spec(s2, w, h, dep),
        texture_spec(s1, w, h) == texture_spec(s2, w, h),
{
    let d1 = deposit_grid_spec(s1, w, h, dep);
    let d2 = deposit_grid_spec(s2, w, h, dep);
    assert forall|y: int| 0 <= y < d1.len() implies d1[y] == d2[y] by {
        assert forall|x: int| 0 <= x < d1[y].len() implies d1[y][x] == d2[y][x] by {
            lemma_deposit_count_permutation(s1, s2, x, y);
        }
        assert(d1[y] =~= d2[y]);
    }
    assert(d1 =~= d2);
    let t1 = texture_spec(s1, w, h);
    let t2 = texture_spec(s2, w, h);
    assert forall|y: int| 0 <= y < t1.len() implies t1[y] == t2[y] by {
        assert forall|x: int| 0 <= x < t1[y].len() implies t1[y][x] == t2[y][x] by {
            lemma_deposit_count_permutation(s1, s2, x, y);
        }
        assert(t1[y] =~= t2[y]);
    }
    assert(t1 =~= t2);
}

/// Extending a population by one agent raises exactly that agent's cell
/// count by one.
proof fn lemma_deposit_count_extend(s: Seq<Agent>, i: int, x: int, y: int)
    requires
        0 <= i < s.len(),
    ensures
        deposit_count(s.take(i + 1), x, y) == deposit_count(s.take(i), x, y) + if s[i].x == x
            && s[i].y == y {
            1int
        } else {
            0int
        },
{
    assert(s.take(i + 1).drop_last() =~= s.take(i));
    assert(s.take(i + 1).last() == s[i]);
}

/// `pos` moved `dist` cells along `dir` on a wrapping axis of extent `n`.
fn shift_pos(pos: u32, dir: i32, dist: u32, n: u32) -> (r: u32)
    requires
        0 < n <= MAX_DIM,
        pos < n,
        -1 <= dir <= 1,
    ensures
        r as int == wrap_shift(pos as int, dir as int, dist as int, n as int),
        r < n,
{
    let eff = dist % n;
    if dir > 0 {
        if pos + eff >= n {
            pos + eff - n
        } else {
            pos + eff
        }
    } else if dir < 0 {
        if pos >= eff {
            pos - eff
        } else {
            pos + n - eff
        }
    } else {
        pos
    }
}

/// The unit direction of octant `o`.
fn octant_dir(o: u32) -> (d: (i32, i32))
    requires
        o < 8,
    ensures
        d.0 as int == dir_dx(o as int),
        d.1 as int == dir_dy(o as int),
{
    if o == 0 {
        (1, 0)
    } else if o == 1 {
        (1, 1)
    } else if o == 2 {
        (0, 1)
    } else if o == 3 {
        (-1, 1)
    } else if o == 4 {
        (-1, 0)
    } else if o == 5 {
        (-1, -1)
    } else if o == 6 {
        (0, -1)
    } else {
        (1, -1)
    }
}

/// One executable policy step of a single agent.
fn step_one(a: Agent, env_read: &Vec<Vec<EnvCell>>, p: &Params) -> (b: Agent)
    requires
        p.valid(),
        grid_wf(rows_levels(env_read@), p.width_spec() as int, p.height_spec() as int),
        agent_wf(a, p.width_spec() as int, p.height_spec() as int),
    ensures
        b == step_agent(
            a,
            rows_levels(env_read@),
            p.width_spec() as int,
            p.height_spec() as int,
            *p,
        ),
        agent_wf(b, p.width_spec() as int, p.height_spec() as int),
{
    let g: Ghost<Seq<Seq<u64>>> = Ghost(rows_levels(env_read@));
    let width = p.width();
    let height = p.height();
    let off = p.agent_compute_params.sensor_offset;
    let turn = p.agent_compute_params.turn_speed;
    let o = a.angle / OCTANT_WIDTH;
    let ol = (o + 1) % 8;
    let orr = (o + 7) % 8;
    proof {
        assert(o as int == octant(a.angle));
        assert(ol as int == (octant(a.angle) + 1) % 8);
        assert(orr as int == (octant(a.angle) + 7) % 8);
        assert(rows_levels(env_read@).len() == height as int);
    }
    let c = sense(a, env_read, width, height, o, off);
    let l = sense(a, env_read, width, height, ol, off);
    let r = sense(a, env_read, width, height, orr, off);
    let ang = if c >= l && c >= r {
        a.angle
    } else if l > r {
        (a.angle + turn) % ANGLE_MOD
    } else if r > l {
        (a.angle + ANGLE_MOD - turn) % ANGLE_MOD
    } else {
        a.angle
    };
    proof {
        assert(ang == turned_angle(a, g@, width as int, height as int, *p));
        assert(ang < ANGLE_MOD);
    }
    let o2 = ang / OCTANT_WIDTH;
    let (dx, dy) = octant_dir(o2);
    let step = p.agent_compute_params.step_size;
    let nx = shift_pos(a.x, dx, step, width);
    let ny = shift_pos(a.y, dy, step, height);
    Agent { x: nx, y: ny, angle: ang, turn_speed: a.turn_speed }
}

/// Read the trail under one sensor of agent `a` in octant `o`.
fn sense(a: Agent, env_read: &Vec<Vec<EnvCell>>, width: u32, height: u32, o: u32, off: u32) -> (v:
    u64)
    requires
        0 < width <= MAX_DIM,
        0 < height <= MAX_DIM,
        grid_wf(rows_levels(env_read@), width as int, height as int),
        agent_wf(a, width as int, height as int),
        o < 8,
    ensures
        v == sensed(
            rows_levels(env_read@),
            width as int,
            height as int,
            a.x as int,
            a.y as int,
            o as int,
            off as int,
        ),
{
    let (dx, dy) = octant_dir(o);
    let sx = shift_pos(a.x, dx, off, width);
    let sy = shift_pos(a.y, dy, off, height);
    proof {
        assert(rows_levels(env_read@).len() == height as int);
        assert(rows_levels(env_read@)[sy as int].len() == width as int);
        assert(env_read@[sy as int]@.len() == width as int);
    }
    env_read[sy as usize][sx as usize].pheromone_level
}

/// One run of the agent kernel: map the whole read buffer through the
/// policy step.  The output population has exactly the same size.
#[verifier::loop_isolation(false)]
pub fn agent_kernel(read: &Vec<Agent>, env_read: &Vec<Vec<EnvCell>>, p: &Params) -> (out: Vec<
    Agent,
>)
    requires
        p.valid(),
        grid_wf(rows_levels(env_read@), p.width_spec() as int, p.height_spec() as int),
        agents_wf(read@, p.width_spec() as int, p.height_spec() as int),
    ensures
        out@ == stepped_agents(
            read@,
            rows_levels(env_read@),
            p.width_spec() as int,
            p.height_spec() as int,
            *p,
        ),
        out@.len() == read@.len(),
        agents_wf(out@, p.width_spec() as int, p.height_spec() as int),
{
    let g: Ghost<Seq<Seq<u64>>> = Ghost(rows_levels(env_read@));
    let n = read.len();
    let mut out: Vec<Agent> = Vec::new();
    let mut i: usize = 0;
    while i < n
        invariant
            i <= n,
            out@.len() == i,
            forall|j: int|
                0 <= j < i ==> #[trigger] out@[j] == step_agent(
                    read@[j],
                    g@,
                    p.width_spec() as int,
                    p.height_spec() as int,
                    *p,
                ),
            forall|j: int|
                0 <= j < i ==> agent_wf(
                    #[trigger] out@[j],
                    p.width_spec() as int,
                    p.height_spec() as int,
                ),
        decreases n - i,
    {
        let b = step_one(read[i], env_read, p);
        out.push(b);
        i = i + 1;
    }
    proof {
        assert(out@ =~= stepped_agents(
            read@,
            g@,
            p.width_spec() as int,
            p.height_spec() as int,
            *p,
        ));
    }
    out
}

/// A `width` by `height` buffer of rows, every entry `v`.
#[verifier::loop_isolation(false)]
fn filled_rows<T: Copy>(width: u32, height: u32, v: T) -> (rows: Vec<Vec<T>>)
    requires
        0 < width,
        0 < height,
    ensures
        rows_view(rows@) == Seq::new(
            height as nat,
            |y: int| Seq::new(width as nat, |x: int| v),
        ),
{
    let w = width as usize;
    let h = height as usize;
    let mut rows: Vec<Vec<T>> = Vec::new();
    let mut y: usize = 0;
    while y < h
        invariant
            y <= h,
            rows@.len() == y,
            forall|yy: int|
                0 <= yy < y ==> #[trigger] rows@[yy]@ == Seq::new(width as nat, |x: int| v),
        decreases h - y,
    {
        let mut row: Vec<T> = Vec::new();
        let mut x: usize = 0;
        while x < w
            invariant
                x <= w,
                row@.len() == x,
                forall|xx: int| 0 <= xx < x ==> #[trigger] row@[xx] == v,
            decreases w - x,
        {
            row.push(v);
            x = x + 1;
        }
        proof {
            assert(row@ =~= Seq::new(width as nat, |x: int| v));
        }
        rows.push(row);
        y = y + 1;
    }
    proof {
        assert(rows_view(rows@) =~~= Seq::new(
            height as nat,
            |y: int| Seq::new(width as nat, |x: int| v),
        ));
    }
    rows
}

/// Accumulate this tick's deposit grid from the written population.  Each
/// agent adds `dep` to its cell, saturating at the cap, so the result is
/// exactly the per-cell count times `dep`, capped — independent of the
/// order the agents are walked in.
#[verifier::loop_isolation(false)]
pub fn deposit_grid(agents: &Vec<Agent>, width: u32, height: u32, dep: u64) -> (d: Vec<Vec<u64>>)
    requires
        0 < width <= MAX_DIM,
        0 < height <= MAX_DIM,
        agents_wf(agents@, width as int, height as int),
        dep <= INTENSITY_CAP,
    ensures
        rows_view(d@) == deposit_grid_spec(agents@, width as int, height as int, dep as int),
{
    let s: Ghost<Seq<Agent>> = Ghost(agents@);
    let mut d: Vec<Vec<u64>> = filled_rows(width, height, 0u64);
    proof {
        assert(rows_view(d@).len() == d@.len());
        assert forall|y: int| 0 <= y < height as int implies (#[trigger] d@[y]@).len()
            == width as int by {
            assert(rows_view(d@)[y] == d@[y]@);
        }
        assert forall|y: int, x: int| 0 <= y < height as int && 0 <= x < width as int implies
            #[trigger] rows_view(d@)[y][x] as int == cap_at(
            INTENSITY_CAP as int,
            dep as int * deposit_count(s@.take(0), x, y),
        ) by {
            assert(s@.take(0) =~= Seq::<Agent>::empty());
            assert(deposit_count(s@.take(0), x, y) == 0);
            lemma_mul_basics(dep as int);
        }
    }
    let n = agents.len();
    let mut i: usize = 0;
    while i < n
        invariant
            i <= n,
            d@.len() == height as int,
            forall|y: int| 0 <= y < height as int ==> (#[trigger] d@[y]@).len() == width as int,
            forall|y: int, x: int|
                0 <= y < height as int && 0 <= x < width as int ==> #[trigger] rows_view(
                    d@,
                )[y][x] as int == cap_at(
                    INTENSITY_CAP as int,
                    dep as int * deposit_count(s@.take(i as int), x, y),
                ),
        decreases n - i,
    {
        let a = agents[i];
        let ax = a.x as usize;
        let ay = a.y as usize;
        let cur = d[ay][ax];
        proof {
            assert(agent_wf(s@[i as int], width as int, height as int));
            assert(cur == rows_view(d@)[ay as int][ax as int]);
            lemma_deposit_count_nonneg(s@.take(i as int), ax as int, ay as int);
            lemma_mul_nonnegative(dep as int, deposit_count(s@.take(i as int), ax as int, ay as int));
            assert(cur <= INTENSITY_CAP);
        }
        let nv = if cur > INTENSITY_CAP - dep {
            INTENSITY_CAP
        } else {
            cur + dep
        };
        let prev: Ghost<Seq<Vec<u64>>> = Ghost(d@);
        let row = &mut d[ay];
        row.set(ax, nv);
        proof {
            let ii = i as int;
            assert(d@ == prev@.update(ay as int, d@[ay as int]));
            assert(d@[ay as int]@ == prev@[ay as int]@.update(ax as int, nv));
            let cnt = deposit_count(s@.take(ii), ax as int, ay as int);
            assert(dep as int * (cnt + 1) == dep as int * cnt + dep as int) by {
                lemma_mul_is_distributive_add(dep as int, cnt, 1);
                lemma_mul_basics(dep as int);
            }
            assert forall|y: int, x: int| 0 <= y < height as int && 0 <= x < width as int implies
                #[trigger] rows_view(d@)[y][x] as int == cap_at(
                INTENSITY_CAP as int,
                dep as int * deposit_count(s@.take(ii + 1), x, y),
            ) by {
                lemma_deposit_count_extend(s@, ii, x, y);
                lemma_deposit_count_nonneg(s@.take(ii), x, y);
                lemma_mul_nonnegative(dep as int, deposit_count(s@.take(ii), x, y));
                if y == ay as int && x == ax as int {
                    assert(rows_view(d@)[y][x] == nv);
                } else if y == ay as int {
                    assert(rows_view(d@)[y][x] == rows_view(prev@)[y][x]) by {
                        assert(d@[y]@[x] == prev@[y]@[x]);
                    }
                } else {
                    assert(rows_view(d@)[y][x] == rows_view(prev@)[y][x]) by {
                        assert(d@[y]@ == prev@[y]@);
                    }
                }
            }
        }
        i = i + 1;
    }
    proof {
        assert(s@.take(n as int) =~= s@);
        assert(rows_view(d@) =~~= deposit_grid_spec(
            s@,
            width as int,
            height as int,
            dep as int,
        ));
    }
    d
}

/// Redraw the agent texture from the written population: cleared first,
/// then one mark per occupied cell.
#[verifier::loop_isolation(false)]
pub fn texture_grid(agents: &Vec<Agent>, width: u32, height: u32) -> (t: Vec<Vec<bool>>)
    requires
        0 < width <= MAX_DIM,
        0 < height <= MAX_DIM,
        agents_wf(agents@, width as int, height as int),
    ensures
        rows_view(t@) == texture_spec(agents@, width as int, height as int),
{
    let s: Ghost<Seq<Agent>> = Ghost(agents@);
    let mut t: Vec<Vec<bool>> = filled_rows(width, height, false);
    proof {
        assert(rows_view(t@).len() == t@.len());
        assert forall|y: int| 0 <= y < height as int implies (#[trigger] t@[y]@).len()
            == width as int by {
            assert(rows_view(t@)[y] == t@[y]@);
        }
        assert forall|y: int, x: int| 0 <= y < height as int && 0 <= x < width as int implies
            #[trigger] rows_view(t@)[y][x] == (deposit_count(s@.take(0), x, y) > 0) by {
            assert(s@.take(0) =~= Seq::<Agent>::empty());
        }
    }
    let n = agents.len();
    let mut i: usize = 0;
    while i < n
        invariant
            i <= n,
            t@.len() == height as int,
            forall|y: int| 0 <= y < height as int ==> (#[trigger] t@[y]@).len() == width as int,
            forall|y: int, x: int|
                0 <= y < height as int && 0 <= x < width as int ==> #[trigger] rows_view(
                    t@,
                )[y][x] == (deposit_count(s@.take(i as int), x, y) > 0),
        decreases n - i,
    {
        let a = agents[i];
        let ax = a.x as usize;
        let ay = a.y as usize;
        proof {
            assert(agent_wf(s@[i as int], width as int, height as int));
        }
        let prev: Ghost<Seq<Vec<bool>>> = Ghost(t@);
        let row = &mut t[ay];
        row.set(ax, true);
        proof {
            let ii = i as int;
            assert(t@ == prev@.update(ay as int, t@[ay as int]));
            assert(t@[ay as int]@ == prev@[ay as int]@.update(ax as int, true));
            assert forall|y: int, x: int| 0 <= y < height as int && 0 <= x < width as int implies
                #[trigger] rows_view(t@)[y][x] == (deposit_count(s@.take(ii + 1), x, y) > 0) by {
                lemma_deposit_count_extend(s@, ii, x, y);
                lemma_deposit_count_nonneg(s@.take(ii), x, y);
                if y == ay as int && x == ax as int {
                    assert(rows_view(t@)[y][x] == true);
                } else if y == ay as int {
                    assert(rows_view(t@)[y][x] == rows_view(prev@)[y][x]) by {
                        assert(t@[y]@[x] == prev@[y]@[x]);
                    }
                } else {
                    assert(rows_view(t@)[y][x] == rows_view(prev@)[y][x]) by {
                        assert(t@[y]@ == prev@[y]@);
                    }
                }
            }
        }
        i = i + 1;
    }
    proof {
        assert(s@.take(n as int) =~= s@);
        assert(rows_view(t@) =~~= texture_spec(s@, width as int, height as int));
    }
    t
}

/// The deposit grid of any population is well formed: saturation keeps
/// every cell within the cap.
pub proof fn lemma_deposit_grid_wf(s: Seq<Agent>, w: int, h: int, dep: int)
    requires
        0 < w,
        0 < h,
        0 <= dep,
    ensures
        grid_wf(deposit_grid_spec(s, w, h, dep), w, h),
{
    let d = deposit_grid_spec(s, w, h, dep);
    assert forall|y: int, x: int| 0 <= y < h && 0 <= x < w implies #[trigger] d[y][x]
        <= INTENSITY_CAP by {
        lemma_deposit_count_nonneg(s, x, y);
        lemma_mul_nonnegative(dep, deposit_count(s, x, y));
        assert(d[y][x] == cap_at(INTENSITY_CAP as int, dep * deposit_count(s, x, y)) as u64);
    }
}

/// An agent clamped into a `w` by `h` field, heading kept.
pub open spec fn clamp_agent(a: Agent, w: int, h: int) -> Agent {
    Agent {
        x: if a.x < w {
            a.x
        } else {
            (w - 1) as u32
        },
        y: if a.y < h {
            a.y
        } else {
            (h - 1) as u32
        },
        angle: a.angle,
        turn_speed: a.turn_speed,
    }
}

/// A whole population clamped into the field, agent by agent.
pub open spec fn clamped_agents(s: Seq<Agent>, w: int, h: int) -> Seq<Agent> {
    Seq::new(s.len(), |i: int| clamp_agent(s[i], w, h))
}

/// Clamp every agent of a buffer into a freshly resized field.
#[verifier::loop_isolation(false)]
pub fn clamp_all(agents: &Vec<Agent>, width: u32, height: u32) -> (out: Vec<Agent>)
    requires
        0 < width,
        0 < height,
        forall|i: int| 0 <= i < agents@.len() ==> (#[trigger] agents@[i]).angle < ANGLE_MOD,
    ensures
        out@ == clamped_agents(agents@, width as int, height as int),
        out@.len() == agents@.len(),
        agents_wf(out@, width as int, height as int),
{
    let n = agents.len();
    let mut out: Vec<Agent> = Vec::new();
    let mut i: usize = 0;
    while i < n
        invariant
            i <= n,
            out@.len() == i,
            forall|j: int|
                0 <= j < i ==> #[trigger] out@[j] == clamp_agent(
                    agents@[j],
                    width as int,
                    height as int,
                ),
            agents_wf(out@, width as int, height as int),
        decreases n - i,
    {
        let a = agents[i];
        let x = if a.x < width {
            a.x
        } else {
            width - 1
        };
        let y = if a.y < height {
            a.y
        } else {
            height - 1
        };
        out.push(Agent { x, y, angle: a.angle, turn_speed: a.turn_speed });
        i = i + 1;
    }
    proof {
        assert(out@ =~= clamped_agents(agents@, width as int, height as int));
    }
    out
}

/// The double-buffered agent store.
pub struct AgentStore {
    /// The forward buffer: read on even ticks, written on odd ticks.
    pub fwd: Vec<Agent>,
    /// The reverse buffer: written on even ticks, read on odd ticks.
    pub rev: Vec<Agent>,
}

impl AgentStore {
    /// The population held by the buffer with role `r`.
    pub open spec fn buf_spec(self, r: Role) -> Seq<Agent> {
        match r {
            Role::Forward => self.fwd@,
            Role::Reverse => self.rev@,
        }
    }

    /// The population size; both buffers always hold the same count.
    pub open spec fn population_spec(self) -> int {
        self.fwd@.len() as int
    }

    /// Well-formed store: two buffers of one size, every agent in field.
    pub open spec fn wf(self, w: int, h: int) -> bool {
        &&& self.fwd@.len() == self.rev@.len()
        &&& agents_wf(self.fwd@, w, h)
        &&& agents_wf(self.rev@, w, h)
    }

    /// Seed `n` agents with random positions within the field and random
    /// headings, and start both buffer roles from that same population.
    #[verifier::loop_isolation(false)]
    pub fn initialize(n: usize, width: u32, height: u32) -> (store: AgentStore)
        requires
            0 < width,
            0 < height,
        ensures
            store.wf(width as int, height as int),
            store.population_spec() == n,
            store.fwd@ == store.rev@,
            forall|i: int| 0 <= i < n ==> (#[trigger] store.fwd@[i]).turn_speed == 0,
    {
        let mut fwd: Vec<Agent> = Vec::new();
        let mut i: usize = 0;
        while i < n
            invariant
                i <= n,
                fwd@.len() == i,
                agents_wf(fwd@, width as int, height as int),
                forall|j: int| 0 <= j < i ==> (#[trigger] fwd@[j]).turn_speed == 0,
            decreases n - i,
        {
            let x = sample_inclusive(0, width - 1);
            let y = sample_inclusive(0, height - 1);
            let angle = sample_inclusive(0, ANGLE_MOD - 1);
            fwd.push(Agent { x, y, angle, turn_speed: 0 });
            i = i + 1;
        }
        let rev = copy_agents(&fwd);
        AgentStore { fwd, rev }
    }

    /// Rebuild the store from a given population: the bulk-reinitialize
    /// capability, also the deterministic seeding used by tests.
    pub fn from_agents(agents: Vec<Agent>) -> (store: AgentStore)
        ensures
            store.fwd@ == agents@,
            store.rev@ == agents@,
    {
        let rev = copy_agents(&agents);
        AgentStore { fwd: agents, rev }
    }

    /// The number of agents in the population.
    pub fn population(&self) -> (n: usize)
        ensures
            n as int == self.population_spec(),
    {
        self.fwd.len()
    }

    /// The buffer role read during `tick`, by the shared parity rule.
    pub fn current_buffer(&self, tick: u64) -> (r: Role)
        ensures
            r == current_role_spec(tick),
    {
        current_role(tick)
    }

    /// The buffer role written during `tick`, by the shared parity rule.
    pub fn next_buffer(&self, tick: u64) -> (r: Role)
        ensures
            r == next_role_spec(tick),
    {
        next_role(tick)
    }

    /// Borrow the population in the buffer with role `r`.
    pub fn buf(&self, r: Role) -> (agents: &Vec<Agent>)
        ensures
            agents@ == self.buf_spec(r),
    {
        match r {
            Role::Forward => &self.fwd,
            Role::Reverse => &self.rev,
        }
    }

    /// Replace the population in the buffer with role `r`.
    pub fn set_buf(&mut self, r: Role, agents: Vec<Agent>)
        ensures
            final(self).buf_spec(r) == agents@,
            final(self).buf_spec(if r == Role::Forward {
                Role::Reverse
            } else {
                Role::Forward
            }) == old(self).buf_spec(
                if r == Role::Forward {
                    Role::Reverse
                } else {
                    Role::Forward
                },
            ),
    {
        match r {
            Role::Forward => {
                self.fwd = agents;
            },
            Role::Reverse => {
                self.rev = agents;
            },
        }
    }
}

/// A plain element-for-element copy of a population buffer.
#[verifier::loop_isolation(false)]
fn copy_agents(agents: &Vec<Agent>) -> (out: Vec<Agent>)
    ensures
        out@ == agents@,
{
    let mut out: Vec<Agent> = Vec::new();
    let mut i: usize = 0;
    let n = agents.len();
    while i < n
        invariant
            i <= n,
            out@ =~= agents@.take(i as int),
        decreases n - i,
    {
        out.push(agents[i]);
        i = i + 1;
    }
    proof {
        assert(agents@.take(n as int) =~= agents@);
    }
    out
}

} // verus!
