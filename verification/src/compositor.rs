//! The presentation compositor.
//!
//! Reads the environment grid and agent texture that the scheduler just
//! finalized — never the stale current role — and composites them into a
//! frame of packed RGBA pixels: the trail field as a grey background,
//! agents drawn on top by plain replacement, no blending state beyond
//! that.  The compositor has no side effects besides the returned frame.

use vstd::prelude::*;
use crate::environment::{cap_at, rows_levels, EnvCell};
use crate::grid::{grid_wf, rows_view};
use crate::params::Params;

verus! {

/// One composed frame: `height` rows of `width` packed RGBA pixels.
pub struct Frame {
    /// Frame width in pixels, one per field cell.
    pub width: u32,
    /// Frame height in pixels, one per field cell.
    pub height: u32,
    /// Row-major pixels, packed `0xRRGGBBAA`.
    pub pixels: Vec<Vec<u32>>,
}

/// The grey level a trail intensity is drawn at: full brightness at
/// `scale` intensity and above.
pub open spec fn shade_of(level: u64, scale: u64) -> int {
    cap_at(255, (level as int) * 255 / (scale as int))
}

/// A grey level packed as RGBA with full alpha.
pub open spec fn pack_grey(g: int) -> int {
    g * 0x01010100 + 0xFF
}

/// The pixel composed for one cell: the agent layer replaces the trail
/// background wherever the texture is marked.
pub open spec fn compose_pixel(level: u64, on: bool, p: Params) -> int {
    if on {
        pack_grey(p.agent_render_params.agent_shade as int)
    } else {
        pack_grey(shade_of(level, p.env_render_params.trail_scale))
    }
}

/// The whole composed frame.
pub open spec fn compose_spec(
    env_g: Seq<Seq<u64>>,
    tex: Seq<Seq<bool>>,
    w: int,
    h: int,
    p: Params,
) -> Seq<Seq<u32>> {
    Seq::new(
        h as nat,
        |y: int| Seq::new(w as nat, |x: int| compose_pixel(env_g[y][x], tex[y][x], p) as u32),
    )
}

/// Composite the finalized environment buffer and agent texture into a
/// frame.
#[verifier::loop_isolation(false)]
pub fn compose(env_read: &Vec<Vec<EnvCell>>, tex: &Vec<Vec<bool>>, p: &Params) -> (frame: Frame)
    requires
        p.valid(),
        grid_wf(rows_levels(env_read@), p.width_spec() as int, p.height_spec() as int),
        tex@.len() == p.height_spec() as int,
        forall|y: int|
            0 <= y < p.height_spec() as int ==> (#[trigger] tex@[y]@).len()
                == p.width_spec() as int,
    ensures
        frame.width == p.width_spec(),
        frame.height == p.height_spec(),
        rows_view(frame.pixels@) == compose_spec(
            rows_levels(env_read@),
            rows_view(tex@),
            p.width_spec() as int,
            p.height_spec() as int,
            *p,
        ),
{
    let g: Ghost<Seq<Seq<u64>>> = Ghost(rows_levels(env_read@));
    let t: Ghost<Seq<Seq<bool>>> = Ghost(rows_view(tex@));
    let width = p.width();
    let height = p.height();
    let target: Ghost<Seq<Seq<u32>>> = Ghost(
        compose_spec(g@, t@, width as int, height as int, *p),
    );
    let scale = p.env_render_params.trail_scale;
    let agent_px = p.agent_render_params.agent_shade * 0x01010100 + 0xFF;
    let w = width as usize;
    let h = height as usize;
    let mut pixels: Vec<Vec<u32>> = Vec::new();
    let mut y: usize = 0;
    while y < h
        invariant
            y <= h,
            pixels@.len() == y,
            forall|yy: int| 0 <= yy < y ==> #[trigger] pixels@[yy]@ == target@[yy],
        decreases h - y,
    {
        let mut row: Vec<u32> = Vec::new();
        let mut x: usize = 0;
        while x < w
            invariant
                x <= w,
                y < h,
                row@.len() == x,
                forall|xx: int| 0 <= xx < x ==> #[trigger] row@[xx] == target@[y as int][xx],
            decreases w - x,
        {
            proof {
                assert(rows_levels(env_read@).len() == height as int);
                assert(rows_levels(env_read@)[y as int].len() == width as int);
                assert(env_read@[y as int]@.len() == w);
                assert(tex@[y as int]@.len() == w);
            }
            let on = tex[y][x];
            let px = if on {
                agent_px
            } else {
                let level = env_read[y][x].pheromone_level;
                proof {
                    assert(level == g@[y as int][x as int]);
                    assert(level <= crate::params::INTENSITY_CAP);
                }
                let scaled = (level * 255) / scale;
                let grey = if scaled > 255 {
                    255
                } else {
                    scaled
                };
                (grey as u32) * 0x01010100 + 0xFF
            };
            proof {
                assert(t@[y as int][x as int] == on);
                assert(px == target@[y as int][x as int]);
            }
            row.push(px);
            x = x + 1;
        }
        proof {
            assert(row@ =~= target@[y as int]);
        }
        pixels.push(row);
        y = y + 1;
    }
    proof {
        assert(rows_view(pixels@) =~~= target@);
    }
    Frame { width, height, pixels }
}

} // verus!
