//! The parameter block: immutable-per-tick configuration read by both
//! kernels and by the compositor.
//!
//! All quantities are carried as integers.  Trail intensity is fixed point
//! with [`INTENSITY_UNIT`] units to one whole unit of intensity, and the
//! decay factor is the rational `decay_num / decay_den`.  Headings are
//! fixed point as well: a full turn is [`ANGLE_MOD`] heading units.

use vstd::prelude::*;

verus! {

/// Heading units in a full turn.  A heading is always in `0 .. ANGLE_MOD`.
pub const ANGLE_MOD: u32 = 256;

/// Heading units in one eighth of a turn: the width of one of the eight
/// movement octants.
pub const OCTANT_WIDTH: u32 = 32;

/// Fixed-point intensity units standing for one whole unit of trail
/// intensity.
pub const INTENSITY_UNIT: u64 = 1_000_000;

/// The largest intensity a cell can hold; deposits saturate here.
pub const INTENSITY_CAP: u64 = 0xFFFF_FFFF;

/// The largest grid extent on either axis.
pub const MAX_DIM: u32 = 65535;

/// Configuration of the agent-update kernel.
#[derive(Clone, Copy, Debug)]
pub struct AgentComputeParams {
    /// Field extent as `[width, height]`, in cells.
    pub dimensions: [u32; 2],
    /// Distance, in cells, at which an agent senses the trail ahead.
    pub sensor_offset: u32,
    /// Distance, in cells, an agent moves forward each tick.
    pub step_size: u32,
    /// Largest heading change per tick, in heading units.
    pub turn_speed: u32,
}

/// Configuration of the agent render layer.
#[derive(Clone, Copy, Debug)]
pub struct AgentRenderParams {
    /// Grey level, `0 ..= 255`, at which an agent pixel is drawn.
    pub agent_shade: u32,
}

/// Configuration of the environment-diffusion kernel.
#[derive(Clone, Copy, Debug)]
pub struct EnvComputeParams {
    /// Numerator of the per-tick decay factor.
    pub decay_num: u64,
    /// Denominator of the per-tick decay factor; the factor
    /// `decay_num / decay_den` is at most one.
    pub decay_den: u64,
    /// Intensity an agent deposits into its cell each tick.
    pub deposit: u64,
}

/// Configuration of the environment render layer.
#[derive(Clone, Copy, Debug)]
pub struct EnvRenderParams {
    /// Intensity that maps to full brightness when the trail is drawn.
    pub trail_scale: u64,
}

/// The full parameter block, uploaded once per structural change.
#[derive(Clone, Copy, Debug)]
pub struct Params {
    pub agent_compute_params: AgentComputeParams,
    pub agent_render_params: AgentRenderParams,
    pub env_compute_params: EnvComputeParams,
    pub env_render_params: EnvRenderParams,
}

impl Params {
    /// Field width in cells.
    pub open spec fn width_spec(self) -> u32 {
        self.agent_compute_params.dimensions[0]
    }

    /// Field height in cells.
    pub open spec fn height_spec(self) -> u32 {
        self.agent_compute_params.dimensions[1]
    }

    /// Every bound the kernels rely on: nonzero grid within [`MAX_DIM`],
    /// a decay factor of at most one, a deposit within the cell cap, and a
    /// turn speed below a full turn.
    pub open spec fn valid(self) -> bool {
        &&& 0 < self.width_spec() <= MAX_DIM
        &&& 0 < self.height_spec() <= MAX_DIM
        &&& 0 < self.env_compute_params.decay_den <= 0xFFFF_FFFF
        &&& self.env_compute_params.decay_num <= self.env_compute_params.decay_den
        &&& self.env_compute_params.deposit <= INTENSITY_CAP
        &&& self.agent_compute_params.turn_speed < ANGLE_MOD
        &&& self.agent_render_params.agent_shade <= 255
        &&& 0 < self.env_render_params.trail_scale
    }

    /// A parameter block for a `width` by `height` field with the default
    /// movement and decay policy.
    pub fn new(width: u32, height: u32) -> (p: Params)
        ensures
            p.width_spec() == width,
            p.height_spec() == height,
            p.agent_compute_params.sensor_offset == 9,
            p.agent_compute_params.step_size == 1,
            p.agent_compute_params.turn_speed == 16,
            p.env_compute_params.decay_num == 97,
            p.env_compute_params.decay_den == 100,
            p.env_compute_params.deposit == INTENSITY_UNIT,
            p.agent_render_params.agent_shade == 255,
            p.env_render_params.trail_scale == INTENSITY_UNIT,
            0 < width <= MAX_DIM && 0 < height <= MAX_DIM ==> p.valid(),
    {
        Params {
            agent_compute_params: AgentComputeParams {
                dimensions: [width, height],
                sensor_offset: 9,
                step_size: 1,
                turn_speed: 16,
            },
            agent_render_params: AgentRenderParams { agent_shade: 255 },
            env_compute_params: EnvComputeParams {
                decay_num: 97,
                decay_den: 100,
                deposit: INTENSITY_UNIT,
            },
            env_render_params: EnvRenderParams { trail_scale: INTENSITY_UNIT },
        }
    }

    /// Decide at run time whether the block satisfies [`Params::valid`].
    pub fn check(&self) -> (ok: bool)
        ensures
            ok == self.valid(),
    {
        self.width() > 0 && self.width() <= MAX_DIM && self.height() > 0 && self.height()
            <= MAX_DIM && self.env_compute_params.decay_den > 0 && self.env_compute_params.decay_den
            <= 0xFFFF_FFFF && self.env_compute_params.decay_num <= self.env_compute_params.decay_den
            && self.env_compute_params.deposit <= INTENSITY_CAP
            && self.agent_compute_params.turn_speed < ANGLE_MOD
            && self.agent_render_params.agent_shade <= 255 && self.env_render_params.trail_scale > 0
    }

    /// Field width in cells.
    pub fn width(&self) -> (w: u32)
        ensures
            w == self.width_spec(),
    {
        self.agent_compute_params.dimensions[0]
    }

    /// Field height in cells.
    pub fn height(&self) -> (h: u32)
        ensures
            h == self.height_spec(),
    {
        self.agent_compute_params.dimensions[1]
    }
}

} // verus!
