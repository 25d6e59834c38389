//! The frame driver: the lifecycle state machine that owns the tick
//! counter and drives scheduler, buffer swap, compositor and present in
//! strict order.
//!
//! States: a driver is built straight into `Running` (or fails its
//! initialization), suspends on a recoverable presentation loss, and
//! terminates on a close request or a fatal device error.  Window resizes
//! reallocate the size-dependent resources before the next tick; zero-area
//! resizes are ignored outright, and resizing to the current size leaves
//! every buffer untouched.

use vstd::prelude::*;
use crate::agents::{clamp_all, clamped_agents, texture_spec, AgentStore};
use crate::buffers::{current_role_spec, next_role, next_role_spec, Role};
use crate::compositor::{compose, compose_spec, Frame};
use crate::environment::EnvField;
use crate::grid::{rows_view, zero_grid};
use crate::params::{Params, MAX_DIM};
use crate::scheduler::{run_tick, tick_agents, tick_env};

verus! {

/// Why a running driver is suspended.
#[derive(Clone, Copy, PartialEq, Eq, Structural, Debug)]
pub enum SuspendReason {
    /// The presentable surface was lost and must be rebuilt at the
    /// current window size.
    SurfaceLost,
}

/// The driver's lifecycle state.
#[derive(Clone, Copy, PartialEq, Eq, Structural, Debug)]
pub enum DriverState {
    /// Device and resources are still being set up.
    Initializing,
    /// Normal operation: every tick computes, swaps, composites, presents.
    Running,
    /// A recoverable presentation failure; a resize at the current window
    /// size brings the driver back to `Running`.
    Suspended(SuspendReason),
    /// Final: reached on close request or fatal device error.
    Terminated,
}

/// The error taxonomy of the device and presentation boundary.
#[derive(Clone, Copy, PartialEq, Eq, Structural, Debug)]
pub enum DriverError {
    /// No compatible device or surface: fatal at startup.
    InitializationFailure,
    /// The surface needs reconfiguration; recovered locally by
    /// reallocating at the current size.
    TransientPresentationLoss,
    /// An out-of-memory-class device failure: fatal.
    ResourceExhaustion,
    /// Anything else the device reports: the tick is dropped and the loop
    /// carries on.
    UnspecifiedDeviceError,
}

/// A window lifecycle signal delivered by the event collaborator.
#[derive(Clone, Copy, PartialEq, Eq, Structural, Debug)]
pub enum WindowSignal {
    Resize(u32, u32),
    CloseRequested,
    RedrawRequested,
}

/// The frame driver.
pub struct FrameDriver {
    /// Lifecycle state.
    pub state: DriverState,
    /// The tick counter; selects the buffer roles of the next tick.
    pub frame_num: u64,
    /// The parameter block, immutable except for its dimensions on resize.
    pub params: Params,
    /// The double-buffered agent population.
    pub agents: AgentStore,
    /// The double-buffered environment field.
    pub env: EnvField,
}

impl FrameDriver {
    /// A consistent driver: valid parameters, and both stores shaped by
    /// exactly the parameter block's dimensions.
    pub open spec fn wf(self) -> bool {
        &&& self.params.valid()
        &&& self.env.wf()
        &&& self.env.width == self.params.width_spec()
        &&& self.env.height == self.params.height_spec()
        &&& self.agents.wf(self.params.width_spec() as int, self.params.height_spec() as int)
    }

    /// Build a driver: validate the parameter block, seed `agent_count`
    /// agents at random positions, zero-fill the environment, and enter
    /// `Running`.  An invalid block fails initialization, exactly as a
    /// missing device would.
    pub fn new(params: Params, agent_count: usize) -> (r: Result<FrameDriver, DriverError>)
        ensures
            r is Ok <==> params.valid(),
            r is Err ==> r == Result::<FrameDriver, DriverError>::Err(
                DriverError::InitializationFailure,
            ),
            r is Ok ==> (r->Ok_0).wf(),
            r is Ok ==> (r->Ok_0).state == DriverState::Running,
            r is Ok ==> (r->Ok_0).frame_num == 0,
            r is Ok ==> (r->Ok_0).params == params,
            r is Ok ==> (r->Ok_0).agents.population_spec() == agent_count,
            r is Ok ==> (r->Ok_0).env.buf_levels(Role::Forward) == zero_grid(
                params.width_spec() as int,
                params.height_spec() as int,
            ),
            r is Ok ==> (r->Ok_0).env.buf_levels(Role::Reverse) == zero_grid(
                params.width_spec() as int,
                params.height_spec() as int,
            ),
    {
        if !params.check() {
            return Result::Err(DriverError::InitializationFailure);
        }
        let width = params.width();
        let height = params.height();
        let agents = AgentStore::initialize(agent_count, width, height);
        let env = EnvField::initialize(width, height);
        Result::Ok(
            FrameDriver { state: DriverState::Running, frame_num: 0, params, agents, env },
        )
    }

    /// The event collaborator asks whether the simulation consumed an
    /// input event.  It never does: every signal is handled by the loop.
    pub fn input_is_handled(&self, _signal: &WindowSignal) -> (handled: bool)
        ensures
            !handled,
    {
        false
    }

    /// A close request: terminate, touching nothing else.
    pub fn on_close(&mut self)
        ensures
            final(self).state == DriverState::Terminated,
            final(self).frame_num == old(self).frame_num,
            final(self).params == old(self).params,
            final(self).agents == old(self).agents,
            final(self).env == old(self).env,
    {
        self.state = DriverState::Terminated;
    }

    /// A device or presentation error, mapped through the taxonomy: a
    /// transient loss suspends until resources are rebuilt, fatal errors
    /// terminate, and an unspecified error only costs the dropped tick.
    /// A terminated driver stays terminated.
    pub fn on_device_error(&mut self, e: DriverError)
        ensures
            final(self).frame_num == old(self).frame_num,
            final(self).params == old(self).params,
            final(self).agents == old(self).agents,
            final(self).env == old(self).env,
            old(self).state == DriverState::Terminated ==> final(self).state
                == DriverState::Terminated,
            old(self).state != DriverState::Terminated ==> final(self).state == (match e {
                DriverError::TransientPresentationLoss => DriverState::Suspended(
                    SuspendReason::SurfaceLost,
                ),
                DriverError::ResourceExhaustion => DriverState::Terminated,
                DriverError::InitializationFailure => DriverState::Terminated,
                DriverError::UnspecifiedDeviceError => old(self).state,
            }),
    {
        match self.state {
            DriverState::Terminated => {
            },
            _ => {
                match e {
                    DriverError::TransientPresentationLoss => {
                        self.state = DriverState::Suspended(SuspendReason::SurfaceLost);
                    },
                    DriverError::ResourceExhaustion => {
                        self.state = DriverState::Terminated;
                    },
                    DriverError::InitializationFailure => {
                        self.state = DriverState::Terminated;
                    },
                    DriverError::UnspecifiedDeviceError => {
                    },
                }
            },
        }
    }

    /// A window resize.
    ///
    /// Zero-area or out-of-range sizes are ignored outright.  Otherwise a
    /// driver that is not terminated returns to `Running`; resizing to the
    /// current size is a no-op for every buffer and dimension, while a new
    /// size reallocates the environment (the trail restarts empty), clamps
    /// every agent into the new field, and rewrites the parameter block's
    /// dimensions.
    pub fn on_resize(&mut self, width: u32, height: u32)
        requires
            old(self).wf(),
        ensures
            final(self).wf(),
            final(self).frame_num == old(self).frame_num,
            width == 0 || height == 0 ==> *final(self) == *old(self),
            width > MAX_DIM || height > MAX_DIM ==> *final(self) == *old(self),
            old(self).state == DriverState::Terminated ==> *final(self) == *old(self),
            0 < width <= MAX_DIM && 0 < height <= MAX_DIM && old(self).state
                != DriverState::Terminated ==> {
                &&& final(self).state == DriverState::Running
                &&& final(self).params.width_spec() == width
                &&& final(self).params.height_spec() == height
                &&& width == old(self).params.width_spec() && height == old(
                    self,
                ).params.height_spec() ==> {
                    &&& final(self).params == old(self).params
                    &&& final(self).agents == old(self).agents
                    &&& final(self).env == old(self).env
                }
                &&& !(width == old(self).params.width_spec() && height == old(
                    self,
                ).params.height_spec()) ==> {
                    &&& final(self).env.buf_levels(Role::Forward) == zero_grid(
                        width as int,
                        height as int,
                    )
                    &&& final(self).env.buf_levels(Role::Reverse) == zero_grid(
                        width as int,
                        height as int,
                    )
                    &&& final(self).agents.buf_spec(Role::Forward) == clamped_agents(
                        old(self).agents.buf_spec(Role::Forward),
                        width as int,
                        height as int,
                    )
                    &&& final(self).agents.buf_spec(Role::Reverse) == clamped_agents(
                        old(self).agents.buf_spec(Role::Reverse),
                        width as int,
                        height as int,
                    )
                    &&& final(self).agents.population_spec() == old(
                        self,
                    ).agents.population_spec()
                }
            },
    {
        if width == 0 || height == 0 || width > MAX_DIM || height > MAX_DIM {
            return ;
        }
        match self.state {
            DriverState::Terminated => {
                return ;
            },
            _ => {
            },
        }
        if width == self.params.width() && height == self.params.height() {
            self.state = DriverState::Running;
            return ;
        }
        let fwd = clamp_all(&self.agents.fwd, width, height);
        let rev = clamp_all(&self.agents.rev, width, height);
        self.agents = AgentStore { fwd, rev };
        self.env = EnvField::initialize(width, height);
        self.params.agent_compute_params.dimensions = [width, height];
        self.state = DriverState::Running;
    }

    /// One tick while `Running`: run the kernels against the current
    /// buffer role, swap roles by advancing the tick counter, composite
    /// the just-finalized buffers, and hand the frame out to be presented.
    /// In any other state nothing happens at all.
    ///
    /// The population size after the tick equals the population size
    /// before it, for both buffer roles: agents are never created or
    /// destroyed by the pipeline.
    pub fn tick(&mut self) -> (frame: Option<Frame>)
        requires
            old(self).wf(),
            old(self).frame_num < u64::MAX,
        ensures
            final(self).wf(),
            old(self).state != DriverState::Running ==> *final(self) == *old(self) && frame
                is None,
            old(self).state == DriverState::Running ==> {
                &&& final(self).state == DriverState::Running
                &&& final(self).frame_num == old(self).frame_num + 1
                &&& final(self).params == old(self).params
                &&& final(self).agents.population_spec() == old(self).agents.population_spec()
                &&& final(self).agents.buf_spec(current_role_spec(old(self).frame_num)) == old(
                    self,
                ).agents.buf_spec(current_role_spec(old(self).frame_num))
                &&& final(self).env.buf_levels(current_role_spec(old(self).frame_num)) == old(
                    self,
                ).env.buf_levels(current_role_spec(old(self).frame_num))
                &&& final(self).agents.buf_spec(next_role_spec(old(self).frame_num))
                    == tick_agents(
                    old(self).agents,
                    old(self).env,
                    old(self).params,
                    old(self).frame_num,
                )
                &&& final(self).env.buf_levels(next_role_spec(old(self).frame_num)) == tick_env(
                    old(self).agents,
                    old(self).env,
                    old(self).params,
                    old(self).frame_num,
                )
                &&& current_role_spec(final(self).frame_num) == next_role_spec(
                    old(self).frame_num,
                )
                &&& frame is Some
                &&& (frame->0).width == old(self).params.width_spec()
                &&& (frame->0).height == old(self).params.height_spec()
                &&& rows_view((frame->0).pixels@) == compose_spec(
                    tick_env(old(self).agents, old(self).env, old(self).params, old(self).frame_num),
                    texture_spec(
                        tick_agents(
                            old(self).agents,
                            old(self).env,
                            old(self).params,
                            old(self).frame_num,
                        ),
                        old(self).params.width_spec() as int,
                        old(self).params.height_spec() as int,
                    ),
                    old(self).params.width_spec() as int,
                    old(self).params.height_spec() as int,
                    old(self).params,
                )
            },
    {
        match self.state {
            DriverState::Running => {
            },
            _ => {
                return Option::None;
            },
        }
        let tex = run_tick(&mut self.agents, &mut self.env, &self.params, self.frame_num);
        let role_w = next_role(self.frame_num);
        proof {
            assert(rows_view(tex@).len() == tex@.len());
            assert(tex@.len() == self.params.height_spec() as int);
            assert forall|y: int| 0 <= y < self.params.height_spec() as int implies (
            #[trigger] tex@[y]@).len() == self.params.width_spec() as int by {
                assert(rows_view(tex@)[y] == tex@[y]@);
            }
        }
        let frame = compose(self.env.buf(role_w), &tex, &self.params);
        self.frame_num = self.frame_num + 1;
        Option::Some(frame)
    }

    /// The tick counter: how many ticks have fully completed.
    pub fn tick_count(&self) -> (t: u64)
        ensures
            t == self.frame_num,
    {
        self.frame_num
    }
}

} // verus!
