//! The compute scheduler: one tick's kernel runs, in order.
//!
//! For tick `t` the scheduler runs the agent kernel, then the environment
//! kernel.  Both read only the buffer role selected by `t`'s parity and
//! write only the other role — the roles are distinct at every tick, so a
//! kernel never observes its own writes, and the buffers read this tick
//! are exactly the ones finalized by tick `t - 1`.

use vstd::prelude::*;
use crate::agents::{
    agent_kernel, deposit_grid, deposit_grid_spec, lemma_deposit_grid_wf, stepped_agents,
    texture_grid, texture_spec, AgentStore,
};
use crate::buffers::{current_role_spec, next_role, next_role_spec, current_role};
use crate::environment::{
    env_kernel, env_step_grid, lemma_decay_monotone, lemma_decay_strict, lemma_env_step_grid_wf,
    EnvField,
};
use crate::grid::{rows_view, total, zero_grid};
use crate::params::Params;

verus! {

/// The population written by the agent kernel at `tick`: the read buffer
/// mapped through the policy step against the read environment.
pub open spec fn tick_agents(a: AgentStore, e: EnvField, p: Params, tick: u64) -> Seq<
    crate::agents::Agent,
> {
    stepped_agents(
        a.buf_spec(current_role_spec(tick)),
        e.buf_levels(current_role_spec(tick)),
        p.width_spec() as int,
        p.height_spec() as int,
        p,
    )
}

/// The grid written by the environment kernel at `tick`: the read grid
/// diffused and decayed, plus the new population's deposits.
pub open spec fn tick_env(a: AgentStore, e: EnvField, p: Params, tick: u64) -> Seq<Seq<u64>> {
    env_step_grid(
        e.buf_levels(current_role_spec(tick)),
        deposit_grid_spec(
            tick_agents(a, e, p, tick),
            p.width_spec() as int,
            p.height_spec() as int,
            p.env_compute_params.deposit as int,
        ),
        p.width_spec() as int,
        p.height_spec() as int,
        p.env_compute_params.decay_num as int,
        p.env_compute_params.decay_den as int,
    )
}

/// With deposits disabled, a tick's environment write never holds more
/// total intensity than the grid it read: the decay-monotonicity law,
/// carried up to exactly what the scheduler writes.
pub proof fn lemma_tick_decay_monotone(a: AgentStore, e: EnvField, p: Params, tick: u64)
    requires
        p.valid(),
        e.wf(),
        e.width == p.width_spec(),
        e.height == p.height_spec(),
        p.env_compute_params.deposit == 0,
    ensures
        total(tick_env(a, e, p, tick)) <= total(e.buf_levels(current_role_spec(tick))),
{
    let w = p.width_spec() as int;
    let h = p.height_spec() as int;
    let g = e.buf_levels(current_role_spec(tick));
    lemma_zero_deposits(tick_agents(a, e, p, tick), w, h);
    lemma_decay_monotone(
        g,
        w,
        h,
        p.env_compute_params.decay_num as int,
        p.env_compute_params.decay_den as int,
    );
}

/// The strict form: a decay factor below one strictly shrinks a nonzero
/// field over one tick, absent deposits.
pub proof fn lemma_tick_decay_strict(a: AgentStore, e: EnvField, p: Params, tick: u64)
    requires
        p.valid(),
        e.wf(),
        e.width == p.width_spec(),
        e.height == p.height_spec(),
        p.env_compute_params.deposit == 0,
        p.env_compute_params.decay_num < p.env_compute_params.decay_den,
        total(e.buf_levels(current_role_spec(tick))) > 0,
    ensures
        total(tick_env(a, e, p, tick)) < total(e.buf_levels(current_role_spec(tick))),
{
    let w = p.width_spec() as int;
    let h = p.height_spec() as int;
    let g = e.buf_levels(current_role_spec(tick));
    lemma_zero_deposits(tick_agents(a, e, p, tick), w, h);
    lemma_decay_strict(
        g,
        w,
        h,
        p.env_compute_params.decay_num as int,
        p.env_compute_params.decay_den as int,
    );
}

/// A zero deposit per agent yields the zero deposit grid, whatever the
/// population.
proof fn lemma_zero_deposits(s: Seq<crate::agents::Agent>, w: int, h: int)
    ensures
        deposit_grid_spec(s, w, h, 0) == zero_grid(w, h),
{
    assert(deposit_grid_spec(s, w, h, 0) =~~= zero_grid(w, h));
}

/// Run both kernels of tick `tick` and redraw the agent texture.
///
/// The buffers of the current role come out exactly as they went in; the
/// buffers of the next role hold the kernel outputs; the population size
/// is unchanged in both stores.
pub fn run_tick(agents: &mut AgentStore, env: &mut EnvField, p: &Params, tick: u64) -> (tex: Vec<
    Vec<bool>,
>)
    requires
        p.valid(),
        old(agents).wf(p.width_spec() as int, p.height_spec() as int),
        old(env).wf(),
        old(env).width == p.width_spec(),
        old(env).height == p.height_spec(),
    ensures
        final(agents).wf(p.width_spec() as int, p.height_spec() as int),
        final(env).wf(),
        final(env).width == old(env).width,
        final(env).height == old(env).height,
        final(agents).buf_spec(current_role_spec(tick)) == old(agents).buf_spec(
            current_role_spec(tick),
        ),
        final(env).buf_levels(current_role_spec(tick)) == old(env).buf_levels(
            current_role_spec(tick),
        ),
        final(agents).buf_spec(next_role_spec(tick)) == tick_agents(
            *old(agents),
            *old(env),
            *p,
            tick,
        ),
        final(env).buf_levels(next_role_spec(tick)) == tick_env(*old(agents), *old(env), *p, tick),
        final(agents).population_spec() == old(agents).population_spec(),
        rows_view(tex@) == texture_spec(
            tick_agents(*old(agents), *old(env), *p, tick),
            p.width_spec() as int,
            p.height_spec() as int,
        ),
{
    let role_r = current_role(tick);
    let role_w = next_role(tick);
    let width = p.width();
    let height = p.height();
    let new_agents = agent_kernel(agents.buf(role_r), env.buf(role_r), p);
    let deps = deposit_grid(&new_agents, width, height, p.env_compute_params.deposit);
    let tex = texture_grid(&new_agents, width, height);
    proof {
        lemma_deposit_grid_wf(
            new_agents@,
            width as int,
            height as int,
            p.env_compute_params.deposit as int,
        );
    }
    let new_env = env_kernel(
        env.buf(role_r),
        &deps,
        width,
        height,
        p.env_compute_params.decay_num,
        p.env_compute_params.decay_den,
    );
    proof {
        lemma_env_step_grid_wf(
            env.buf_levels(current_role_spec(tick)),
            rows_view(deps@),
            width as int,
            height as int,
            p.env_compute_params.decay_num as int,
            p.env_compute_params.decay_den as int,
        );
    }
    agents.set_buf(role_w, new_agents);
    env.set_buf(role_w, new_env);
    tex
}

} // verus!
