use slime::agents::{Agent, AgentStore};
use slime::buffers::Role;
use slime::driver::{DriverError, DriverState, FrameDriver, SuspendReason, WindowSignal};
use slime::environment::EnvField;
use slime::params::{Params, INTENSITY_UNIT};

fn small_driver() -> FrameDriver {
    let mut p = Params::new(8, 8);
    p.agent_compute_params.step_size = 1;
    FrameDriver::new(p, 20).expect("valid parameters must initialize")
}

fn env_levels(f: &EnvField, role: Role) -> Vec<Vec<u64>> {
    let rows = match role {
        Role::Forward => &f.fwd,
        Role::Reverse => &f.rev,
    };
    rows.iter()
        .map(|r| r.iter().map(|c| c.pheromone_level).collect())
        .collect()
}

#[test]
fn initialization_rejects_zero_dimensions() {
    let p = Params::new(0, 600);
    assert!(matches!(
        FrameDriver::new(p, 10),
        Err(DriverError::InitializationFailure)
    ));
    let q = Params::new(600, 0);
    assert!(matches!(
        FrameDriver::new(q, 10),
        Err(DriverError::InitializationFailure)
    ));
}

#[test]
fn initialization_rejects_bad_decay() {
    let mut p = Params::new(8, 8);
    p.env_compute_params.decay_den = 0;
    assert!(matches!(
        FrameDriver::new(p, 1),
        Err(DriverError::InitializationFailure)
    ));
    let mut q = Params::new(8, 8);
    q.env_compute_params.decay_num = q.env_compute_params.decay_den + 1;
    assert!(matches!(
        FrameDriver::new(q, 1),
        Err(DriverError::InitializationFailure)
    ));
}

#[test]
fn initialization_enters_running_at_tick_zero() {
    let d = small_driver();
    assert_eq!(d.state, DriverState::Running);
    assert_eq!(d.tick_count(), 0);
    assert_eq!(d.agents.population(), 20);
    for rows in [&d.env.fwd, &d.env.rev] {
        for row in rows.iter() {
            for cell in row {
                assert_eq!(cell.pheromone_level, 0);
            }
        }
    }
}

#[test]
fn population_is_invariant_across_ticks() {
    let mut d = small_driver();
    let before = d.agents.population();
    for _ in 0..64 {
        let frame = d.tick();
        assert!(frame.is_some());
        assert_eq!(d.agents.population(), before);
        assert_eq!(d.agents.fwd.len(), before);
        assert_eq!(d.agents.rev.len(), before);
    }
}

#[test]
fn roles_follow_tick_parity_for_a_thousand_ticks() {
    let mut d = small_driver();
    for _ in 0..1000 {
        let t = d.tick_count();
        let expected = if t % 2 == 0 { Role::Forward } else { Role::Reverse };
        let other = if t % 2 == 0 { Role::Reverse } else { Role::Forward };
        assert_eq!(d.agents.current_buffer(t), expected);
        assert_eq!(d.env.current_buffer(t), expected);
        assert_eq!(d.agents.next_buffer(t), other);
        assert_eq!(d.env.next_buffer(t), other);
        assert_ne!(d.agents.current_buffer(t), d.agents.next_buffer(t));
        d.tick();
        assert_eq!(d.tick_count(), t + 1);
    }
}

#[test]
fn resize_to_current_size_is_a_no_op() {
    let mut d = small_driver();
    d.tick();
    d.tick();
    let fwd_before = env_levels(&d.env, Role::Forward);
    let rev_before = env_levels(&d.env, Role::Reverse);
    let agents_before = d.agents.fwd.clone();
    let tick_before = d.tick_count();
    d.on_resize(8, 8);
    assert_eq!(d.state, DriverState::Running);
    assert_eq!(d.env.width, 8);
    assert_eq!(d.env.height, 8);
    assert_eq!(env_levels(&d.env, Role::Forward), fwd_before);
    assert_eq!(env_levels(&d.env, Role::Reverse), rev_before);
    assert_eq!(d.agents.fwd, agents_before);
    assert_eq!(d.tick_count(), tick_before);
}

#[test]
fn zero_size_resize_is_ignored() {
    let mut d = small_driver();
    d.tick();
    let fwd_before = env_levels(&d.env, Role::Forward);
    let agents_before = d.agents.fwd.clone();
    let tick_before = d.tick_count();
    d.on_resize(0, 500);
    d.on_resize(500, 0);
    d.on_resize(0, 0);
    assert_eq!(d.state, DriverState::Running);
    assert_eq!(d.env.width, 8);
    assert_eq!(d.env.height, 8);
    assert_eq!(d.params.width(), 8);
    assert_eq!(d.params.height(), 8);
    assert_eq!(env_levels(&d.env, Role::Forward), fwd_before);
    assert_eq!(d.agents.fwd, agents_before);
    assert_eq!(d.tick_count(), tick_before);
}

#[test]
fn oversized_resize_is_ignored() {
    let mut d = small_driver();
    d.tick();
    let tick_before = d.tick_count();
    d.on_resize(65536, 8);
    d.on_resize(8, 4_000_000);
    assert_eq!(d.params.width(), 8);
    assert_eq!(d.params.height(), 8);
    assert_eq!(d.env.width, 8);
    assert_eq!(d.env.height, 8);
    assert_eq!(d.tick_count(), tick_before);
}

#[test]
fn real_resize_reallocates_and_clamps() {
    let mut d = small_driver();
    d.agents = AgentStore::from_agents(vec![
        Agent { x: 7, y: 7, angle: 3, turn_speed: 0 },
        Agent { x: 1, y: 2, angle: 9, turn_speed: 0 },
    ]);
    d.tick();
    d.on_resize(4, 3);
    assert_eq!(d.state, DriverState::Running);
    assert_eq!(d.params.width(), 4);
    assert_eq!(d.params.height(), 3);
    assert_eq!(d.env.width, 4);
    assert_eq!(d.env.height, 3);
    for rows in [&d.env.fwd, &d.env.rev] {
        assert_eq!(rows.len(), 3);
        for row in rows.iter() {
            assert_eq!(row.len(), 4);
            for cell in row {
                assert_eq!(cell.pheromone_level, 0);
            }
        }
    }
    for a in &d.agents.fwd {
        assert!(a.x < 4);
        assert!(a.y < 3);
    }
    assert_eq!(d.agents.fwd[0], Agent { x: 3, y: 2, angle: 3, turn_speed: 0 });
    assert_eq!(d.agents.fwd[1], Agent { x: 1, y: 2, angle: 9, turn_speed: 0 });
}

#[test]
fn surface_loss_suspends_and_resize_recovers() {
    let mut d = small_driver();
    d.tick();
    d.on_device_error(DriverError::TransientPresentationLoss);
    assert_eq!(d.state, DriverState::Suspended(SuspendReason::SurfaceLost));
    assert!(d.tick().is_none());
    d.on_resize(8, 8);
    assert_eq!(d.state, DriverState::Running);
    assert!(d.tick().is_some());
}

#[test]
fn fatal_errors_terminate() {
    let mut d = small_driver();
    d.on_device_error(DriverError::ResourceExhaustion);
    assert_eq!(d.state, DriverState::Terminated);
    let t = d.tick_count();
    assert!(d.tick().is_none());
    assert_eq!(d.tick_count(), t);
    d.on_device_error(DriverError::UnspecifiedDeviceError);
    assert_eq!(d.state, DriverState::Terminated);
    d.on_resize(16, 16);
    assert_eq!(d.state, DriverState::Terminated);
}

#[test]
fn unspecified_error_only_skips_the_tick() {
    let mut d = small_driver();
    d.tick();
    let t = d.tick_count();
    d.on_device_error(DriverError::UnspecifiedDeviceError);
    assert_eq!(d.state, DriverState::Running);
    assert_eq!(d.tick_count(), t);
    assert!(d.tick().is_some());
}

#[test]
fn close_request_terminates() {
    let mut d = small_driver();
    let t = d.tick_count();
    d.on_close();
    assert_eq!(d.state, DriverState::Terminated);
    assert_eq!(d.tick_count(), t);
    assert!(d.tick().is_none());
}

#[test]
fn input_events_are_never_consumed() {
    let d = small_driver();
    assert!(!d.input_is_handled(&WindowSignal::CloseRequested));
    assert!(!d.input_is_handled(&WindowSignal::Resize(3, 4)));
    assert!(!d.input_is_handled(&WindowSignal::RedrawRequested));
}

#[test]
fn stationary_decay_scenario_on_large_field() {
    // Two hundred stationary agents, a thousand-by-thousand field
    // preloaded with one unit of intensity everywhere, deposits disabled,
    // decay 99/100: after one tick the mean intensity is 0.99 units.
    let mut p = Params::new(1000, 1000);
    p.agent_compute_params.step_size = 0;
    p.env_compute_params.decay_num = 99;
    p.env_compute_params.decay_den = 100;
    p.env_compute_params.deposit = 0;
    let agents: Vec<Agent> = (0u32..200)
        .map(|i| Agent { x: (i * 5) % 1000, y: (i * 7) % 1000, angle: i % 256, turn_speed: 0 })
        .collect();
    let mut d = FrameDriver {
        state: DriverState::Running,
        frame_num: 0,
        params: p,
        agents: AgentStore::from_agents(agents),
        env: EnvField::uniform(1000, 1000, INTENSITY_UNIT),
    };
    let frame = d.tick();
    assert!(frame.is_some());
    // Tick 0 wrote the reverse buffer.
    let total = d.env.total_intensity(Role::Reverse);
    let cells = 1000u128 * 1000;
    assert_eq!(total, cells * 990_000);
    let mean = total / cells;
    assert!(mean == 990_000, "mean intensity must be 0.99 units, got {mean}");
}

#[test]
fn single_agent_deposit_scenario() {
    // One agent, deterministic seeding, a deposit of one unit, no decay:
    // after one tick exactly one cell holds at least one unit and every
    // other cell remains zero.
    let mut p = Params::new(64, 64);
    p.agent_compute_params.step_size = 0;
    p.env_compute_params.decay_num = 1;
    p.env_compute_params.decay_den = 1;
    p.env_compute_params.deposit = INTENSITY_UNIT;
    let mut d = FrameDriver {
        state: DriverState::Running,
        frame_num: 0,
        params: p,
        agents: AgentStore::from_agents(vec![Agent { x: 5, y: 7, angle: 0, turn_speed: 0 }]),
        env: EnvField::initialize(64, 64),
    };
    d.tick();
    let written = env_levels(&d.env, Role::Reverse);
    let mut loaded = 0usize;
    for (y, row) in written.iter().enumerate() {
        for (x, &v) in row.iter().enumerate() {
            if (x, y) == (5, 7) {
                assert!(v >= INTENSITY_UNIT);
                loaded += 1;
            } else {
                assert_eq!(v, 0, "cell ({x}, {y}) must stay empty");
            }
        }
    }
    assert_eq!(loaded, 1);
}

#[test]
fn driver_tick_never_raises_total_without_deposits() {
    let mut p = Params::new(8, 8);
    p.env_compute_params.deposit = 0;
    let mut d = FrameDriver::new(p, 10).unwrap();
    d.env = EnvField::uniform(8, 8, 40_000);
    let mut prev = d.env.total_intensity(d.env.current_buffer(0));
    for _ in 0..8 {
        let t = d.tick_count();
        let read_role = d.env.current_buffer(t);
        assert_eq!(d.env.total_intensity(read_role), prev);
        d.tick();
        let written_role = d.env.current_buffer(t + 1);
        let now = d.env.total_intensity(written_role);
        assert!(now < prev, "decay below one must strictly shrink a nonzero field");
        prev = now;
    }
}

#[test]
fn tick_reads_current_and_writes_next() {
    // Buffer-role disjointness observed at runtime: the buffer role read
    // by tick 0 comes out of the tick byte-for-byte unchanged.
    let mut d = small_driver();
    d.env = EnvField::uniform(8, 8, 123_456);
    let read_before = env_levels(&d.env, Role::Forward);
    let agents_before = d.agents.fwd.clone();
    d.tick();
    assert_eq!(env_levels(&d.env, Role::Forward), read_before);
    assert_eq!(d.agents.fwd, agents_before);
    assert_ne!(env_levels(&d.env, Role::Reverse), read_before);
}
