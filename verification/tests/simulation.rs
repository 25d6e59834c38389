use slime::agents::{agent_kernel, deposit_grid, texture_grid, Agent, AgentStore};
use slime::compositor::compose;
use slime::environment::{env_kernel, EnvCell, EnvField};
use slime::params::{Params, INTENSITY_CAP, INTENSITY_UNIT};
use slime::buffers::Role;

fn cell_rows(levels: &[&[u64]]) -> Vec<Vec<EnvCell>> {
    levels
        .iter()
        .map(|row| row.iter().map(|&v| EnvCell { pheromone_level: v }).collect())
        .collect()
}

fn zero_deposits(width: usize, height: usize) -> Vec<Vec<u64>> {
    vec![vec![0u64; width]; height]
}

fn uniform_cells(width: usize, height: usize, level: u64) -> Vec<Vec<EnvCell>> {
    vec![vec![EnvCell { pheromone_level: level }; width]; height]
}

fn grid_total(rows: &Vec<Vec<EnvCell>>) -> u128 {
    rows.iter()
        .map(|r| r.iter().map(|c| c.pheromone_level as u128).sum::<u128>())
        .sum()
}

#[test]
fn decay_halves_single_cell() {
    let read = cell_rows(&[&[1_000_000]]);
    let out = env_kernel(&read, &zero_deposits(1, 1), 1, 1, 1, 2);
    assert_eq!(out[0][0].pheromone_level, 500_000);
}

#[test]
fn diffusion_spreads_evenly_on_three_by_three_torus() {
    let read = cell_rows(&[&[0, 0, 0], &[0, 9_000, 0], &[0, 0, 0]]);
    let out = env_kernel(&read, &zero_deposits(3, 3), 3, 3, 1, 1);
    for row in &out {
        for cell in row {
            assert_eq!(cell.pheromone_level, 1_000);
        }
    }
}

#[test]
fn diffusion_preserves_uniform_field() {
    let read = cell_rows(&[&[700, 700], &[700, 700]]);
    let out = env_kernel(&read, &zero_deposits(2, 2), 2, 2, 1, 1);
    for row in &out {
        for cell in row {
            assert_eq!(cell.pheromone_level, 700);
        }
    }
}

#[test]
fn decay_monotone_until_below_tolerance() {
    // Decay monotonicity observed at runtime: with deposits disabled the
    // mean intensity strictly decreases tick over tick until it sinks
    // below a tolerance.
    let mut read = cell_rows(&[
        &[5_000, 0, 120_000, 3],
        &[0, 777, 0, 90_000],
        &[64, 0, 1_000_000, 0],
        &[12, 34, 56, 78],
    ]);
    let deposits = zero_deposits(4, 4);
    let mut prev = grid_total(&read);
    assert!(prev > 0);
    let tolerance = 16u128;
    let mut steps = 0u32;
    while prev >= tolerance {
        let out = env_kernel(&read, &deposits, 4, 4, 97, 100);
        let now = grid_total(&out);
        assert!(now < prev, "total must strictly decrease while nonzero");
        read = out;
        prev = now;
        steps += 1;
        assert!(steps < 10_000, "decay must reach the tolerance");
    }
}

#[test]
fn deposits_cap_at_intensity_cap() {
    let agents = vec![
        Agent { x: 2, y: 1, angle: 0, turn_speed: 0 },
        Agent { x: 2, y: 1, angle: 64, turn_speed: 0 },
    ];
    let d = deposit_grid(&agents, 4, 4, INTENSITY_CAP);
    assert_eq!(d[1][2], INTENSITY_CAP);
    assert_eq!(d[0][0], 0);
}

#[test]
fn deposits_are_order_independent() {
    let a = Agent { x: 1, y: 1, angle: 0, turn_speed: 0 };
    let b = Agent { x: 1, y: 1, angle: 32, turn_speed: 0 };
    let c = Agent { x: 0, y: 2, angle: 0, turn_speed: 0 };
    let one = deposit_grid(&vec![a, b, c], 3, 3, 500);
    let two = deposit_grid(&vec![c, b, a], 3, 3, 500);
    assert_eq!(one, two);
    assert_eq!(one[1][1], 1_000);
    assert_eq!(one[2][0], 500);
    assert_eq!(one[0][0], 0);
}

#[test]
fn texture_marks_exactly_occupied_cells() {
    let agents = vec![
        Agent { x: 0, y: 0, angle: 0, turn_speed: 0 },
        Agent { x: 2, y: 1, angle: 0, turn_speed: 0 },
        Agent { x: 2, y: 1, angle: 128, turn_speed: 0 },
    ];
    let t = texture_grid(&agents, 3, 2);
    assert!(t[0][0]);
    assert!(t[1][2]);
    assert!(!t[0][1]);
    assert!(!t[0][2]);
    assert!(!t[1][0]);
    assert!(!t[1][1]);
}

#[test]
fn stationary_agents_keep_position_and_heading_on_flat_field() {
    let mut p = Params::new(8, 8);
    p.agent_compute_params.step_size = 0;
    let read = vec![Agent { x: 3, y: 4, angle: 77, turn_speed: 0 }];
    let env = uniform_cells(8, 8, 50);
    let out = agent_kernel(&read, &env, &p);
    assert_eq!(out.len(), 1);
    assert_eq!(out[0], read[0]);
}

#[test]
fn movement_wraps_at_field_edge() {
    let mut p = Params::new(8, 8);
    p.agent_compute_params.step_size = 1;
    // Heading 128 lies in the fifth octant: straight toward negative x.
    let read = vec![Agent { x: 0, y: 5, angle: 128, turn_speed: 0 }];
    let env = uniform_cells(8, 8, 0);
    let out = agent_kernel(&read, &env, &p);
    assert_eq!(out[0].x, 7);
    assert_eq!(out[0].y, 5);
    assert_eq!(out[0].angle, 128);
}

#[test]
fn agent_turns_toward_stronger_trail() {
    let mut p = Params::new(16, 16);
    p.agent_compute_params.step_size = 0;
    p.agent_compute_params.sensor_offset = 2;
    p.agent_compute_params.turn_speed = 16;
    // Heading 0 looks toward positive x; the left sensor (one octant
    // counter-clockwise) reads cell (x + 2, y + 2).
    let mut rows = vec![vec![0u64; 16]; 16];
    rows[7][7] = 800_000;
    let env: Vec<Vec<EnvCell>> = rows
        .iter()
        .map(|r| r.iter().map(|&v| EnvCell { pheromone_level: v }).collect())
        .collect();
    let read = vec![Agent { x: 5, y: 5, angle: 0, turn_speed: 0 }];
    let out = agent_kernel(&read, &env, &p);
    assert_eq!(out[0].angle, 16);
}

#[test]
fn agent_count_is_preserved_by_kernel() {
    let p = Params::new(32, 32);
    let read: Vec<Agent> = (0u32..500)
        .map(|i| Agent { x: i % 32, y: (i / 32) % 32, angle: i % 256, turn_speed: 0 })
        .collect();
    let env = uniform_cells(32, 32, 0);
    let out = agent_kernel(&read, &env, &p);
    assert_eq!(out.len(), 500);
}

#[test]
fn environment_initialize_zero_fills_both_roles() {
    let f = EnvField::initialize(5, 3);
    assert_eq!(f.width, 5);
    assert_eq!(f.height, 3);
    for rows in [&f.fwd, &f.rev] {
        assert_eq!(rows.len(), 3);
        for row in rows.iter() {
            assert_eq!(row.len(), 5);
            for cell in row {
                assert_eq!(cell.pheromone_level, 0);
            }
        }
    }
}

#[test]
fn total_intensity_sums_the_grid() {
    let f = EnvField::uniform(4, 4, 250);
    assert_eq!(f.total_intensity(Role::Forward), 16 * 250);
    assert_eq!(f.total_intensity(Role::Reverse), 16 * 250);
}

#[test]
fn store_initialize_seeds_within_bounds() {
    let store = AgentStore::initialize(50, 10, 6);
    assert_eq!(store.population(), 50);
    assert_eq!(store.fwd.len(), 50);
    assert_eq!(store.rev.len(), 50);
    for (a, b) in store.fwd.iter().zip(store.rev.iter()) {
        assert_eq!(a, b);
        assert!(a.x < 10);
        assert!(a.y < 6);
        assert!(a.angle < 256);
        assert_eq!(a.turn_speed, 0);
    }
}

#[test]
fn store_initialize_in_unit_field_pins_position() {
    // In a one-by-one field the only admissible position is the origin:
    // this fails if the random draw ever leaves the requested range.
    let store = AgentStore::initialize(32, 1, 1);
    for a in &store.fwd {
        assert_eq!(a.x, 0);
        assert_eq!(a.y, 0);
        assert!(a.angle < 256);
    }
}

#[test]
fn compositor_draws_agents_over_trail() {
    let p = Params::new(2, 2);
    let env = cell_rows(&[&[0, INTENSITY_UNIT], &[INTENSITY_UNIT / 2, 0]]);
    let tex = vec![vec![false, false], vec![false, true]];
    let frame = compose(&env, &tex, &p);
    assert_eq!(frame.width, 2);
    assert_eq!(frame.height, 2);
    // Empty trail: black, opaque.
    assert_eq!(frame.pixels[0][0], 0x0000_00FF);
    // Full-scale trail: white.
    assert_eq!(frame.pixels[0][1], 0xFFFF_FFFF);
    // Half-scale trail: mid grey, 127 in each channel.
    assert_eq!(frame.pixels[1][0], 127 * 0x0101_0100 + 0xFF);
    // An agent replaces whatever trail lies under it.
    assert_eq!(frame.pixels[1][1], 0xFFFF_FFFF);
}

#[test]
fn compositor_clamps_overbright_trail() {
    let p = Params::new(1, 1);
    let env = cell_rows(&[&[INTENSITY_UNIT * 40]]);
    let tex = vec![vec![false]];
    let frame = compose(&env, &tex, &p);
    assert_eq!(frame.pixels[0][0], 0xFFFF_FFFF);
}

#[test]
fn params_new_defaults() {
    let p = Params::new(640, 480);
    assert_eq!(p.width(), 640);
    assert_eq!(p.height(), 480);
    assert_eq!(p.agent_compute_params.dimensions, [640, 480]);
    assert_eq!(p.env_compute_params.decay_num, 97);
    assert_eq!(p.env_compute_params.decay_den, 100);
    assert_eq!(p.env_compute_params.deposit, INTENSITY_UNIT);
    assert_eq!(p.env_render_params.trail_scale, INTENSITY_UNIT);
    assert_eq!(p.agent_render_params.agent_shade, 255);
}
