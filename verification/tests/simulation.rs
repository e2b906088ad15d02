//! The flock: initialization, determinism, the steering rules and the
//! speed clamp, exercised through whole ticks.

use boid::config::Config;
use boid::flock::{Boid, Boids};
use boid::fp::SCALE;
use boid::vec3::Vec3;

fn speed_sq(v: &Vec3) -> i128 {
    let x = v.x as i128;
    let y = v.y as i128;
    let z = v.z as i128;
    x * x + y * y + z * z
}

#[test]
fn new_flock_is_motionless_at_origin() {
    let sim = Boids::new(Config::default());
    assert_eq!(sim.boids.len(), 100);
    for b in sim.boids.iter() {
        assert_eq!(b.position, Vec3 { x: 0, y: 0, z: 0 });
        assert_eq!(b.velocity, Vec3 { x: 0, y: 0, z: 0 });
    }
}

#[test]
fn init_scatters_within_documented_ranges() {
    let mut sim = Boids::new(Config::default());
    sim.init(7);
    for b in sim.boids.iter() {
        assert!(b.position.x.abs() <= SCALE);
        assert!(b.position.y.abs() <= SCALE);
        assert!(b.position.z.abs() <= SCALE);
        assert!(b.velocity.x.abs() <= 6553);
        assert!(b.velocity.y.abs() <= 6553);
        assert!(b.velocity.z.abs() <= 6553);
    }
}

#[test]
fn init_from_bytes_maps_bytes_affinely() {
    let mut cfg = Config::default();
    cfg.flock_size = 2;
    let mut sim = Boids::new(cfg);
    // Agent 0: position bytes 0, 128, 255; velocity bytes 255, 128, 0.
    // Agent 1: all bytes 64.
    let bytes: Vec<u8> = vec![
        0, 255, 128, 128, 255, 0, // agent 0, interleaved p, v per coordinate
        64, 64, 64, 64, 64, 64, // agent 1
    ];
    sim.init_from_bytes(&bytes);
    // Position coordinate: (b - 128) * 512; velocity: (b - 128) * 65536 / 1280.
    assert_eq!(sim.boids[0].position, Vec3 { x: -65536, y: 0, z: 65024 });
    assert_eq!(sim.boids[0].velocity, Vec3 { x: 6502, y: 0, z: -6553 });
    assert_eq!(sim.boids[1].position, Vec3 { x: -32768, y: -32768, z: -32768 });
    assert_eq!(sim.boids[1].velocity, Vec3 { x: -3276, y: -3276, z: -3276 });
}

#[test]
fn same_seed_same_flock_bit_for_bit() {
    let mut a = Boids::new(Config::default());
    let mut b = Boids::new(Config::default());
    a.init(42);
    b.init(42);
    for _ in 0..5 {
        a.update();
        b.update();
    }
    for (x, y) in a.boids.iter().zip(b.boids.iter()) {
        assert_eq!(x.position, y.position);
        assert_eq!(x.velocity, y.velocity);
    }
}

#[test]
fn speeds_stay_clamped_every_tick() {
    let cfg = Config::default();
    let lower = (cfg.min_speed as i128) * (cfg.min_speed as i128) - 6 * cfg.min_speed as i128;
    let upper = 4 * (cfg.max_speed as i128) * (cfg.max_speed as i128);
    let mut sim = Boids::new(cfg);
    sim.init(3);
    for _ in 0..10 {
        sim.update();
        for b in sim.boids.iter() {
            let s = speed_sq(&b.velocity);
            assert!(s >= lower, "speed fell below the clamp: {}", s);
            assert!(s <= upper, "speed rose above the clamp: {}", s);
        }
    }
}

#[test]
fn single_agent_at_origin_feels_no_force() {
    // Flock of one, at the origin with zero velocity: every rule
    // contributes zero, so only the speed clamp acts — the zero velocity is
    // raised to the minimum speed along the positive x axis.
    let mut cfg = Config::default();
    cfg.flock_size = 1;
    let mut sim = Boids::new(cfg);
    sim.update();
    assert_eq!(sim.boids[0].velocity, Vec3 { x: cfg.min_speed, y: 0, z: 0 });
    assert_eq!(sim.boids[0].position, Vec3 { x: cfg.min_speed, y: 0, z: 0 });
}

#[test]
fn boundary_rule_pulls_back_toward_origin() {
    // An agent at distance 2 from the origin with zero velocity: the
    // boundary scalar is -boundary_force * (2 - 1) / 2, truncated, and acts
    // along the position vector of length 2.  With a blend weight of one
    // the velocity after one tick is exactly the boundary contribution.
    let mut cfg = Config::default();
    cfg.flock_size = 1;
    cfg.blend = SCALE;
    let mut sim = Boids::new(cfg);
    sim.boids[0].position = Vec3 { x: 2 * SCALE, y: 0, z: 0 };
    sim.update();
    // Scalar: (65536 - 131072) * 655 / 131072 = -327 (boundary_force / 2,
    // truncated); applied along (131072, 0, 0): 131072 * -327 / 65536.
    assert_eq!(sim.boids[0].velocity, Vec3 { x: -654, y: 0, z: 0 });
    assert_eq!(sim.boids[0].position, Vec3 { x: 131072 - 654, y: 0, z: 0 });
}

#[test]
fn inside_unit_ball_boundary_is_silent() {
    let mut cfg = Config::default();
    cfg.flock_size = 1;
    let mut sim = Boids::new(cfg);
    sim.boids[0].position = Vec3 { x: SCALE / 2, y: 0, z: 0 };
    sim.boids[0].velocity = Vec3 { x: 500, y: 0, z: 0 };
    sim.update();
    // No neighbors, no boundary force, speed already in range: the agent
    // drifts unchanged.
    assert_eq!(sim.boids[0].velocity, Vec3 { x: 500, y: 0, z: 0 });
    assert_eq!(sim.boids[0].position, Vec3 { x: SCALE / 2 + 500, y: 0, z: 0 });
}

#[test]
fn cohesion_draws_two_agents_toward_their_midpoint() {
    // Two agents 0.1 apart with zero velocity; only cohesion acts (the
    // other gains are zero, the blend weight is one).  After one tick both
    // have moved toward the midpoint at 3277.
    let mut cfg = Config::default();
    cfg.flock_size = 2;
    cfg.separation_force = 0;
    cfg.alignment_force = 0;
    cfg.boundary_force = 0;
    cfg.blend = SCALE;
    let mut sim = Boids::new(cfg);
    sim.boids[0].position = Vec3 { x: 0, y: 0, z: 0 };
    sim.boids[1].position = Vec3 { x: 6554, y: 0, z: 0 };
    sim.update();
    // Cohesion on agent 0: centroid 6554, offset +6554, gain 328/65536
    // gives +32; raised to the minimum speed 328.  Mirrored for agent 1.
    assert_eq!(sim.boids[0].velocity, Vec3 { x: 328, y: 0, z: 0 });
    assert_eq!(sim.boids[1].velocity, Vec3 { x: -328, y: 0, z: 0 });
    assert_eq!(sim.boids[0].position, Vec3 { x: 328, y: 0, z: 0 });
    assert_eq!(sim.boids[1].position, Vec3 { x: 6554 - 328, y: 0, z: 0 });
    assert!(sim.boids[0].position.x > 0 && sim.boids[0].position.x < 3277);
    assert!(sim.boids[1].position.x > 3277 && sim.boids[1].position.x < 6554);
}

#[test]
fn separation_pushes_close_agents_apart() {
    // Two agents very close; only separation acts.  Each is pushed away
    // from the other along their offset.
    let mut cfg = Config::default();
    cfg.flock_size = 2;
    cfg.cohesion_force = 0;
    cfg.alignment_force = 0;
    cfg.boundary_force = 0;
    cfg.blend = SCALE;
    let mut sim = Boids::new(cfg);
    sim.boids[0].position = Vec3 { x: 0, y: 0, z: 0 };
    sim.boids[1].position = Vec3 { x: 1000, y: 0, z: 0 };
    sim.update();
    assert!(sim.boids[0].velocity.x < 0, "agent 0 should flee left");
    assert!(sim.boids[1].velocity.x > 0, "agent 1 should flee right");
    assert!(sim.boids[0].position.x < 0);
    assert!(sim.boids[1].position.x > 1000);
}

#[test]
fn alignment_steers_toward_neighbor_velocity() {
    // Two agents close together, one moving up, one moving down, with only
    // alignment acting: each velocity is pulled toward the other's.
    let mut cfg = Config::default();
    cfg.flock_size = 2;
    cfg.cohesion_force = 0;
    cfg.separation_force = 0;
    cfg.boundary_force = 0;
    cfg.alignment_wide = true;
    cfg.blend = SCALE;
    let mut sim = Boids::new(cfg);
    sim.boids[0].position = Vec3 { x: 0, y: 0, z: 0 };
    sim.boids[1].position = Vec3 { x: 1000, y: 0, z: 0 };
    sim.boids[0].velocity = Vec3 { x: 0, y: 1000, z: 0 };
    sim.boids[1].velocity = Vec3 { x: 0, y: -1000, z: 0 };
    sim.update();
    assert!(sim.boids[0].velocity.y < 1000, "agent 0 pulled downward");
    assert!(sim.boids[1].velocity.y > -1000, "agent 1 pulled upward");
}

#[test]
fn two_dimensional_flock_keeps_z_at_zero() {
    let mut cfg = Config::default();
    cfg.dimension = 2;
    cfg.flock_size = 10;
    let mut sim = Boids::new(cfg);
    sim.init(11);
    for _ in 0..5 {
        sim.update();
    }
    for b in sim.boids.iter() {
        assert_eq!(b.position.z, 0);
        assert_eq!(b.velocity.z, 0);
    }
}

#[test]
fn default_agent_is_zeroed() {
    let b = Boid::default();
    assert_eq!(b.position, Vec3 { x: 0, y: 0, z: 0 });
    assert_eq!(b.velocity, Vec3 { x: 0, y: 0, z: 0 });
}
