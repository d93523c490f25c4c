use rand::rngs::StdRng;
use rand::{Rng, SeedableRng};
use trap_collisions::{
    box_of, build_boxes, cell_coord, collide_pair, integrate, isqrt, resolve_box, step, summarize,
    BoxOutcome, CollisionParameters, CollisionsTracker, ConfigError, FrameStats, ParticleStore,
    StepError, TrackerTable, Vec3, render_stats,
};

fn params(n: u64, w: u64, limit: u64) -> CollisionParameters {
    CollisionParameters::new(1, n, w, 1, limit, 1).unwrap()
}

fn v(x: i64, y: i64, z: i64) -> Vec3 {
    Vec3::new(x, y, z)
}

#[test]
fn config_accepts_positive_values() {
    let p = CollisionParameters::new(400, 1000, 1000, 2, 10000, 1).unwrap();
    assert_eq!(p.macroparticle, 400);
    assert_eq!(p.box_number, 1000);
    assert_eq!(p.collision_limit, 10000);
}

#[test]
fn config_errors() {
    assert_eq!(CollisionParameters::new(0, 10, 1, 1, 1, 1), Err(ConfigError::NonPositiveMacroparticle));
    assert_eq!(CollisionParameters::new(1, 0, 1, 1, 1, 1), Err(ConfigError::ZeroBoxNumber));
    assert_eq!(CollisionParameters::new(1, 10, 0, 1, 1, 1), Err(ConfigError::NonPositiveBoxWidth));
    assert_eq!(CollisionParameters::new(1, 10, 1, 0, 1, 1), Err(ConfigError::NonPositiveSigma));
    assert_eq!(CollisionParameters::new(1, 10, 1, 1, 1, 0), Err(ConfigError::NonPositiveTimestep));
    assert_eq!(CollisionParameters::new(1, 3_000_000, 1, 1, 1, 1), Err(ConfigError::OutOfRange));
    assert_eq!(CollisionParameters::new(1, 10, 1 << 32, 1, 1, 1), Err(ConfigError::OutOfRange));
}

#[test]
fn box_ids_of_a_ten_box_grid() {
    let p = params(10, 2, 10);
    assert_eq!(box_of(&v(0, 0, 0), &p), Some(555));
    assert_eq!(box_of(&v(1, 0, 0), &p), Some(555));
    assert_eq!(box_of(&v(2, 0, 0), &p), Some(556));
    assert_eq!(box_of(&v(9, 0, 0), &p), Some(559));
    assert_eq!(box_of(&v(-9, 0, 0), &p), Some(550));
    assert_eq!(box_of(&v(11, 0, 0), &p), None);
    assert_eq!(box_of(&v(-9, -9, -9), &p), Some(0));
}

#[test]
fn boundary_belongs_to_positive_side() {
    let p = params(10, 2, 10);
    assert_eq!(cell_coord(-1, &p), Some(4));
    assert_eq!(cell_coord(0, &p), Some(5));
    assert_eq!(cell_coord(-10, &p), Some(0));
    assert_eq!(cell_coord(10, &p), None);
    assert_eq!(cell_coord(-11, &p), None);
}

#[test]
fn boxes_partition_particles_inside_grid() {
    let p = params(10, 2, 10);
    let positions = vec![v(0, 0, 0), v(100, 0, 0), v(1, 1, 1), v(2, 0, 0), v(0, 0, 1), v(-100, 0, 0)];
    let part = build_boxes(&positions, &p);
    assert_eq!(part.ids.len(), part.members.len());
    assert_eq!(part.ids, vec![555, 556]);
    assert_eq!(part.members, vec![vec![0, 2, 4], vec![3]]);
    let mut seen: Vec<usize> = part.members.iter().flatten().copied().collect();
    seen.sort();
    assert_eq!(seen, vec![0, 2, 3, 4]);
}

#[test]
fn empty_store_has_no_boxes() {
    let part = build_boxes(&Vec::new(), &params(10, 2, 10));
    assert!(part.ids.is_empty());
    assert!(part.members.is_empty());
}

fn momentum(a: Vec3, b: Vec3) -> (i128, i128, i128) {
    (
        a.x as i128 + b.x as i128,
        a.y as i128 + b.y as i128,
        a.z as i128 + b.z as i128,
    )
}

fn energy(a: Vec3, b: Vec3) -> i128 {
    let sq = |u: Vec3| (u.x as i128).pow(2) + (u.y as i128).pow(2) + (u.z as i128).pow(2);
    sq(a) + sq(b)
}

#[test]
fn collision_conserves_momentum_and_energy() {
    let pairs = [
        (v(3, -7, 11), v(-5, 2, 9)),
        (v(1, 0, 0), v(-1, 0, 0)),
        (v(100, 200, 301), v(-4, 17, 0)),
        (v(i64::MAX, i64::MIN, 5), v(i64::MAX, 0, -5)),
    ];
    for (a, b) in pairs {
        for c in 0..48u64 {
            let (ra, rb) = collide_pair(a, b, c);
            assert_eq!(momentum(ra, rb), momentum(a, b));
            assert_eq!(energy(ra, rb), energy(a, b));
        }
    }
}

#[test]
fn collision_turns_relative_velocity() {
    // sign pattern 1 flips the x component of the relative velocity
    assert_eq!(collide_pair(v(1, 0, 0), v(-1, 0, 0), 1), (v(-1, 0, 0), v(1, 0, 0)));
    // permutation 2 swaps x and y: relative velocity (2, 0, 0) becomes (0, 2, 0)
    assert_eq!(collide_pair(v(1, 0, 0), v(-1, 0, 0), 16), (v(0, 1, 0), v(0, -1, 0)));
    // the identity keeps both velocities
    assert_eq!(collide_pair(v(3, 4, 5), v(6, 7, 8), 0), (v(3, 4, 5), v(6, 7, 8)));
}

#[test]
fn integer_square_root() {
    assert_eq!(isqrt(0), 0);
    assert_eq!(isqrt(1), 1);
    assert_eq!(isqrt(15), 3);
    assert_eq!(isqrt(16), 4);
    assert_eq!(isqrt(u128::MAX), u64::MAX);
}

#[test]
fn sparse_boxes_yield_no_collision() {
    let p = CollisionParameters::new(1_000_000, 10, 1, 1_000_000, 1000, 1_000).unwrap();
    let mut rng = StdRng::seed_from_u64(7);
    let mut vels = vec![v(1000, 0, 0), v(-1000, 5, 0)];
    let before = vels.clone();
    let empty = resolve_box(&mut vels, &vec![], &p, &mut rng);
    assert_eq!(empty, BoxOutcome { particles: 0, collisions: 0, capped: false });
    let single = resolve_box(&mut vels, &vec![1], &p, &mut rng);
    assert_eq!(single, BoxOutcome { particles: 1, collisions: 0, capped: false });
    assert_eq!(vels, before);
}

#[test]
fn dense_box_is_capped_at_ceiling() {
    let p = CollisionParameters::new(1_000_000, 10, 1, 1_000_000, 10, 1_000).unwrap();
    let mut rng = StdRng::seed_from_u64(11);
    let mut vels: Vec<Vec3> = (0..1000).map(|i| v(1000 + i, -(i as i64), 3)).collect();
    let members: Vec<usize> = (0..1000).collect();
    for _ in 0..5 {
        let out = resolve_box(&mut vels, &members, &p, &mut rng);
        assert_eq!(out.particles, 1000);
        assert!(out.collisions <= 10);
        assert_eq!(out.collisions, 10);
        assert!(out.capped);
    }
}

#[test]
fn box_with_zero_speed_has_no_collision() {
    let p = params(10, 2, 100);
    let mut rng = StdRng::seed_from_u64(3);
    let mut vels = vec![v(0, 0, 0), v(1, 0, 0), v(0, 0, 0)];
    let out = resolve_box(&mut vels, &vec![0, 1, 2], &p, &mut rng);
    assert_eq!(out, BoxOutcome { particles: 3, collisions: 0, capped: false });
}

#[test]
fn two_particle_box_follows_poisson_of_mean_one() {
    // n = 2, speeds |v| = 2 give rate speeds isqrt(2) = 1 each, so the expected
    // count is 2 * 1 * 2 * 1 * 2 / 2^3 = 1.
    let p = CollisionParameters::new(1, 10, 2, 2, 200, 1).unwrap();
    let mut rng = StdRng::seed_from_u64(2024);
    let trials = 10_000;
    let mut zero = 0;
    let mut one = 0;
    for _ in 0..trials {
        let mut vels = vec![v(2, 0, 0), v(-2, 0, 0)];
        let out = resolve_box(&mut vels, &vec![0, 1], &p, &mut rng);
        assert!(!out.capped);
        match out.collisions {
            0 => zero += 1,
            1 => one += 1,
            _ => {}
        }
    }
    let f0 = zero as f64 / trials as f64;
    let f1 = one as f64 / trials as f64;
    let poisson = (-1.0f64).exp();
    assert!((f0 - poisson).abs() < 0.025, "zero fraction {}", f0);
    assert!((f1 - poisson).abs() < 0.025, "one fraction {}", f1);
}

#[test]
fn integrator_kicks_then_drifts_and_clears_forces() {
    let p = CollisionParameters::new(1, 10, 2, 1, 10, 3).unwrap();
    let mut store = ParticleStore::new(vec![v(10, 0, -4)], vec![v(1, 0, 2)], 2).unwrap();
    assert!(store.add_force(0, v(5, -5, 0)));
    assert_eq!(integrate(&mut store, &p), Ok(()));
    // kick: 1 + floor(15 / 2) = 8, 0 + floor(-15 / 2) = -8, 2 + 0 = 2
    assert_eq!(store.velocities, vec![v(8, -8, 2)]);
    // drift: x + v * dt
    assert_eq!(store.positions, vec![v(34, -24, 2)]);
    assert_eq!(store.forces, vec![v(0, 0, 0)]);
}

#[test]
fn integrator_refuses_overflow() {
    let p = CollisionParameters::new(1, 10, 2, 1, 10, 2).unwrap();
    let mut store = ParticleStore::new(vec![v(i64::MAX - 1, 0, 0)], vec![v(1, 0, 0)], 1).unwrap();
    assert_eq!(integrate(&mut store, &p), Err(StepError::OutOfRange));
    assert_eq!(store.positions, vec![v(i64::MAX - 1, 0, 0)]);
    assert_eq!(store.velocities, vec![v(1, 0, 0)]);
}

#[test]
fn store_rejects_mismatched_input() {
    assert!(ParticleStore::new(vec![v(0, 0, 0)], vec![], 1).is_none());
    assert!(ParticleStore::new(vec![v(0, 0, 0)], vec![v(0, 0, 0)], 0).is_none());
    let mut s = ParticleStore::new(vec![v(0, 0, 0)], vec![v(0, 0, 0)], 1).unwrap();
    assert!(!s.add_force(1, v(1, 1, 1)));
    assert!(s.add_force(0, v(i64::MAX, 0, 0)));
    assert!(!s.add_force(0, v(1, 0, 0)));
    assert_eq!(s.len(), 1);
}

#[test]
fn summary_counts_only_occupied_boxes() {
    let outs = vec![
        BoxOutcome { particles: 1, collisions: 0, capped: false },
        BoxOutcome { particles: 4, collisions: 3, capped: false },
        BoxOutcome { particles: 0, collisions: 0, capped: false },
        BoxOutcome { particles: 6, collisions: 10, capped: true },
    ];
    let s = summarize(&outs);
    assert_eq!(s, FrameStats { collisions: 13, occupied_boxes: 2, occupied_particles: 10, capped_boxes: 1 });
    assert_eq!(s.mean_atoms_hundredths(3), 1500);
    assert_eq!(summarize(&vec![]).occupied_boxes, 0);
}

fn cloud(seed: u64) -> ParticleStore {
    let mut rng = StdRng::seed_from_u64(seed);
    let n = 400;
    let pos = (0..n).map(|_| v(rng.gen_range(-20..20), rng.gen_range(-20..20), rng.gen_range(-20..20))).collect();
    let vel = (0..n).map(|_| v(rng.gen_range(-50..50), rng.gen_range(-50..50), rng.gen_range(-50..50))).collect();
    ParticleStore::new(pos, vel, 87).unwrap()
}

fn run(seed: u64, frames: usize) -> (Vec<FrameStats>, Vec<Vec3>) {
    let p = CollisionParameters::new(50, 8, 10, 3, 20, 1).unwrap();
    let mut store = cloud(1);
    let mut rng = StdRng::seed_from_u64(seed);
    let mut tracker = CollisionsTracker::new();
    for _ in 0..frames {
        step(&mut store, &p, &mut rng, &mut tracker).unwrap();
    }
    (tracker.records, store.velocities)
}

#[test]
fn same_seed_gives_same_tracker() {
    let a = run(42, 20);
    let b = run(42, 20);
    assert_eq!(a, b);
    assert_eq!(a.0.len(), 20);
    assert!(a.0.iter().any(|s| s.collisions > 0));
}

#[test]
fn frame_conserves_total_momentum_without_force() {
    let p = CollisionParameters::new(50, 8, 10, 3, 20, 1).unwrap();
    let mut store = cloud(5);
    let total = |s: &ParticleStore| {
        s.velocities.iter().fold((0i128, 0i128, 0i128, 0i128), |acc, u| {
            (
                acc.0 + u.x as i128,
                acc.1 + u.y as i128,
                acc.2 + u.z as i128,
                acc.3 + (u.x as i128).pow(2) + (u.y as i128).pow(2) + (u.z as i128).pow(2),
            )
        })
    };
    let before = total(&store);
    let mut rng = StdRng::seed_from_u64(9);
    let mut tracker = CollisionsTracker::new();
    let stats = step(&mut store, &p, &mut rng, &mut tracker).unwrap();
    assert!(stats.collisions > 0);
    assert_eq!(total(&store), before);
    assert_eq!(tracker.len(), 1);
    let table = tracker.table(50);
    assert_eq!(table.collisions, vec![stats.collisions]);
    assert_eq!(table.occupied_boxes, vec![stats.occupied_boxes]);
}

#[test]
fn failed_step_changes_nothing() {
    let p = CollisionParameters::new(1, 10, 2, 1, 10, 2).unwrap();
    let mut store = ParticleStore::new(vec![v(i64::MAX, 0, 0)], vec![v(1, 0, 0)], 1).unwrap();
    let mut rng = StdRng::seed_from_u64(0);
    let mut tracker = CollisionsTracker::new();
    assert_eq!(step(&mut store, &p, &mut rng, &mut tracker), Err(StepError::OutOfRange));
    assert_eq!(tracker.len(), 0);
    assert_eq!(store.positions, vec![v(i64::MAX, 0, 0)]);
}

#[test]
fn stats_record_text_layout() {
    let table = TrackerTable {
        collisions: vec![0, 12, 305],
        mean_atoms_hundredths: vec![200, 100005, 7],
        occupied_boxes: vec![1, 40, 9],
    };
    let text = render_stats(50, &table);
    assert_eq!(
        String::from_utf8(text).unwrap(),
        "50\r\n0 12 305\r\n2.00 1000.05 0.07\r\n1 40 9\r\n"
    );
    let empty = TrackerTable { collisions: vec![], mean_atoms_hundredths: vec![], occupied_boxes: vec![] };
    assert_eq!(String::from_utf8(render_stats(-7, &empty)).unwrap(), "-7\r\n\r\n\r\n\r\n");
}

#[test]
fn mean_rounds_to_nearest_hundredth() {
    let s = FrameStats { collisions: 0, occupied_boxes: 3, occupied_particles: 7, capped_boxes: 0 };
    // 700 / 3 = 233.33...
    assert_eq!(s.mean_atoms_hundredths(1), 233);
    let t = FrameStats { collisions: 0, occupied_boxes: 3, occupied_particles: 8, capped_boxes: 0 };
    // 800 / 3 = 266.66...
    assert_eq!(t.mean_atoms_hundredths(1), 267);
}

#[test]
fn one_dense_box_frame_records_ceiling() {
    let p = CollisionParameters::new(1_000_000, 10, 100_000, 1_000_000, 10, 1).unwrap();
    let positions: Vec<Vec3> = (0..1000).map(|i| v(i % 7, i % 5, i % 3)).collect();
    let velocities: Vec<Vec3> = (0..1000).map(|i| v(1000 + i, i, 3)).collect();
    let mut store = ParticleStore::new(positions, velocities, 87).unwrap();
    let mut rng = StdRng::seed_from_u64(4);
    let mut tracker = CollisionsTracker::new();
    let stats = step(&mut store, &p, &mut rng, &mut tracker).unwrap();
    assert_eq!(stats.occupied_boxes, 1);
    assert_eq!(stats.occupied_particles, 1000);
    assert_eq!(stats.collisions, 10);
    assert_eq!(stats.capped_boxes, 1);
    let text = String::from_utf8(render_stats(0, &tracker.table(1))).unwrap();
    assert_eq!(text, "0\r\n10\r\n1000.00\r\n1\r\n");
}
