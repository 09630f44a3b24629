use playing_with_particles::body::{Body, Color, Vec3};
use playing_with_particles::gravity::{acceleration_of, accelerations, pull_of, Accel};
use playing_with_particles::integrator::{step, StepError};
use playing_with_particles::root::isqrt;

const WHITE: Color = Color { r: 255, g: 255, b: 255, a: 255 };

fn body(position: Vec3, velocity: Vec3, mass: u64) -> Body {
    Body { position, velocity, mass, radius: 1, color: WHITE }
}

fn at(x: i64, y: i64, z: i64, mass: u64) -> Body {
    body(Vec3::new(x, y, z), Vec3::new(0, 0, 0), mass)
}

#[test]
fn isqrt_rounds_down() {
    assert_eq!(isqrt(0), 0);
    assert_eq!(isqrt(1), 1);
    assert_eq!(isqrt(15), 3);
    assert_eq!(isqrt(16), 4);
    assert_eq!(isqrt(17), 4);
    assert_eq!(isqrt(u128::MAX), u64::MAX as u128);
}

#[test]
fn pull_of_one_unit_mass_at_one_kilometre() {
    // 1e15 kg at 1 km pulls with G * 1e15 / 1e6 = 0.066743 m/s^2.
    let bodies = vec![at(0, 0, 0, 1), at(1_000_000, 0, 0, 1)];
    let p = pull_of(&bodies, 0, 1).unwrap();
    assert_eq!(p, Accel { x: 66_743_000, y: 0, z: 0 });
    let q = pull_of(&bodies, 1, 0).unwrap();
    assert_eq!(q, Accel { x: -66_743_000, y: 0, z: 0 });
    assert_eq!(pull_of(&bodies, 0, 0).unwrap(), Accel::zero());
}

#[test]
fn pull_splits_into_components() {
    // A 3-4-5 triangle: distance 5 km, strength G * 1e15 / 25e12.
    let bodies = vec![at(0, 0, 0, 1), at(3_000_000, 4_000_000, 0, 1)];
    let g: i128 = 66_743_000_000_000_000_000 / 25_000_000_000_000;
    let p = pull_of(&bodies, 0, 1).unwrap();
    assert_eq!(p.x, g * 3_000_000 / 5_000_000);
    assert_eq!(p.y, g * 4_000_000 / 5_000_000);
    assert_eq!(p.z, 0);
}

#[test]
fn coincident_bodies_exert_no_pull() {
    let bodies = vec![at(5, 5, 5, 10), at(5, 5, 5, 20)];
    assert_eq!(acceleration_of(&bodies, 0).unwrap(), Accel::zero());
    assert_eq!(acceleration_of(&bodies, 1).unwrap(), Accel::zero());
}

#[test]
fn acceleration_sums_over_other_bodies() {
    // Two equal masses at equal distance on either side cancel.
    let bodies = vec![at(0, 0, 0, 7), at(-1_000_000, 0, 0, 3), at(1_000_000, 0, 0, 3)];
    let a = acceleration_of(&bodies, 0).unwrap();
    assert_eq!(a, Accel::zero());
    let b = acceleration_of(&bodies, 1).unwrap();
    // 7 units at 1 km plus 3 units at 2 km.
    let expected = 7 * 66_743_000 + (3 * 66_743_000_000_000_000_000 / 4_000_000_000_000) * 2_000_000 / 2_000_000;
    assert_eq!(b.x, expected);
}

#[test]
fn two_body_symmetry() {
    let bodies = vec![
        at(0, 0, 0, 1_989_000_000_000_000),
        at(149_597_870_000_000, 12_345_678, -9_876_543_210, 5_972_000_000),
    ];
    let acc = accelerations(&bodies).unwrap();
    let m0 = bodies[0].mass as i128;
    let m1 = bodies[1].mass as i128;
    let bound = 2 * m0.max(m1);
    for (a0, a1) in [(acc[0].x, acc[1].x), (acc[0].y, acc[1].y), (acc[0].z, acc[1].z)] {
        assert!((m0 * a0 + m1 * a1).abs() < bound);
    }
    assert!(acc[0].x > 0);
    assert!(acc[1].x < 0);
}

#[test]
fn zero_step_leaves_bodies_unchanged() {
    let mut bodies = playing_with_particles::presets::solar_system();
    let before = bodies.clone();
    assert_eq!(step(&mut bodies, 0, 31_536_000), Ok(()));
    assert_eq!(bodies, before);
    assert_eq!(step(&mut bodies, 16_667, 0), Ok(()));
    assert_eq!(bodies, before);
}

#[test]
fn isolated_body_moves_by_its_velocity() {
    let mut bodies = vec![body(Vec3::new(10, -20, 30), Vec3::new(1_000_000, -2_500_000, 0), 99)];
    assert_eq!(acceleration_of(&bodies, 0).unwrap(), Accel::zero());
    // 1 m/s and -2.5 m/s for 2 s: +2000 mm and -5000 mm.
    assert_eq!(step(&mut bodies, 1_000_000, 2), Ok(()));
    assert_eq!(bodies[0].velocity, Vec3::new(1_000_000, -2_500_000, 0));
    assert_eq!(bodies[0].position, Vec3::new(2_010, -5_020, 30));
}

#[test]
fn euler_updates_velocity_before_position() {
    // Pull of 66_743_000 nm/s^2 for 1 s: velocity gains 66_743 um/s, then
    // the position moves by the new velocity: 66 mm (rounded toward zero).
    let mut bodies = vec![at(0, 0, 0, 1), at(1_000_000, 0, 0, 1)];
    assert_eq!(step(&mut bodies, 1_000_000, 1), Ok(()));
    assert_eq!(bodies[0].velocity, Vec3::new(66_743, 0, 0));
    assert_eq!(bodies[0].position, Vec3::new(66, 0, 0));
    assert_eq!(bodies[1].velocity, Vec3::new(-66_743, 0, 0));
    assert_eq!(bodies[1].position, Vec3::new(1_000_000 - 66, 0, 0));
    assert_eq!(bodies[0].mass, 1);
}

#[test]
fn simultaneous_update_uses_pre_step_positions() {
    let start = vec![
        at(0, 0, 0, 1_000_000),
        at(1_000_000_000, 0, 0, 1_000_000),
        at(2_000_000_000, 500_000_000, 0, 1_000_000),
    ];
    let dt: u64 = 1_000_000_000;
    let acc = accelerations(&start).unwrap();
    let mut bodies = start.clone();
    assert_eq!(step(&mut bodies, dt, 1), Ok(()));
    for i in 0..3 {
        let v = start[i].velocity.x as i128 + acc[i].x * dt as i128 / 1_000_000_000;
        assert_eq!(bodies[i].velocity.x as i128, v);
        let p = start[i].position.x as i128 + v * dt as i128 / 1_000_000_000;
        assert_eq!(bodies[i].position.x as i128, p);
    }
    // A sequential update, which moves body 0 before pulling body 1,
    // would give body 1 another velocity.
    let mut sequential = start.clone();
    let a0 = acceleration_of(&sequential, 0).unwrap();
    let v0 = (a0.x * dt as i128 / 1_000_000_000) as i64;
    sequential[0].velocity.x = v0;
    sequential[0].position.x += (v0 as i128 * dt as i128 / 1_000_000_000) as i64;
    let a1 = acceleration_of(&sequential, 1).unwrap();
    let v1 = (a1.x * dt as i128 / 1_000_000_000) as i64;
    assert_ne!(v1, bodies[1].velocity.x);
}

#[test]
fn known_two_body_orbit() {
    let mut bodies = vec![
        at(0, 0, 0, 1_989_000_000_000_000),
        body(Vec3::new(149_597_870_000_000, 0, 0), Vec3::new(0, 0, 29_780_000_000), 5_972_000_000),
    ];
    let start = bodies[1].position;
    // One year (3.1536e7 s) in steps of 10 minutes.
    let dt: u64 = 600_000_000;
    for _ in 0..52_560 {
        assert_eq!(step(&mut bodies, dt, 1), Ok(()));
    }
    let dx = (bodies[1].position.x - start.x) as f64;
    let dy = (bodies[1].position.y - start.y) as f64;
    let dz = (bodies[1].position.z - start.z) as f64;
    let off = (dx * dx + dy * dy + dz * dz).sqrt();
    // Within 1% of the orbit's radius.
    assert!(off < 0.01 * 149_597_870_000_000.0, "off by {} mm", off);
    // Half a year later it was on the far side.
    let mut half = vec![
        at(0, 0, 0, 1_989_000_000_000_000),
        body(Vec3::new(149_597_870_000_000, 0, 0), Vec3::new(0, 0, 29_780_000_000), 5_972_000_000),
    ];
    for _ in 0..26_280 {
        assert_eq!(step(&mut half, dt, 1), Ok(()));
    }
    assert!(half[1].position.x < -140_000_000_000_000);
}

#[test]
fn overflowing_pull_is_refused_and_changes_nothing() {
    let mut bodies = vec![at(0, 0, 0, u64::MAX), at(1, 0, 0, u64::MAX)];
    let before = bodies.clone();
    assert!(pull_of(&bodies, 0, 1).is_none());
    assert!(accelerations(&bodies).is_none());
    assert_eq!(step(&mut bodies, 1, 1), Err(StepError::Overflow));
    assert_eq!(bodies, before);
}

#[test]
fn far_apart_bodies_overflow_the_distance() {
    let bodies = vec![at(i64::MIN, i64::MIN, i64::MIN, 1), at(i64::MAX, i64::MAX, i64::MAX, 1)];
    assert!(pull_of(&bodies, 0, 1).is_none());
    assert!(acceleration_of(&bodies, 1).is_none());
}

#[test]
fn overflowing_time_step_is_refused() {
    let mut bodies = vec![at(0, 0, 0, 1)];
    let before = bodies.clone();
    assert_eq!(step(&mut bodies, u64::MAX, 2), Err(StepError::Overflow));
    assert_eq!(bodies, before);
}

#[test]
fn overflowing_position_is_refused() {
    let mut bodies = vec![body(Vec3::new(i64::MAX - 10, 0, 0), Vec3::new(1_000_000, 0, 0), 1)];
    let before = bodies.clone();
    assert_eq!(step(&mut bodies, 1_000_000, 1), Err(StepError::Overflow));
    assert_eq!(bodies, before);
}

#[test]
fn step_of_a_body_ignores_the_velocities_of_others() {
    let a = vec![at(0, 0, 0, 1_000_000), at(1_000_000_000, 0, 0, 2_000_000)];
    let mut b = a.clone();
    b[1].velocity = Vec3::new(123_456_789, -5, 99_000_000);
    let (mut a2, mut b2) = (a.clone(), b.clone());
    assert_eq!(step(&mut a2, 1_000_000_000, 3), Ok(()));
    assert_eq!(step(&mut b2, 1_000_000_000, 3), Ok(()));
    assert_eq!(a2[0], b2[0]);
    assert_ne!(a2[1], b2[1]);
}
