use playing_with_particles::body::{Body, Color, Vec3};
use playing_with_particles::integrator::step;
use playing_with_particles::presets::{solar_system, SUN_MASS};
use playing_with_particles::registry::{
    random_bodies, random_body, Registry, MASS_MAX, MASS_MIN, RADIUS_MAX, RADIUS_MIN, SPEED_MAX,
    SPREAD_XY, SPREAD_Z,
};

fn in_bounds(b: &Body) -> bool {
    (MASS_MIN..=MASS_MAX).contains(&b.mass)
        && (RADIUS_MIN..=RADIUS_MAX).contains(&b.radius)
        && (-SPREAD_XY..=SPREAD_XY).contains(&b.position.x)
        && (-SPREAD_XY..=SPREAD_XY).contains(&b.position.y)
        && (-SPREAD_Z..=SPREAD_Z).contains(&b.position.z)
        && (-SPEED_MAX..=SPEED_MAX).contains(&b.velocity.x)
        && (-SPEED_MAX..=SPEED_MAX).contains(&b.velocity.y)
        && (-SPEED_MAX..=SPEED_MAX).contains(&b.velocity.z)
}

#[test]
fn randomized_preset_bounds() {
    let bodies = random_bodies(200);
    assert_eq!(bodies.len(), 200);
    assert!(bodies.iter().all(in_bounds));
    assert!(in_bounds(&random_body()));
    // The bounds are in SI: masses of 1e30 to 2e30 kg.
    assert_eq!(MASS_MIN, 1_000_000_000_000_000);
    assert_eq!(SPREAD_XY, 200_000_000_000 * 1_000);
}

#[test]
fn randomized_preset_varies() {
    let bodies = random_bodies(20);
    let first = bodies[0];
    assert!(bodies.iter().any(|b| b.position.x != first.position.x));
    assert!(bodies.iter().any(|b| b.mass != first.mass));
    assert!(bodies.iter().any(|b| b.position.x != -SPREAD_XY));
}

#[test]
fn wholesale_replace_on_regenerate() {
    let mut reg = Registry::solar_system();
    assert_eq!(reg.len(), 10);
    let old: Vec<Body> = reg.bodies().clone();
    reg.regenerate(3);
    assert_eq!(reg.len(), 3);
    assert!(reg.bodies().iter().all(in_bounds));
    assert!(reg.bodies().iter().all(|b| !old.contains(b)));
    reg.regenerate(0);
    assert_eq!(reg.len(), 0);
}

#[test]
fn replace_swaps_the_whole_set() {
    let mut reg = Registry::random(4);
    let fresh = vec![Body {
        position: Vec3::new(1, 2, 3),
        velocity: Vec3::new(4, 5, 6),
        mass: 7,
        radius: 8,
        color: Color { r: 1, g: 2, b: 3, a: 4 },
    }];
    reg.replace(fresh.clone());
    assert_eq!(reg.bodies(), &fresh);
}

#[test]
fn registry_step_matches_free_step() {
    let mut reg = Registry::solar_system();
    let mut bodies = solar_system();
    assert_eq!(reg.step(16_667, 86_400), Ok(()));
    assert_eq!(step(&mut bodies, 16_667, 86_400), Ok(()));
    assert_eq!(reg.bodies(), &bodies);
    assert_ne!(bodies, solar_system());
}

#[test]
fn solar_system_preset() {
    let bodies = solar_system();
    assert_eq!(bodies.len(), 10);
    assert_eq!(bodies[0].mass, SUN_MASS);
    assert_eq!(bodies[0].position, Vec3::new(0, 0, 0));
    assert_eq!(bodies[3].position, Vec3::new(149_597_870_000_000, 0, 0));
    assert_eq!(bodies[3].velocity, Vec3::new(0, 0, 29_780_000_000));
    assert!(bodies.iter().all(|b| b.mass > 0));
}
