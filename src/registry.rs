//! The set of bodies of one simulation run.
use vstd::prelude::*;
use crate::body::{Body, Color, Vec3};
use crate::integrator::{StepError, advanced, step, step_fits, stepped};

verus! {

/// Largest size of a bound handed to the random source.
pub const DRAW_LIMIT: i64 = 0x10_0000_0000_0000;

/// Bounds of the randomized preset, in the library's units.
pub const MASS_MIN: u64 = 1_000_000_000_000_000;
pub const MASS_MAX: u64 = 2_000_000_000_000_000;
pub const RADIUS_MIN: u64 = 500_000_000;
pub const RADIUS_MAX: u64 = 1_000_000_000;
/// Horizontal (x and y) position bound: 2e11 m.
pub const SPREAD_XY: i64 = 200_000_000_000_000;
/// Vertical (z) position bound: 1e10 m.
pub const SPREAD_Z: i64 = 10_000_000_000_000;
/// Velocity component bound: 3e4 m/s.
pub const SPEED_MAX: i64 = 30_000_000_000;

/// Relies on macroquad::rand::gen_range for `i64`: it returns
/// `low + (high - low) * u` truncated, for a `u` in [0, 1) drawn from the
/// global generator; with both bounds within 2^52 in size every step is exact
/// or rounds inside [low, high].
#[verifier::external_body]
fn draw(low: i64, high: i64) -> (r: i64)
    requires
        -DRAW_LIMIT <= low <= high <= DRAW_LIMIT,
    ensures
        low <= r <= high,
{
    macroquad::rand::gen_range::<i64>(low, high)
}

/// A body within the bounds of the randomized preset.
pub open spec fn in_random_bounds(b: Body) -> bool {
    &&& MASS_MIN <= b.mass <= MASS_MAX
    &&& RADIUS_MIN <= b.radius <= RADIUS_MAX
    &&& -SPREAD_XY <= b.position.x <= SPREAD_XY
    &&& -SPREAD_XY <= b.position.y <= SPREAD_XY
    &&& -SPREAD_Z <= b.position.z <= SPREAD_Z
    &&& -SPEED_MAX <= b.velocity.x <= SPEED_MAX
    &&& -SPEED_MAX <= b.velocity.y <= SPEED_MAX
    &&& -SPEED_MAX <= b.velocity.z <= SPEED_MAX
}

/// A body whose mass, radius, position and velocity components are each
/// drawn uniformly from the bounds of the randomized preset.
pub fn random_body() -> (r: Body)
    ensures
        in_random_bounds(r),
        r.wf(),
{
    let mass = draw(MASS_MIN as i64, MASS_MAX as i64) as u64;
    let radius = draw(RADIUS_MIN as i64, RADIUS_MAX as i64) as u64;
    let position = Vec3 {
        x: draw(-SPREAD_XY, SPREAD_XY),
        y: draw(-SPREAD_XY, SPREAD_XY),
        z: draw(-SPREAD_Z, SPREAD_Z),
    };
    let velocity = Vec3 {
        x: draw(-SPEED_MAX, SPEED_MAX),
        y: draw(-SPEED_MAX, SPEED_MAX),
        z: draw(-SPEED_MAX, SPEED_MAX),
    };
    let color = Color {
        r: draw(0, 255) as u8,
        g: draw(0, 255) as u8,
        b: draw(0, 255) as u8,
        a: 255,
    };
    Body { position, velocity, mass, radius, color }
}

/// `count` bodies of the randomized preset.
pub fn random_bodies(count: usize) -> (r: Vec<Body>)
    ensures
        r.len() == count,
        forall|i: int| 0 <= i < count ==> #[trigger] in_random_bounds(r[i]),
        forall|i: int| 0 <= i < count ==> #[trigger] r[i].wf(),
{
    let mut out: Vec<Body> = Vec::new();
    let mut i: usize = 0;
    while i < count
        invariant
            i <= count,
            out.len() == i,
            forall|l: int| 0 <= l < i ==> #[trigger] in_random_bounds(out[l]),
            forall|l: int| 0 <= l < i ==> #[trigger] out[l].wf(),
        decreases count - i,
    {
        out.push(random_body());
        i = i + 1;
    }
    out
}

/// The bodies of one simulation run, in a fixed order.
pub struct Registry {
    bodies: Vec<Body>,
}

impl View for Registry {
    type V = Seq<Body>;

    closed spec fn view(&self) -> Seq<Body> {
        self.bodies@
    }
}

/// Every body has positive mass.
pub open spec fn all_wf(bs: Seq<Body>) -> bool {
    forall|i: int| 0 <= i < bs.len() ==> #[trigger] bs[i].wf()
}

impl Registry {
    pub open spec fn wf(&self) -> bool {
        all_wf(self@)
    }

    /// A registry holding `bodies`.
    pub fn new(bodies: Vec<Body>) -> (r: Registry)
        requires
            all_wf(bodies@),
        ensures
            r@ == bodies@,
            r.wf(),
    {
        Registry { bodies }
    }

    /// A registry of `count` bodies of the randomized preset.
    pub fn random(count: usize) -> (r: Registry)
        ensures
            r@.len() == count,
            forall|i: int| 0 <= i < count ==> #[trigger] in_random_bounds(r@[i]),
            r.wf(),
    {
        Registry { bodies: random_bodies(count) }
    }

    /// The bodies, for reading.
    pub fn bodies(&self) -> (r: &Vec<Body>)
        ensures
            r@ == self@,
    {
        &self.bodies
    }

    /// Number of bodies.
    pub fn len(&self) -> (r: usize)
        ensures
            r == self@.len(),
    {
        self.bodies.len()
    }

    /// Replaces the whole set of bodies at once.
    pub fn replace(&mut self, bodies: Vec<Body>)
        requires
            all_wf(bodies@),
        ensures
            final(self)@ == bodies@,
            final(self).wf(),
    {
        self.bodies = bodies;
    }

    /// Replaces the whole set of bodies with `count` fresh bodies of the
    /// randomized preset.
    pub fn regenerate(&mut self, count: usize)
        ensures
            final(self)@.len() == count,
            forall|i: int| 0 <= i < count ==> #[trigger] in_random_bounds(final(self)@[i]),
            final(self).wf(),
    {
        let fresh = random_bodies(count);
        self.replace(fresh);
    }

    /// Advances every body by one step of `dt_wall * time_scale`
    /// microseconds (see `integrator::step`).
    pub fn step(&mut self, dt_wall: u64, time_scale: u64) -> (r: Result<(), StepError>)
        ensures
            r is Ok <==> step_fits(old(self)@, dt_wall as int, time_scale as int),
            r is Ok ==> final(self)@ == stepped(old(self)@, dt_wall * time_scale),
            r is Err ==> final(self)@ == old(self)@,
            old(self).wf() ==> final(self).wf(),
    {
        let r = step(&mut self.bodies, dt_wall, time_scale);
        proof {
            if r is Ok && old(self).wf() {
                assert forall|i: int| 0 <= i < self@.len() implies #[trigger] self@[i].wf() by {
                    assert(stepped(old(self)@, dt_wall * time_scale)[i] == advanced(
                        old(self)@,
                        i,
                        dt_wall * time_scale,
                    ));
                    assert(old(self)@[i].wf());
                }
            }
        }
        r
    }
}

} // verus!
