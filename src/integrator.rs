//! One explicit (forward) Euler step over the whole set of bodies.
use vstd::prelude::*;
use crate::body::{Body, Vec3, axis};
use crate::gravity::{
    Accel,
    TIME_DIVISOR,
    accel,
    accel_fits,
    accelerations,
    in_i128,
    in_i64,
    tdiv,
};

verus! {

/// Why a step was not taken.
#[derive(Clone, Copy, Debug, PartialEq, Eq, Structural)]
pub enum StepError {
    /// A value of the step does not fit in the integers that hold it.
    Overflow,
}

/// Velocity after a step of `dt` microseconds under acceleration `a`.
pub open spec fn euler_velocity(v: int, a: int, dt: int) -> int {
    v + tdiv(a * dt, TIME_DIVISOR as int)
}

/// Position after a step of `dt` microseconds: moved by the new velocity.
pub open spec fn euler_position(p: int, v: int, a: int, dt: int) -> int {
    p + tdiv(euler_velocity(v, a, dt) * dt, TIME_DIVISOR as int)
}

/// Whether one component of the update fits in its integers.
pub open spec fn euler_fits(p: int, v: int, a: int, dt: int) -> bool {
    &&& in_i128(a * dt)
    &&& in_i64(euler_velocity(v, a, dt))
    &&& in_i128(euler_velocity(v, a, dt) * dt)
    &&& in_i64(euler_position(p, v, a, dt))
}

/// Component `k` of the velocity of body `i` after a step of `dt`.
pub open spec fn velocity_after(bs: Seq<Body>, i: int, k: int, dt: int) -> int {
    euler_velocity(axis(bs[i].velocity, k), accel(bs, i, k), dt)
}

/// Component `k` of the position of body `i` after a step of `dt`.
pub open spec fn position_after(bs: Seq<Body>, i: int, k: int, dt: int) -> int {
    euler_position(axis(bs[i].position, k), axis(bs[i].velocity, k), accel(bs, i, k), dt)
}

pub open spec fn update_fits(bs: Seq<Body>, i: int, dt: int) -> bool {
    forall|k: int|
        0 <= k < 3 ==> #[trigger] euler_fits(
            axis(bs[i].position, k),
            axis(bs[i].velocity, k),
            accel(bs, i, k),
            dt,
        )
}

/// Body `i` after a step of `dt`: mass, radius and colour are kept.
pub open spec fn advanced(bs: Seq<Body>, i: int, dt: int) -> Body {
    Body {
        position: Vec3 {
            x: position_after(bs, i, 0, dt) as i64,
            y: position_after(bs, i, 1, dt) as i64,
            z: position_after(bs, i, 2, dt) as i64,
        },
        velocity: Vec3 {
            x: velocity_after(bs, i, 0, dt) as i64,
            y: velocity_after(bs, i, 1, dt) as i64,
            z: velocity_after(bs, i, 2, dt) as i64,
        },
        mass: bs[i].mass,
        radius: bs[i].radius,
        color: bs[i].color,
    }
}

/// Every body after a step of `dt`, each from the accelerations of the
/// positions before the step.
pub open spec fn stepped(bs: Seq<Body>, dt: int) -> Seq<Body> {
    Seq::new(bs.len(), |i: int| advanced(bs, i, dt))
}

/// Whether a step of `dt_wall` microseconds at `time_scale` can be taken in
/// machine integers.
pub open spec fn step_fits(bs: Seq<Body>, dt_wall: int, time_scale: int) -> bool {
    &&& dt_wall * time_scale <= u64::MAX
    &&& forall|i: int| 0 <= i < bs.len() ==> #[trigger] accel_fits(bs, i)
    &&& forall|i: int| 0 <= i < bs.len() ==> #[trigger] update_fits(bs, i, dt_wall * time_scale)
}

/// `a / TIME_DIVISOR`, rounded toward zero.
fn scale_down(a: i128) -> (r: i128)
    ensures
        r as int == tdiv(a as int, TIME_DIVISOR as int),
{
    if a >= 0 {
        ((a as u128) / (TIME_DIVISOR as u128)) as i128
    } else {
        let m: u128 = ((-(a + 1)) as u128) + 1;
        -((m / (TIME_DIVISOR as u128)) as i128)
    }
}

/// One component of the Euler update: the new position and velocity.
fn euler_axis(p: i64, v: i64, a: i128, dt: i128) -> (r: Option<(i64, i64)>)
    ensures
        r is Some <==> euler_fits(p as int, v as int, a as int, dt as int),
        r is Some ==> r == Some(
            (
                euler_position(p as int, v as int, a as int, dt as int) as i64,
                euler_velocity(v as int, a as int, dt as int) as i64,
            ),
        ),
{
    let dv = match a.checked_mul(dt) {
        Some(x) => scale_down(x),
        None => {
            return None;
        },
    };
    let nv = match (v as i128).checked_add(dv) {
        Some(x) => x,
        None => {
            return None;
        },
    };
    if nv < i64::MIN as i128 || nv > i64::MAX as i128 {
        return None;
    }
    let dp = match nv.checked_mul(dt) {
        Some(x) => scale_down(x),
        None => {
            return None;
        },
    };
    let np = match (p as i128).checked_add(dp) {
        Some(x) => x,
        None => {
            return None;
        },
    };
    if np < i64::MIN as i128 || np > i64::MAX as i128 {
        return None;
    }
    Some((np as i64, nv as i64))
}

/// Body `b` moved by one Euler step under acceleration `a`.
fn advance_body(b: &Body, a: &Accel, dt: i128) -> (r: Option<Body>)
    ensures
        r is Some <==> {
            &&& euler_fits(b.position.x as int, b.velocity.x as int, a.x as int, dt as int)
            &&& euler_fits(b.position.y as int, b.velocity.y as int, a.y as int, dt as int)
            &&& euler_fits(b.position.z as int, b.velocity.z as int, a.z as int, dt as int)
        },
        r is Some ==> r == Some(
            Body {
                position: Vec3 {
                    x: euler_position(b.position.x as int, b.velocity.x as int, a.x as int, dt as int) as i64,
                    y: euler_position(b.position.y as int, b.velocity.y as int, a.y as int, dt as int) as i64,
                    z: euler_position(b.position.z as int, b.velocity.z as int, a.z as int, dt as int) as i64,
                },
                velocity: Vec3 {
                    x: euler_velocity(b.velocity.x as int, a.x as int, dt as int) as i64,
                    y: euler_velocity(b.velocity.y as int, a.y as int, dt as int) as i64,
                    z: euler_velocity(b.velocity.z as int, a.z as int, dt as int) as i64,
                },
                mass: b.mass,
                radius: b.radius,
                color: b.color,
            },
        ),
{
    let x = euler_axis(b.position.x, b.velocity.x, a.x, dt);
    let y = euler_axis(b.position.y, b.velocity.y, a.y, dt);
    let z = euler_axis(b.position.z, b.velocity.z, a.z, dt);
    match (x, y, z) {
        (Some((px, vx)), Some((py, vy)), Some((pz, vz))) => Some(
            Body {
                position: Vec3 { x: px, y: py, z: pz },
                velocity: Vec3 { x: vx, y: vy, z: vz },
                mass: b.mass,
                radius: b.radius,
                color: b.color,
            },
        ),
        _ => None,
    }
}

/// Advances every body by one step of `dt_wall * time_scale` microseconds.
///
/// All accelerations are computed from the positions before the step; then
/// each velocity gains its acceleration times the step, and each position
/// its new velocity times the step. Where some value would not fit in
/// machine integers, no body is changed.
pub fn step(bodies: &mut Vec<Body>, dt_wall: u64, time_scale: u64) -> (r: Result<(), StepError>)
    ensures
        r is Ok <==> step_fits(old(bodies)@, dt_wall as int, time_scale as int),
        r is Ok ==> final(bodies)@ == stepped(old(bodies)@, dt_wall * time_scale),
        r is Err ==> final(bodies)@ == old(bodies)@,
{
    let ghost bs = bodies@;
    let dt: i128 = match dt_wall.checked_mul(time_scale) {
        Some(t) => t as i128,
        None => {
            return Err(StepError::Overflow);
        },
    };
    let acc = match accelerations(bodies) {
        Some(a) => a,
        None => {
            return Err(StepError::Overflow);
        },
    };
    let mut next: Vec<Body> = Vec::new();
    let mut i: usize = 0;
    while i < bodies.len()
        invariant
            bs == bodies@,
            dt == dt_wall * time_scale,
            acc.len() == bs.len(),
            forall|l: int|
                0 <= l < bs.len() ==> {
                    &&& #[trigger] acc[l].x as int == accel(bs, l, 0)
                    &&& acc[l].y as int == accel(bs, l, 1)
                    &&& acc[l].z as int == accel(bs, l, 2)
                },
            i <= bs.len(),
            next.len() == i,
            forall|l: int| 0 <= l < i ==> #[trigger] next[l] == advanced(bs, l, dt as int),
            forall|l: int| 0 <= l < i ==> #[trigger] update_fits(bs, l, dt as int),
        decreases bs.len() - i,
    {
        let ghost a = acc[i as int];
        assert(a.x == accel(bs, i as int, 0));
        match advance_body(&bodies[i], &acc[i], dt) {
            Some(b) => {
                assert(update_fits(bs, i as int, dt as int)) by {
                    assert forall|k: int| 0 <= k < 3 implies #[trigger] euler_fits(
                        axis(bs[i as int].position, k),
                        axis(bs[i as int].velocity, k),
                        accel(bs, i as int, k),
                        dt as int,
                    ) by {
                        if k == 0 {
                        } else if k == 1 {
                        } else {
                        }
                    }
                }
                next.push(b);
            },
            None => {
                assert(!update_fits(bs, i as int, dt as int)) by {
                    assert(!euler_fits(
                        axis(bs[i as int].position, 0),
                        axis(bs[i as int].velocity, 0),
                        accel(bs, i as int, 0),
                        dt as int,
                    ) || !euler_fits(
                        axis(bs[i as int].position, 1),
                        axis(bs[i as int].velocity, 1),
                        accel(bs, i as int, 1),
                        dt as int,
                    ) || !euler_fits(
                        axis(bs[i as int].position, 2),
                        axis(bs[i as int].velocity, 2),
                        accel(bs, i as int, 2),
                        dt as int,
                    ));
                }
                return Err(StepError::Overflow);
            },
        }
        i = i + 1;
    }
    assert(next@ =~= stepped(bs, dt as int));
    *bodies = next;
    Ok(())
}

} // verus!
