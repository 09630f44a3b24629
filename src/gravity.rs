//! The all-pairs force law and the explicit Euler step.
use vstd::prelude::*;
use crate::body::{Body, Vec3, axis};
use crate::root::{floor_sqrt, isqrt};

verus! {

/// An acceleration, in nanometres per second squared.
#[derive(Clone, Copy, Debug, PartialEq, Eq, Structural)]
pub struct Accel {
    pub x: i128,
    pub y: i128,
    pub z: i128,
}

impl Accel {
    pub fn zero() -> (r: Accel)
        ensures
            r == (Accel { x: 0, y: 0, z: 0 }),
    {
        Accel { x: 0, y: 0, z: 0 }
    }
}

/// Gravitational constant in the library's units: a body of mass `m` pulls
/// with `GRAV * m / d2` nanometres per second squared at squared distance
/// `d2` square millimetres (6.67430e-11 m^3 kg^-1 s^-2).
pub const GRAV: u128 = 66_743_000_000_000_000_000;

/// Divisor that brings (nm/s^2 times us) to um/s, and (um/s times us) to mm.
pub const TIME_DIVISOR: i128 = 1_000_000_000;

/// Division rounding toward zero, for positive `b`.
pub open spec fn tdiv(a: int, b: int) -> int {
    if a >= 0 {
        a / b
    } else {
        -((-a) / b)
    }
}

pub open spec fn abs(a: int) -> int {
    if a >= 0 {
        a
    } else {
        -a
    }
}

/// Offset of body `j` from body `i` along axis `k`.
pub open spec fn delta(bs: Seq<Body>, i: int, j: int, k: int) -> int {
    axis(bs[j].position, k) - axis(bs[i].position, k)
}

/// Squared distance between bodies `i` and `j`.
pub open spec fn dist2(bs: Seq<Body>, i: int, j: int) -> int {
    delta(bs, i, j, 0) * delta(bs, i, j, 0) + delta(bs, i, j, 1) * delta(bs, i, j, 1) + delta(
        bs,
        i,
        j,
        2,
    ) * delta(bs, i, j, 2)
}

/// Strength of the pull of body `j` felt at body `i`, before it is split
/// into components.
pub open spec fn strength(bs: Seq<Body>, i: int, j: int) -> int {
    (GRAV * bs[j].mass) / dist2(bs, i, j)
}

/// Size of component `k` of the pull of `j` on `i`.
pub open spec fn pull_size(bs: Seq<Body>, i: int, j: int, k: int) -> int {
    (strength(bs, i, j) * abs(delta(bs, i, j, k))) / floor_sqrt(dist2(bs, i, j))
}

/// Component `k` of the acceleration of body `i` caused by body `j`:
/// `G * m_j * (p_j - p_i) / |p_j - p_i|^3`, rounded toward zero. A body does
/// not pull on itself, and a body at the very same position exerts no pull.
pub open spec fn pull(bs: Seq<Body>, i: int, j: int, k: int) -> int {
    if i == j || dist2(bs, i, j) == 0 {
        0
    } else {
        tdiv(strength(bs, i, j) * delta(bs, i, j, k), floor_sqrt(dist2(bs, i, j)))
    }
}

/// Whether the pull of `j` on `i` can be computed in 128-bit integers.
pub open spec fn pull_fits(bs: Seq<Body>, i: int, j: int) -> bool {
    i == j || (dist2(bs, i, j) <= u128::MAX && (dist2(bs, i, j) == 0 || (GRAV * bs[j].mass
        <= u128::MAX && forall|k: int|
        0 <= k < 3 ==> strength(bs, i, j) * abs(delta(bs, i, j, k)) <= u128::MAX
            && pull_size(bs, i, j, k) <= i128::MAX)))
}

/// Absolute value of `a` as an unsigned integer.
fn magnitude(a: i128) -> (r: u128)
    requires
        a > i128::MIN,
    ensures
        r as int == abs(a as int),
{
    if a >= 0 {
        a as u128
    } else {
        (-a) as u128
    }
}

/// `g * delta / d` rounded toward zero, when it fits.
fn component(g: u128, delta: i128, d: u128) -> (r: Option<i128>)
    requires
        d > 0,
        delta > i128::MIN,
    ensures
        r is Some <==> g * abs(delta as int) <= u128::MAX && (g * abs(delta as int)) / (d as int)
            <= i128::MAX,
        r is Some ==> r->0 as int == tdiv(g * delta, d as int),
{
    let size = magnitude(delta);
    let prod = match g.checked_mul(size) {
        Some(p) => p,
        None => {
            return None;
        },
    };
    let q = prod / d;
    if q > i128::MAX as u128 {
        return None;
    }
    proof {
        if delta < 0 {
            assert(g * delta == -(g * abs(delta as int))) by (nonlinear_arith)
                requires
                    delta < 0,
            ;
            assert(g * abs(delta as int) >= 0) by (nonlinear_arith)
                requires
                    g >= 0,
                    delta < 0,
            ;
        } else {
            assert(g * delta >= 0) by (nonlinear_arith)
                requires
                    g >= 0,
                    delta >= 0,
            ;
        }
    }
    if delta >= 0 {
        Some(q as i128)
    } else {
        Some(-(q as i128))
    }
}

/// The three components of the pull of body `j` on body `i`, or `None`
/// where they do not fit in 128-bit integers.
pub fn pull_of(bodies: &Vec<Body>, i: usize, j: usize) -> (r: Option<Accel>)
    requires
        i < bodies.len(),
        j < bodies.len(),
    ensures
        r is Some <==> pull_fits(bodies@, i as int, j as int),
        r is Some ==> {
            &&& r->0.x as int == pull(bodies@, i as int, j as int, 0)
            &&& r->0.y as int == pull(bodies@, i as int, j as int, 1)
            &&& r->0.z as int == pull(bodies@, i as int, j as int, 2)
        },
{
    if i == j {
        return Some(Accel::zero());
    }
    let ghost bs = bodies@;
    let a = bodies[i].position;
    let b = bodies[j].position;
    let dx: i128 = b.x as i128 - a.x as i128;
    let dy: i128 = b.y as i128 - a.y as i128;
    let dz: i128 = b.z as i128 - a.z as i128;
    assert(dx == delta(bs, i as int, j as int, 0));
    assert(dy == delta(bs, i as int, j as int, 1));
    assert(dz == delta(bs, i as int, j as int, 2));
    let mx = magnitude(dx);
    let my = magnitude(dy);
    let mz = magnitude(dz);
    proof {
        assert(mx * mx == dx * dx && mx * mx < 0x1_0000_0000_0000_0000_0000_0000_0000_0000int)
            by (nonlinear_arith)
            requires
                mx == abs(dx as int),
                mx < 0x1_0000_0000_0000_0000int,
        ;
        assert(my * my == dy * dy && my * my < 0x1_0000_0000_0000_0000_0000_0000_0000_0000int)
            by (nonlinear_arith)
            requires
                my == abs(dy as int),
                my < 0x1_0000_0000_0000_0000int,
        ;
        assert(mz * mz == dz * dz && mz * mz < 0x1_0000_0000_0000_0000_0000_0000_0000_0000int)
            by (nonlinear_arith)
            requires
                mz == abs(dz as int),
                mz < 0x1_0000_0000_0000_0000int,
        ;
        assert(mz * mz >= 0) by (nonlinear_arith);
    }
    let sxy = match (mx * mx).checked_add(my * my) {
        Some(s) => s,
        None => {
            return None;
        },
    };
    let d2 = match sxy.checked_add(mz * mz) {
        Some(s) => s,
        None => {
            return None;
        },
    };
    assert(d2 == dist2(bs, i as int, j as int));
    if d2 == 0 {
        return Some(Accel::zero());
    }
    let gm = match GRAV.checked_mul(bodies[j].mass as u128) {
        Some(p) => p,
        None => {
            return None;
        },
    };
    let g = gm / d2;
    assert(g == strength(bs, i as int, j as int));
    let d = isqrt(d2);
    assert(d > 0) by {
        if d == 0 {
            assert(d2 < (d + 1) * (d + 1));
        }
    }
    let cx = component(g, dx, d);
    let cy = component(g, dy, d);
    let cz = component(g, dz, d);
    match (cx, cy, cz) {
        (Some(x), Some(y), Some(z)) => {
            assert(pull_fits(bs, i as int, j as int)) by {
                assert forall|k: int| 0 <= k < 3 implies strength(bs, i as int, j as int) * abs(
                    delta(bs, i as int, j as int, k),
                ) <= u128::MAX && pull_size(bs, i as int, j as int, k) <= i128::MAX by {
                    if k == 0 {
                    } else if k == 1 {
                    } else {
                    }
                }
            }
            Some(Accel { x, y, z })
        },
        _ => {
            assert(!pull_fits(bs, i as int, j as int)) by {
                if cx is None {
                    assert(pull_size(bs, i as int, j as int, 0) == (g * abs(dx as int)) / (
                    d as int));
                } else if cy is None {
                    assert(pull_size(bs, i as int, j as int, 1) == (g * abs(dy as int)) / (
                    d as int));
                } else {
                    assert(pull_size(bs, i as int, j as int, 2) == (g * abs(dz as int)) / (
                    d as int));
                }
            }
            None
        },
    }
}

pub open spec fn in_i128(a: int) -> bool {
    i128::MIN <= a <= i128::MAX
}

pub open spec fn in_i64(a: int) -> bool {
    i64::MIN <= a <= i64::MAX
}

/// Component `k` of the sum of the pulls on body `i` of bodies `0..n`.
pub open spec fn accel_upto(bs: Seq<Body>, i: int, n: int, k: int) -> int
    decreases n,
{
    if n <= 0 {
        0
    } else {
        accel_upto(bs, i, n - 1, k) + pull(bs, i, n - 1, k)
    }
}

/// Component `k` of the net acceleration of body `i`: the sum over every
/// other body `j` of `G * m_j * (p_j - p_i) / |p_j - p_i|^3`.
pub open spec fn accel(bs: Seq<Body>, i: int, k: int) -> int {
    accel_upto(bs, i, bs.len() as int, k)
}

/// Whether the acceleration of body `i` can be summed in 128-bit integers.
pub open spec fn accel_fits(bs: Seq<Body>, i: int) -> bool {
    forall|j: int|
        0 <= j < bs.len() ==> pull_fits(bs, i, j) && forall|k: int|
            0 <= k < 3 ==> #[trigger] in_i128(accel_upto(bs, i, j + 1, k))
}

/// The net acceleration of body `i`, or `None` where it does not fit in
/// 128-bit integers.
pub fn acceleration_of(bodies: &Vec<Body>, i: usize) -> (r: Option<Accel>)
    requires
        i < bodies.len(),
    ensures
        r is Some <==> accel_fits(bodies@, i as int),
        r is Some ==> {
            &&& r->0.x as int == accel(bodies@, i as int, 0)
            &&& r->0.y as int == accel(bodies@, i as int, 1)
            &&& r->0.z as int == accel(bodies@, i as int, 2)
        },
{
    let ghost bs = bodies@;
    let mut acc = Accel::zero();
    let mut j: usize = 0;
    while j < bodies.len()
        invariant
            bs == bodies@,
            i < bodies.len(),
            j <= bodies.len(),
            acc.x as int == accel_upto(bs, i as int, j as int, 0),
            acc.y as int == accel_upto(bs, i as int, j as int, 1),
            acc.z as int == accel_upto(bs, i as int, j as int, 2),
            forall|l: int|
                0 <= l < j ==> pull_fits(bs, i as int, l) && forall|k: int|
                    0 <= k < 3 ==> #[trigger] in_i128(accel_upto(bs, i as int, l + 1, k)),
        decreases bodies.len() - j,
    {
        let p = match pull_of(bodies, i, j) {
            Some(p) => p,
            None => {
                return None;
            },
        };
        let x = acc.x.checked_add(p.x);
        let y = acc.y.checked_add(p.y);
        let z = acc.z.checked_add(p.z);
        match (x, y, z) {
            (Some(x), Some(y), Some(z)) => {
                acc = Accel { x, y, z };
            },
            _ => {
                assert(!in_i128(accel_upto(bs, i as int, j + 1, 0)) || !in_i128(
                    accel_upto(bs, i as int, j + 1, 1),
                ) || !in_i128(accel_upto(bs, i as int, j + 1, 2)));
                return None;
            },
        }
        proof {
            assert forall|k: int| 0 <= k < 3 implies #[trigger] in_i128(
                accel_upto(bs, i as int, j + 1, k),
            ) by {
                if k == 0 {
                } else if k == 1 {
                } else {
                }
            }
            assert(pull_fits(bs, i as int, j as int));
            assert forall|l: int| 0 <= l < j + 1 implies pull_fits(bs, i as int, l) && forall|k: int|
                0 <= k < 3 ==> #[trigger] in_i128(accel_upto(bs, i as int, l + 1, k)) by {
                if l < j {
                }
            }
        }
        j = j + 1;
    }
    Some(acc)
}

/// The net acceleration of every body, all taken from the same positions,
/// or `None` where one does not fit in 128-bit integers.
pub fn accelerations(bodies: &Vec<Body>) -> (r: Option<Vec<Accel>>)
    ensures
        r is Some <==> forall|i: int| 0 <= i < bodies.len() ==> accel_fits(bodies@, i),
        r is Some ==> r->0.len() == bodies.len() && forall|i: int|
            0 <= i < bodies.len() ==> {
                &&& #[trigger] r->0[i].x as int == accel(bodies@, i, 0)
                &&& r->0[i].y as int == accel(bodies@, i, 1)
                &&& r->0[i].z as int == accel(bodies@, i, 2)
            },
{
    let mut out: Vec<Accel> = Vec::new();
    let mut i: usize = 0;
    while i < bodies.len()
        invariant
            i <= bodies.len(),
            out.len() == i,
            forall|l: int| 0 <= l < i ==> accel_fits(bodies@, l),
            forall|l: int|
                0 <= l < i ==> {
                    &&& #[trigger] out[l].x as int == accel(bodies@, l, 0)
                    &&& out[l].y as int == accel(bodies@, l, 1)
                    &&& out[l].z as int == accel(bodies@, l, 2)
                },
        decreases bodies.len() - i,
    {
        match acceleration_of(bodies, i) {
            Some(a) => {
                out.push(a);
            },
            None => {
                return None;
            },
        }
        i = i + 1;
    }
    Some(out)
}

} // verus!
