//! Laws of the integrator, stated over the spec of one step.
use vstd::prelude::*;
use crate::body::{Body, axis};
use crate::gravity::{
    GRAV,
    TIME_DIVISOR,
    abs,
    accel,
    accel_upto,
    delta,
    dist2,
    pull,
    strength,
    tdiv,
};
use crate::root::{floor_sqrt, is_floor_sqrt, lemma_below_floor_sqrt, lemma_floor_sqrt_exists};
use vstd::arithmetic::div_mod::{lemma_fundamental_div_mod, lemma_mod_pos_bound};
use crate::integrator::{advanced, position_after, stepped, velocity_after};

verus! {

/// A step of zero length, because the wall-clock time or the time scale is
/// zero, leaves every body's position and velocity as they were.
pub proof fn lemma_zero_step(bs: Seq<Body>, dt_wall: int, time_scale: int)
    requires
        dt_wall == 0 || time_scale == 0,
    ensures
        stepped(bs, dt_wall * time_scale) == bs,
{
    assert(dt_wall * time_scale == 0);
    let s = stepped(bs, 0);
    assert forall|i: int| 0 <= i < bs.len() implies #[trigger] s[i] == bs[i] by {
        assert forall|k: int| 0 <= k < 3 implies velocity_after(bs, i, k, 0) == axis(
            bs[i].velocity,
            k,
        ) && position_after(bs, i, k, 0) == axis(bs[i].position, k) by {
            assert(accel(bs, i, k) * 0 == 0);
        }
        assert(velocity_after(bs, i, 0, 0) == axis(bs[i].velocity, 0));
        assert(velocity_after(bs, i, 1, 0) == axis(bs[i].velocity, 1));
        assert(velocity_after(bs, i, 2, 0) == axis(bs[i].velocity, 2));
        assert(position_after(bs, i, 0, 0) == axis(bs[i].position, 0));
        assert(position_after(bs, i, 1, 0) == axis(bs[i].position, 1));
        assert(position_after(bs, i, 2, 0) == axis(bs[i].position, 2));
    }
    assert(s =~= bs);
}

/// A body with no other bodies has no acceleration: its velocity stays, and
/// its position moves by that velocity times the step.
pub proof fn lemma_isolated_body(bs: Seq<Body>, dt: int)
    requires
        bs.len() == 1,
    ensures
        forall|k: int| 0 <= k < 3 ==> #[trigger] accel(bs, 0, k) == 0,
        stepped(bs, dt)[0].velocity == bs[0].velocity,
        forall|k: int|
            0 <= k < 3 ==> #[trigger] position_after(bs, 0, k, dt) == axis(bs[0].position, k) + tdiv(
                axis(bs[0].velocity, k) * dt,
                TIME_DIVISOR as int,
            ),
{
    assert forall|k: int| 0 <= k < 3 implies #[trigger] accel(bs, 0, k) == 0 by {
        assert(accel_upto(bs, 0, 0, k) == 0);
        assert(pull(bs, 0, 0, k) == 0);
    }
    assert(accel(bs, 0, 0) * dt == 0);
    assert(accel(bs, 0, 1) * dt == 0);
    assert(accel(bs, 0, 2) * dt == 0);
    assert forall|k: int| 0 <= k < 3 implies velocity_after(bs, 0, k, dt) == axis(bs[0].velocity, k)
        by {
        assert(accel(bs, 0, k) == 0);
        assert(accel(bs, 0, k) * dt == 0);
    }
    assert(velocity_after(bs, 0, 0, dt) == axis(bs[0].velocity, 0));
    assert(velocity_after(bs, 0, 1, dt) == axis(bs[0].velocity, 1));
    assert(velocity_after(bs, 0, 2, dt) == axis(bs[0].velocity, 2));
}

pub open spec fn max(a: int, b: int) -> int {
    if a >= b {
        a
    } else {
        b
    }
}

proof fn lemma_floor_div(a: int, b: int)
    requires
        a >= 0,
        b > 0,
    ensures
        (a / b) * b <= a < (a / b) * b + b,
        a / b >= 0,
{
    lemma_fundamental_div_mod(a, b);
    lemma_mod_pos_bound(a, b);
    assert(b * (a / b) == (a / b) * b) by (nonlinear_arith);
    assert(a / b >= 0) by (nonlinear_arith)
        requires
            (a / b) * b + b > a,
            a >= 0,
            b > 0,
    ;
}

/// The pull of a body of mass `ms` on one of mass `mo`, rounded twice and
/// weighted by `mo`, is within `2 * mo` of the exact force, scaled by
/// `d * dd`.
proof fn lemma_weighted_pull(kk: int, mo: int, ms: int, dd: int, d: int, u: int)
    requires
        kk >= 0,
        mo > 0,
        ms >= 0,
        dd > 0,
        d > 0,
        0 <= u <= d,
    ensures
        mo * ((((kk * ms) / dd) * u) / d) * (d * dd) <= kk * mo * ms * u,
        mo * ((((kk * ms) / dd) * u) / d) * (d * dd) > kk * mo * ms * u - 2 * mo * (d * dd),
{
    assert(kk * ms >= 0) by (nonlinear_arith)
        requires
            kk >= 0,
            ms >= 0,
    ;
    lemma_floor_div(kk * ms, dd);
    let c = (kk * ms) / dd;
    assert(c * u >= 0) by (nonlinear_arith)
        requires
            c >= 0,
            u >= 0,
    ;
    lemma_floor_div(c * u, d);
    let f = (c * u) / d;
    assert(mo * f * (d * dd) <= kk * mo * ms * u) by (nonlinear_arith)
        requires
            f * d <= c * u,
            c * dd <= kk * ms,
            mo > 0,
            dd > 0,
            u >= 0,
    ;
    assert(mo * f * (d * dd) > kk * mo * ms * u - 2 * mo * (d * dd)) by (nonlinear_arith)
        requires
            c * u < f * d + d,
            kk * ms < c * dd + dd,
            mo > 0,
            dd > 0,
            0 <= u <= d,
    ;
}

/// The pull of `j` on `i`, by the sign of the offset and the size of the
/// rounded quotient.
proof fn lemma_pull_sign(bs: Seq<Body>, i: int, j: int, k: int)
    requires
        0 <= i < bs.len(),
        0 <= j < bs.len(),
        i != j,
        dist2(bs, i, j) > 0,
    ensures
        ({
            let f = (strength(bs, i, j) * abs(delta(bs, i, j, k))) / floor_sqrt(dist2(bs, i, j));
            pull(bs, i, j, k) == if delta(bs, i, j, k) >= 0 {
                f
            } else {
                -f
            }
        }),
{
    let s = strength(bs, i, j);
    let e = delta(bs, i, j, k);
    assert(GRAV * bs[j].mass >= 0) by (nonlinear_arith)
        requires
            bs[j].mass >= 0,
    ;
    lemma_floor_div(GRAV * bs[j].mass, dist2(bs, i, j));
    let dd = dist2(bs, i, j);
    lemma_floor_sqrt_exists(dd);
    let d = floor_sqrt(dd);
    assert(d > 0) by {
        if d == 0 {
            assert((d + 1) * (d + 1) == 1) by (nonlinear_arith)
                requires
                    d == 0,
            ;
        }
    }
    if e >= 0 {
        assert(s * e >= 0) by (nonlinear_arith)
            requires
                s >= 0,
                e >= 0,
        ;
    } else {
        assert(-(s * e) == s * abs(e) && s * e <= 0) by (nonlinear_arith)
            requires
                s >= 0,
                e < 0,
                abs(e) == -e,
        ;
        if s * e == 0 {
            assert(s * abs(e) == 0);
        }
    }
}

/// In a system of two bodies the mass-weighted accelerations balance, as
/// Newton's third law has it: along each axis `m0 * a0 + m1 * a1` is zero up
/// to the rounding of the integer force law, smaller in size than twice the
/// larger mass.
pub proof fn lemma_two_body_balance(bs: Seq<Body>)
    requires
        bs.len() == 2,
        bs[0].wf(),
        bs[1].wf(),
    ensures
        forall|k: int|
            0 <= k < 3 ==> abs(
                bs[0].mass * #[trigger] accel(bs, 0, k) + bs[1].mass * accel(bs, 1, k),
            ) < 2 * max(bs[0].mass as int, bs[1].mass as int),
{
    assert forall|k: int| 0 <= k < 3 implies abs(
        bs[0].mass * #[trigger] accel(bs, 0, k) + bs[1].mass * accel(bs, 1, k),
    ) < 2 * max(bs[0].mass as int, bs[1].mass as int) by {
        let m0 = bs[0].mass as int;
        let m1 = bs[1].mass as int;
        assert(accel_upto(bs, 0, 0, k) == 0);
        assert(accel_upto(bs, 1, 0, k) == 0);
        assert(pull(bs, 0, 0, k) == 0);
        assert(accel_upto(bs, 0, 1, k) == 0);
        assert(accel_upto(bs, 1, 1, k) == pull(bs, 1, 0, k));
        assert(accel(bs, 0, k) == pull(bs, 0, 1, k));
        assert(accel(bs, 1, k) == pull(bs, 1, 0, k));
        assert forall|a: int| 0 <= a < 3 implies delta(bs, 1, 0, a) * delta(bs, 1, 0, a) == delta(
            bs,
            0,
            1,
            a,
        ) * delta(bs, 0, 1, a) by {
            let x = delta(bs, 0, 1, a);
            assert(delta(bs, 1, 0, a) == -x);
            assert((-x) * (-x) == x * x) by (nonlinear_arith);
        }
        assert(delta(bs, 1, 0, 0) * delta(bs, 1, 0, 0) == delta(bs, 0, 1, 0) * delta(bs, 0, 1, 0));
        assert(delta(bs, 1, 0, 1) * delta(bs, 1, 0, 1) == delta(bs, 0, 1, 1) * delta(bs, 0, 1, 1));
        assert(delta(bs, 1, 0, 2) * delta(bs, 1, 0, 2) == delta(bs, 0, 1, 2) * delta(bs, 0, 1, 2));
        let dd = dist2(bs, 0, 1);
        assert(dist2(bs, 1, 0) == dd);
        let x = delta(bs, 0, 1, k);
        assert(delta(bs, 1, 0, k) == -x);
        let u = abs(x);
        assert(abs(delta(bs, 1, 0, k)) == u);
        assert(m0 > 0 && m1 > 0);
        assert(2 * max(m0, m1) > 0);
        if dd == 0 {
            assert(accel(bs, 0, k) == 0);
            assert(accel(bs, 1, k) == 0);
            assert(m0 * 0 + m1 * 0 == 0);
        } else {
            let s0 = delta(bs, 0, 1, 0);
            let s1 = delta(bs, 0, 1, 1);
            let s2 = delta(bs, 0, 1, 2);
            assert(s0 * s0 >= 0 && s1 * s1 >= 0 && s2 * s2 >= 0) by (nonlinear_arith);
            assert(u * u == x * x) by (nonlinear_arith)
                requires
                    u == abs(x),
            ;
            assert(dd >= 0);
            lemma_floor_sqrt_exists(dd);
            let d = floor_sqrt(dd);
            assert(is_floor_sqrt(dd, d));
            lemma_below_floor_sqrt(dd, u);
            assert(d > 0) by {
                if d == 0 {
                    assert((d + 1) * (d + 1) == 1) by (nonlinear_arith)
                        requires
                            d == 0,
                    ;
                }
            }
            lemma_pull_sign(bs, 0, 1, k);
            lemma_pull_sign(bs, 1, 0, k);
            let f0 = (strength(bs, 0, 1) * u) / d;
            let f1 = (strength(bs, 1, 0) * u) / d;
            lemma_weighted_pull(GRAV as int, m0, m1, dd, d, u);
            lemma_weighted_pull(GRAV as int, m1, m0, dd, d, u);
            let kk = GRAV as int;
            assert(kk * m0 * m1 * u == kk * m1 * m0 * u) by (nonlinear_arith);
            let p = d * dd;
            assert(p > 0) by (nonlinear_arith)
                requires
                    p == d * dd,
                    d > 0,
                    dd > 0,
            ;
            assert(abs(m0 * f0 - m1 * f1) < 2 * max(m0, m1)) by (nonlinear_arith)
                requires
                    m0 * f0 * p <= kk * m0 * m1 * u,
                    m0 * f0 * p > kk * m0 * m1 * u - 2 * m0 * p,
                    m1 * f1 * p <= kk * m0 * m1 * u,
                    m1 * f1 * p > kk * m0 * m1 * u - 2 * m1 * p,
                    p > 0,
                    m0 > 0,
                    m1 > 0,
            ;
            if x >= 0 {
                if x == 0 {
                    assert(u == 0);
                    assert(strength(bs, 1, 0) * 0 == 0);
                    assert(f1 == 0);
                }
                assert(accel(bs, 0, k) == f0);
                assert(accel(bs, 1, k) == -f1);
                assert(m0 * f0 + m1 * (-f1) == m0 * f0 - m1 * f1) by (nonlinear_arith);
            } else {
                assert(accel(bs, 0, k) == -f0);
                assert(accel(bs, 1, k) == f1);
                assert(m0 * (-f0) + m1 * f1 == -(m0 * f0 - m1 * f1)) by (nonlinear_arith);
            }
        }
    }
}

/// Two systems whose bodies have the same positions and masses.
pub open spec fn same_positions_and_masses(a: Seq<Body>, b: Seq<Body>) -> bool {
    &&& a.len() == b.len()
    &&& forall|j: int|
        0 <= j < a.len() ==> #[trigger] a[j].position == b[j].position && a[j].mass == b[j].mass
}

proof fn lemma_accel_upto_same(a: Seq<Body>, b: Seq<Body>, i: int, n: int, k: int)
    requires
        same_positions_and_masses(a, b),
        0 <= i < a.len(),
        n <= a.len(),
    ensures
        accel_upto(a, i, n, k) == accel_upto(b, i, n, k),
    decreases n,
{
    if n > 0 {
        lemma_accel_upto_same(a, b, i, n - 1, k);
        let j = n - 1;
        assert(a[j].position == b[j].position && a[j].mass == b[j].mass);
        assert(a[i].position == b[i].position);
        assert forall|x: int| 0 <= x < 3 implies delta(a, i, j, x) == delta(b, i, j, x) by {}
        assert(dist2(a, i, j) == dist2(b, i, j));
        assert(strength(a, i, j) == strength(b, i, j));
        assert(pull(a, i, j, k) == pull(b, i, j, k));
    }
}

/// The step is simultaneous: what becomes of body `i` depends on its own
/// state and on the positions and masses of the others before the step,
/// never on their velocities, which a sequential update would already have
/// turned into new positions.
pub proof fn lemma_simultaneous(a: Seq<Body>, b: Seq<Body>, i: int, dt: int)
    requires
        same_positions_and_masses(a, b),
        0 <= i < a.len(),
        a[i] == b[i],
    ensures
        stepped(a, dt)[i] == stepped(b, dt)[i],
{
    assert forall|k: int| 0 <= k < 3 implies #[trigger] accel(a, i, k) == accel(b, i, k) by {
        lemma_accel_upto_same(a, b, i, a.len() as int, k);
    }
    assert(accel(a, i, 0) == accel(b, i, 0));
    assert(accel(a, i, 1) == accel(b, i, 1));
    assert(accel(a, i, 2) == accel(b, i, 2));
    assert(stepped(a, dt)[i] == advanced(a, i, dt));
    assert(stepped(b, dt)[i] == advanced(b, i, dt));
}

} // verus!
