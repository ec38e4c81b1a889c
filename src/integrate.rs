//! Semi-implicit (symplectic) Euler: velocity first, then position with the
//! new velocity.
use vstd::prelude::*;
use crate::body::{Body, BodyModel, Vec2, COORD_LIMIT, in_coord_range, clamp_coord, models, all_wf, clamp_to_coord};

verus! {

/// A time step that the integrator accepts: non-negative and in range.
pub open spec fn dt_ok(dt: int) -> bool {
    0 <= dt <= COORD_LIMIT
}

/// An acceleration that the integrator accepts.
pub open spec fn gravity_ok(g: Vec2) -> bool {
    in_coord_range(g.x as int) && in_coord_range(g.y as int)
}

/// A body after one step of `dt` under the constant acceleration `g`:
/// `v' = v + g * dt`, then `p' = p + v' * dt`, each kept in range.
pub open spec fn euler_model(b: BodyModel, gx: int, gy: int, dt: int) -> BodyModel {
    let vx = clamp_coord(b.vx + gx * dt);
    let vy = clamp_coord(b.vy + gy * dt);
    BodyModel {
        px: clamp_coord(b.px + vx * dt),
        py: clamp_coord(b.py + vy * dt),
        vx: vx,
        vy: vy,
        mass: b.mass,
        radius: b.radius,
    }
}

/// Every body after one step.
pub open spec fn euler_all_model(s: Seq<BodyModel>, gx: int, gy: int, dt: int) -> Seq<BodyModel> {
    s.map_values(|b: BodyModel| euler_model(b, gx, gy, dt))
}

/// Advances one body by `dt`.
pub fn euler_step(b: &mut Body, gravity: Vec2, dt: i64)
    requires
        old(b).wf(),
        gravity_ok(gravity),
        dt_ok(dt as int),
    ensures
        final(b)@ == euler_model(old(b)@, gravity.x as int, gravity.y as int, dt as int),
        final(b).wf(),
{
    let lim: i128 = COORD_LIMIT as i128;
    assert(-(lim * lim) <= gravity.x * dt <= lim * lim) by (nonlinear_arith)
        requires -lim <= gravity.x <= lim, 0 <= dt <= lim;
    assert(-(lim * lim) <= gravity.y * dt <= lim * lim) by (nonlinear_arith)
        requires -lim <= gravity.y <= lim, 0 <= dt <= lim;
    let vx: i64 = clamp_to_coord(b.velocity.x as i128 + gravity.x as i128 * dt as i128);
    let vy: i64 = clamp_to_coord(b.velocity.y as i128 + gravity.y as i128 * dt as i128);
    assert(-(lim * lim) <= vx * dt <= lim * lim) by (nonlinear_arith)
        requires -lim <= vx <= lim, 0 <= dt <= lim;
    assert(-(lim * lim) <= vy * dt <= lim * lim) by (nonlinear_arith)
        requires -lim <= vy <= lim, 0 <= dt <= lim;
    b.velocity.x = vx;
    b.velocity.y = vy;
    b.position.x = clamp_to_coord(b.position.x as i128 + vx as i128 * dt as i128);
    b.position.y = clamp_to_coord(b.position.y as i128 + vy as i128 * dt as i128);
}

/// Advances every body by `dt`.
pub fn symplectic_euler(bodies: &mut Vec<Body>, gravity: Vec2, dt: i64)
    requires
        all_wf(models(old(bodies)@)),
        gravity_ok(gravity),
        dt_ok(dt as int),
    ensures
        models(final(bodies)@) == euler_all_model(models(old(bodies)@), gravity.x as int, gravity.y as int, dt as int),
        all_wf(models(final(bodies)@)),
{
    let ghost orig = models(bodies@);
    let ghost gx = gravity.x as int;
    let ghost gy = gravity.y as int;
    let n: usize = bodies.len();
    let mut i: usize = 0;
    while i < n
        invariant
            0 <= i <= n,
            n == bodies@.len(),
            n == orig.len(),
            gx == gravity.x,
            gy == gravity.y,
            gravity_ok(gravity),
            dt_ok(dt as int),
            all_wf(orig),
            all_wf(models(bodies@)),
            forall|k: int| 0 <= k < i ==> #[trigger] models(bodies@)[k] == euler_model(orig[k], gx, gy, dt as int),
            forall|k: int| i <= k < n ==> #[trigger] models(bodies@)[k] == orig[k],
        decreases n - i,
    {
        let ghost before = models(bodies@);
        let mut b: Body = bodies[i];
        assert(before[i as int] == b@);
        euler_step(&mut b, gravity, dt);
        bodies.set(i, b);
        assert(models(bodies@) =~= before.update(i as int, b@));
        i = i + 1;
    }
    assert(models(bodies@) =~= euler_all_model(orig, gx, gy, dt as int));
}

} // verus!
