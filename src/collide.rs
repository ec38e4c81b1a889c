//! Disk-disk contact: positional separation and an impulse along the
//! contact normal, applied to every unordered pair once per pass.
use vstd::prelude::*;
use crate::arith::{div_trunc, sqrt_floor, div_toward_zero, isqrt};
use crate::body::{Body, BodyModel, COORD_LIMIT, MASS_LIMIT, clamp_coord, model_wf, models, all_wf, clamp_to_coord};

verus! {

/// Restitution is given in hundredths: `RESTITUTION_SCALE` is a perfectly
/// elastic contact, zero a perfectly inelastic one.
pub const RESTITUTION_SCALE: i64 = 100;

/// A coefficient of restitution between zero and one.
pub open spec fn restitution_ok(e: int) -> bool {
    0 <= e <= RESTITUTION_SCALE
}

/// Squared distance between the centres of two bodies.
pub open spec fn dist_sq(a: BodyModel, b: BodyModel) -> int {
    (b.px - a.px) * (b.px - a.px) + (b.py - a.py) * (b.py - a.py)
}

/// The pair is resolved: the centres are apart and the disks touch or overlap.
pub open spec fn in_contact(a: BodyModel, b: BodyModel) -> bool {
    let rr = a.radius + b.radius;
    dist_sq(a, b) != 0 && dist_sq(a, b) <= rr * rr
}

/// The total shift along one axis that brings the centres `radius sum`
/// apart: `d * (rr - dist) / dist`, rounded toward zero.
pub open spec fn separation(d: int, rr: int, dist: int) -> int {
    div_trunc(d * (rr - dist), dist)
}

/// Velocity change along one axis of a body of the pair, given the mass of
/// the other body: `d * ((1 + e) * m_other * k) / (|d|^2 * (m_a + m_b))`,
/// rounded toward zero, with `k` the relative velocity projected on `d`
/// and `e` the restitution; `den` carries `|d|^2 * (m_a + m_b)` and the
/// scale of `e`.
pub open spec fn impulse(d: int, m_other: int, k: int, e: int, den: int) -> int {
    div_trunc((RESTITUTION_SCALE + e) * m_other * k * d, den)
}

/// One pair after contact resolution. Disks that do not touch, or whose
/// centres coincide, are left as they are. Otherwise the first body moves
/// back by half the separation and the second forward by the rest, and the
/// normal components of the velocities change as in a one-dimensional
/// collision with restitution `e`, tangential components untouched.
pub open spec fn resolve_pair_model(a: BodyModel, b: BodyModel, e: int) -> (BodyModel, BodyModel) {
    if !in_contact(a, b) {
        (a, b)
    } else {
        let dx = b.px - a.px;
        let dy = b.py - a.py;
        let dd = dist_sq(a, b);
        let rr = a.radius + b.radius;
        let dist = sqrt_floor(dd);
        let sx = separation(dx, rr, dist);
        let sy = separation(dy, rr, dist);
        let hx = div_trunc(sx, 2);
        let hy = div_trunc(sy, 2);
        let k = dx * (b.vx - a.vx) + dy * (b.vy - a.vy);
        let den = RESTITUTION_SCALE * dd * (a.mass + b.mass);
        (
            BodyModel {
                px: clamp_coord(a.px - hx),
                py: clamp_coord(a.py - hy),
                vx: clamp_coord(a.vx + impulse(dx, b.mass, k, e, den)),
                vy: clamp_coord(a.vy + impulse(dy, b.mass, k, e, den)),
                mass: a.mass,
                radius: a.radius,
            },
            BodyModel {
                px: clamp_coord(b.px + (sx - hx)),
                py: clamp_coord(b.py + (sy - hy)),
                vx: clamp_coord(b.vx - impulse(dx, a.mass, k, e, den)),
                vy: clamp_coord(b.vy - impulse(dy, a.mass, k, e, den)),
                mass: b.mass,
                radius: b.radius,
            },
        )
    }
}

/// The pair `(i, j)` of `s` resolved in place.
pub open spec fn step_pair(s: Seq<BodyModel>, i: int, j: int, e: int) -> Seq<BodyModel> {
    let r = resolve_pair_model(s[i], s[j], e);
    s.update(i, r.0).update(j, r.1)
}

/// Pairs `(i, i + 1)`, `(i, i + 2)`, ... `(i, j - 1)` of `s` resolved in
/// that order.
pub open spec fn sweep_row(s: Seq<BodyModel>, i: int, j: int, e: int) -> Seq<BodyModel>
    decreases j - i,
{
    if j <= i + 1 {
        s
    } else {
        step_pair(sweep_row(s, i, j - 1, e), i, j - 1, e)
    }
}

/// The rows `0, 1, ... i - 1` of pairs resolved in order: every pair
/// `(i', j)` with `i' < i` and `i' < j < n`, in lexicographic order.
pub open spec fn sweep(s: Seq<BodyModel>, i: int, e: int) -> Seq<BodyModel>
    decreases i,
{
    if i <= 0 {
        s
    } else {
        let t = sweep(s, i - 1, e);
        sweep_row(t, i - 1, t.len() as int, e)
    }
}

/// One pass of the body-body resolver over every unordered pair.
pub open spec fn resolve_all_model(s: Seq<BodyModel>, e: int) -> Seq<BodyModel> {
    sweep(s, s.len() as int, e)
}

proof fn lemma_mul_bound(x: int, y: int, bx: int, by: int)
    requires
        -bx <= x <= bx,
        -by <= y <= by,
    ensures
        -(bx * by) <= x * y <= bx * by,
{
    assert(-(bx * by) <= x * y <= bx * by) by (nonlinear_arith)
        requires -bx <= x <= bx, -by <= y <= by;
}

/// Resolution keeps both bodies well formed, their masses and radii.
pub proof fn lemma_resolve_pair_wf(a: BodyModel, b: BodyModel, e: int)
    requires
        model_wf(a),
        model_wf(b),
    ensures
        model_wf(resolve_pair_model(a, b, e).0),
        model_wf(resolve_pair_model(a, b, e).1),
        resolve_pair_model(a, b, e).0.radius == a.radius,
        resolve_pair_model(a, b, e).1.radius == b.radius,
        resolve_pair_model(a, b, e).0.mass == a.mass,
        resolve_pair_model(a, b, e).1.mass == b.mass,
{
}

/// Resolves the contact between two bodies.
pub fn resolve_pair(a: &mut Body, b: &mut Body, restitution: i64)
    requires
        old(a).wf(),
        old(b).wf(),
        restitution_ok(restitution as int),
    ensures
        final(a)@ == resolve_pair_model(old(a)@, old(b)@, restitution as int).0,
        final(b)@ == resolve_pair_model(old(a)@, old(b)@, restitution as int).1,
        final(a).wf(),
        final(b).wf(),
{
    let ghost am = a@;
    let ghost bm = b@;
    let lim: i128 = COORD_LIMIT as i128;
    let dx: i128 = b.position.x as i128 - a.position.x as i128;
    let dy: i128 = b.position.y as i128 - a.position.y as i128;
    proof {
        lemma_mul_bound(dx as int, dx as int, 2 * lim, 2 * lim);
        lemma_mul_bound(dy as int, dy as int, 2 * lim, 2 * lim);
    }
    let dd: i128 = dx * dx + dy * dy;
    let rr: i128 = a.radius as i128 + b.radius as i128;
    proof {
        lemma_mul_bound(rr as int, rr as int, 2 * lim, 2 * lim);
    }
    if dd == 0 || dd > rr * rr {
        return;
    }
    assert(dd >= 0) by (nonlinear_arith)
        requires dd == dx * dx + dy * dy;
    let dist: i128 = isqrt(dd);
    assert(1 <= dist <= rr) by (nonlinear_arith)
        requires dist * dist <= dd, dd < (dist + 1) * (dist + 1), dd > 0, dd <= rr * rr, rr > 0, dist >= 0;
    let gap: i128 = rr - dist;
    proof {
        lemma_mul_bound(dx as int, gap as int, 2 * lim, 2 * lim);
        lemma_mul_bound(dy as int, gap as int, 2 * lim, 2 * lim);
    }
    let sx: i128 = div_toward_zero(dx * gap, dist);
    let sy: i128 = div_toward_zero(dy * gap, dist);
    proof {
        crate::arith::lemma_div_trunc((dx * gap) as int, dist as int);
        crate::arith::lemma_div_trunc((dy * gap) as int, dist as int);
        crate::arith::lemma_div_trunc(sx as int, 2);
        crate::arith::lemma_div_trunc(sy as int, 2);
    }
    let hx: i128 = div_toward_zero(sx, 2);
    let hy: i128 = div_toward_zero(sy, 2);
    let ma: i128 = a.mass as i128;
    let mb: i128 = b.mass as i128;
    let dvx: i128 = b.velocity.x as i128 - a.velocity.x as i128;
    let dvy: i128 = b.velocity.y as i128 - a.velocity.y as i128;
    proof {
        lemma_mul_bound(dx as int, dvx as int, 2 * lim, 2 * lim);
        lemma_mul_bound(dy as int, dvy as int, 2 * lim, 2 * lim);
    }
    let k: i128 = dx * dvx + dy * dvy;
    let msum: i128 = ma + mb;
    let bd: i128 = 8 * lim * lim;
    let f: i128 = RESTITUTION_SCALE as i128 + restitution as i128;
    let sc: i128 = RESTITUTION_SCALE as i128;
    let fb: i128 = 2 * RESTITUTION_SCALE as i128;
    proof {
        lemma_mul_bound(sc as int, dd as int, sc as int, bd as int);
        lemma_mul_bound(sc * dd, msum as int, sc * bd, 2 * MASS_LIMIT);
        lemma_mul_bound(f as int, mb as int, fb as int, MASS_LIMIT as int);
        lemma_mul_bound(f as int, ma as int, fb as int, MASS_LIMIT as int);
        lemma_mul_bound(f * mb, k as int, fb * MASS_LIMIT, bd as int);
        lemma_mul_bound(f * ma, k as int, fb * MASS_LIMIT, bd as int);
        lemma_mul_bound(f * mb * k, dx as int, fb * MASS_LIMIT * bd, 2 * lim);
        lemma_mul_bound(f * mb * k, dy as int, fb * MASS_LIMIT * bd, 2 * lim);
        lemma_mul_bound(f * ma * k, dx as int, fb * MASS_LIMIT * bd, 2 * lim);
        lemma_mul_bound(f * ma * k, dy as int, fb * MASS_LIMIT * bd, 2 * lim);
    }
    let den: i128 = sc * dd * msum;
    assert(den > 0) by (nonlinear_arith)
        requires dd > 0, msum > 0, sc > 0, den == sc * dd * msum;
    let ka: i128 = f * mb * k;
    let kb: i128 = f * ma * k;
    let dax: i128 = div_toward_zero(ka * dx, den);
    let day: i128 = div_toward_zero(ka * dy, den);
    let dbx: i128 = div_toward_zero(kb * dx, den);
    let dby: i128 = div_toward_zero(kb * dy, den);
    proof {
        crate::arith::lemma_div_trunc((ka * dx) as int, den as int);
        crate::arith::lemma_div_trunc((ka * dy) as int, den as int);
        crate::arith::lemma_div_trunc((kb * dx) as int, den as int);
        crate::arith::lemma_div_trunc((kb * dy) as int, den as int);
        crate::arith::lemma_sqrt_floor_unique(dist as int, dd as int);
    }
    a.position.x = clamp_to_coord(a.position.x as i128 - hx);
    a.position.y = clamp_to_coord(a.position.y as i128 - hy);
    a.velocity.x = clamp_to_coord(a.velocity.x as i128 + dax);
    a.velocity.y = clamp_to_coord(a.velocity.y as i128 + day);
    b.position.x = clamp_to_coord(b.position.x as i128 + (sx - hx));
    b.position.y = clamp_to_coord(b.position.y as i128 + (sy - hy));
    b.velocity.x = clamp_to_coord(b.velocity.x as i128 - dbx);
    b.velocity.y = clamp_to_coord(b.velocity.y as i128 - dby);
}

/// Resolves every unordered pair of bodies once, pairs taken in
/// lexicographic order of their indices.
pub fn handle_billard_collisions(bodies: &mut Vec<Body>, restitution: i64)
    requires
        all_wf(models(old(bodies)@)),
        restitution_ok(restitution as int),
    ensures
        models(final(bodies)@) == resolve_all_model(models(old(bodies)@), restitution as int),
        all_wf(models(final(bodies)@)),
{
    let ghost orig = models(bodies@);
    let n: usize = bodies.len();
    let mut i: usize = 0;
    while i < n
        invariant
            0 <= i <= n,
            n == bodies@.len(),
            n == orig.len(),
            models(bodies@) == sweep(orig, i as int, restitution as int),
            restitution_ok(restitution as int),
            all_wf(models(bodies@)),
        decreases n - i,
    {
        let mut j: usize = i + 1;
        let ghost row_start = models(bodies@);
        while j < n
            invariant
                i < n,
                i + 1 <= j <= n,
                n == bodies@.len(),
                n == orig.len(),
                row_start == sweep(orig, i as int, restitution as int),
                restitution_ok(restitution as int),
                row_start.len() == n,
                all_wf(row_start),
                models(bodies@) == sweep_row(row_start, i as int, j as int, restitution as int),
                all_wf(models(bodies@)),
            decreases n - j,
        {
            let ghost before = models(bodies@);
            let mut a: Body = bodies[i];
            let mut b: Body = bodies[j];
            assert(before[i as int] == a@);
            assert(before[j as int] == b@);
            resolve_pair(&mut a, &mut b, restitution);
            bodies.set(i, a);
            bodies.set(j, b);
            proof {
                assert(models(bodies@) =~= step_pair(before, i as int, j as int, restitution as int));
                lemma_resolve_pair_wf(before[i as int], before[j as int], restitution as int);
                assert(all_wf(models(bodies@)));
            }
            j = j + 1;
        }
        i = i + 1;
    }
}

} // verus!
