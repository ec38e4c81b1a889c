//! Properties of the pipeline that relate its stages or hold of all inputs.
use vstd::prelude::*;
use crate::arith::{div_trunc, is_sqrt_floor, lemma_div_trunc, lemma_sqrt_floor_unique};
use crate::body::{BodyModel, COORD_LIMIT, in_coord_range, model_wf};
use crate::collide::{dist_sq, resolve_pair_model, impulse, sweep, sweep_row, resolve_all_model, restitution_ok, RESTITUTION_SCALE};
use crate::walls::{wall_model, walls_all_model};
use crate::sim::{SimConfig, tick_model};

verus! {

/// After the wall rule, every body whose diameter fits in the domain has
/// its centre at least its radius away from each of the four walls.
pub proof fn lemma_wall_containment(s: Seq<BodyModel>, width: int, height: int)
    requires
        forall|i: int| 0 <= i < s.len() ==> 2 * (#[trigger] s[i]).radius <= width && 2 * s[i].radius <= height,
    ensures
        forall|i: int| 0 <= i < s.len() ==> {
            let b = #[trigger] walls_all_model(s, width, height)[i];
            &&& b.radius <= b.px <= width - b.radius
            &&& b.radius <= b.py <= height - b.radius
        },
{
    assert forall|i: int| 0 <= i < s.len() implies {
        let b = #[trigger] walls_all_model(s, width, height)[i];
        &&& b.radius <= b.px <= width - b.radius
        &&& b.radius <= b.py <= height - b.radius
    } by {
        assert(2 * s[i].radius <= width && 2 * s[i].radius <= height);
    }
}

/// A body that crosses a wall leaves the wall rule with the velocity
/// component normal to that wall reversed: same speed, opposite sign. A
/// component whose walls it does not cross is kept.
pub proof fn lemma_wall_reflection(b: BodyModel, width: int, height: int)
    ensures
        (b.px - b.radius < 0 || b.px + b.radius > width) ==> wall_model(b, width, height).vx == -b.vx,
        !(b.px - b.radius < 0 || b.px + b.radius > width) ==> wall_model(b, width, height).vx == b.vx,
        (b.py - b.radius < 0 || b.py + b.radius > height) ==> wall_model(b, width, height).vy == -b.vy,
        !(b.py - b.radius < 0 || b.py + b.radius > height) ==> wall_model(b, width, height).vy == b.vy,
{
}

/// Two bodies whose centres coincide are left unchanged by contact
/// resolution.
pub proof fn lemma_coincident_centres_unchanged(a: BodyModel, b: BodyModel, e: int)
    requires
        a.px == b.px,
        a.py == b.py,
    ensures
        resolve_pair_model(a, b, e) == (a, b),
{
}

/// `d * (rr - |d|)`, divided by `|d|` toward zero, is `rr - |d|` with the
/// sign of `d`.
proof fn lemma_axis_shift(d: int, rr: int)
    requires
        d != 0,
        rr >= 0,
    ensures
        div_trunc(d * (rr - if d > 0 { d } else { -d }), if d > 0 { d } else { -d })
            == if d > 0 { rr - d } else { -(rr + d) },
{
    let ad = if d > 0 { d } else { -d };
    let g = rr - ad;
    lemma_div_trunc(d * g, ad);
    let q = div_trunc(d * g, ad);
    let rem = d * g - ad * q;
    if d > 0 {
        assert(q == g) by (nonlinear_arith)
            requires rem == d * g - d * q, -d < rem < d, d > 0, (d * g >= 0 ==> rem >= 0), (d * g <= 0 ==> rem <= 0);
    } else {
        assert(q == -g) by (nonlinear_arith)
            requires rem == d * g - (-d) * q, d < rem < -d, d < 0, (d * g >= 0 ==> rem >= 0), (d * g <= 0 ==> rem <= 0);
    }
}

/// Two overlapping bodies on a common horizontal or vertical line, far
/// enough from the coordinate limits, end exactly `r1 + r2` apart after
/// contact resolution.
pub proof fn lemma_axis_pair_separation(a: BodyModel, b: BodyModel, e: int)
    requires
        model_wf(a),
        model_wf(b),
        0 < dist_sq(a, b) < (a.radius + b.radius) * (a.radius + b.radius),
        a.px == b.px || a.py == b.py,
        in_coord_range(a.px - (a.radius + b.radius)) && in_coord_range(a.px + (a.radius + b.radius)),
        in_coord_range(a.py - (a.radius + b.radius)) && in_coord_range(a.py + (a.radius + b.radius)),
        in_coord_range(b.px - (a.radius + b.radius)) && in_coord_range(b.px + (a.radius + b.radius)),
        in_coord_range(b.py - (a.radius + b.radius)) && in_coord_range(b.py + (a.radius + b.radius)),
    ensures
        dist_sq(resolve_pair_model(a, b, e).0, resolve_pair_model(a, b, e).1)
            == (a.radius + b.radius) * (a.radius + b.radius),
{
    let rr = a.radius + b.radius;
    let dx = b.px - a.px;
    let dy = b.py - a.py;
    let dd = dist_sq(a, b);
    if dy == 0 {
        let ad = if dx > 0 { dx } else { -dx };
        assert(dd == ad * ad) by (nonlinear_arith)
            requires dd == dx * dx + dy * dy, dy == 0, ad == if dx > 0 { dx } else { -dx };
        assert(dx != 0);
        assert(is_sqrt_floor(ad, dd)) by (nonlinear_arith)
            requires dd == ad * ad, ad > 0;
        lemma_sqrt_floor_unique(ad, dd);
        assert(ad <= rr) by (nonlinear_arith)
            requires dd == ad * ad, ad > 0, dd < rr * rr, rr > 0;
        lemma_axis_shift(dx, rr);
        assert(0 * (rr - ad) == 0);
        lemma_div_trunc(0, ad);
        let sx = div_trunc(dx * (rr - ad), ad);
        lemma_div_trunc(sx, 2);
        lemma_div_trunc(0, 2);
        let r = resolve_pair_model(a, b, e);
        assert(r.1.px - r.0.px == if dx > 0 { rr } else { -rr });
        assert(r.1.py - r.0.py == 0);
        assert(dist_sq(r.0, r.1) == rr * rr) by (nonlinear_arith)
            requires r.1.px - r.0.px == if dx > 0 { rr } else { -rr }, r.1.py - r.0.py == 0,
                dist_sq(r.0, r.1) == (r.1.px - r.0.px) * (r.1.px - r.0.px) + (r.1.py - r.0.py) * (r.1.py - r.0.py);
    } else {
        assert(dx == 0);
        let ad = if dy > 0 { dy } else { -dy };
        assert(dd == ad * ad) by (nonlinear_arith)
            requires dd == dx * dx + dy * dy, dx == 0, ad == if dy > 0 { dy } else { -dy };
        assert(is_sqrt_floor(ad, dd)) by (nonlinear_arith)
            requires dd == ad * ad, ad > 0;
        lemma_sqrt_floor_unique(ad, dd);
        assert(ad <= rr) by (nonlinear_arith)
            requires dd == ad * ad, ad > 0, dd < rr * rr, rr > 0;
        lemma_axis_shift(dy, rr);
        assert(0 * (rr - ad) == 0);
        lemma_div_trunc(0, ad);
        let sy = div_trunc(dy * (rr - ad), ad);
        lemma_div_trunc(sy, 2);
        lemma_div_trunc(0, 2);
        let r = resolve_pair_model(a, b, e);
        assert(r.1.py - r.0.py == if dy > 0 { rr } else { -rr });
        assert(r.1.px - r.0.px == 0);
        assert(dist_sq(r.0, r.1) == rr * rr) by (nonlinear_arith)
            requires r.1.py - r.0.py == if dy > 0 { rr } else { -rr }, r.1.px - r.0.px == 0,
                dist_sq(r.0, r.1) == (r.1.px - r.0.px) * (r.1.px - r.0.px) + (r.1.py - r.0.py) * (r.1.py - r.0.py);
    }
}

/// Truncated shares of one impulse, weighted by the two masses, cancel up
/// to less than the sum of the masses.
proof fn lemma_impulse_balance(n: int, ma: int, mb: int, den: int)
    requires
        ma > 0,
        mb > 0,
        den > 0,
    ensures
        -(ma + mb) < ma * div_trunc(mb * n, den) - mb * div_trunc(ma * n, den) < ma + mb,
{
    lemma_div_trunc(mb * n, den);
    lemma_div_trunc(ma * n, den);
    let q1 = div_trunc(mb * n, den);
    let q2 = div_trunc(ma * n, den);
    let r1 = mb * n - den * q1;
    let r2 = ma * n - den * q2;
    assert(den * (ma * q1) == ma * (mb * n) - ma * r1) by (nonlinear_arith)
        requires den * q1 == mb * n - r1;
    assert(den * (mb * q2) == mb * (ma * n) - mb * r2) by (nonlinear_arith)
        requires den * q2 == ma * n - r2;
    assert(ma * (mb * n) == mb * (ma * n)) by (nonlinear_arith);
    assert(den * (ma * q1 - mb * q2) == den * (ma * q1) - den * (mb * q2)) by (nonlinear_arith);
    assert(-(ma + mb) * den < mb * r2 - ma * r1 < (ma + mb) * den) by (nonlinear_arith)
        requires -den < r1 < den, -den < r2 < den, ma > 0, mb > 0;
    assert(-(ma + mb) < ma * q1 - mb * q2 < ma + mb) by (nonlinear_arith)
        requires den * (ma * q1 - mb * q2) == mb * r2 - ma * r1,
            -(ma + mb) * den < mb * r2 - ma * r1 < (ma + mb) * den, den > 0;
}

/// Contact resolution keeps the total momentum of the pair along each axis
/// up to the rounding of the two velocity changes: it moves by less than
/// the sum of the masses, that is by less than one velocity unit per body.
/// Velocities that end strictly inside the coordinate range were not
/// clamped, which the statement needs.
pub proof fn lemma_pair_momentum(a: BodyModel, b: BodyModel, e: int)
    requires
        model_wf(a),
        model_wf(b),
        restitution_ok(e),
        -COORD_LIMIT < resolve_pair_model(a, b, e).0.vx < COORD_LIMIT,
        -COORD_LIMIT < resolve_pair_model(a, b, e).0.vy < COORD_LIMIT,
        -COORD_LIMIT < resolve_pair_model(a, b, e).1.vx < COORD_LIMIT,
        -COORD_LIMIT < resolve_pair_model(a, b, e).1.vy < COORD_LIMIT,
    ensures
        ({
            let r = resolve_pair_model(a, b, e);
            let px = a.mass * (r.0.vx - a.vx) + b.mass * (r.1.vx - b.vx);
            let py = a.mass * (r.0.vy - a.vy) + b.mass * (r.1.vy - b.vy);
            -(a.mass + b.mass) < px < a.mass + b.mass && -(a.mass + b.mass) < py < a.mass + b.mass
        }),
{
    let r = resolve_pair_model(a, b, e);
    let dx = b.px - a.px;
    let dy = b.py - a.py;
    let dd = dist_sq(a, b);
    let rr = a.radius + b.radius;
    if dd != 0 && dd <= rr * rr {
        let k = dx * (b.vx - a.vx) + dy * (b.vy - a.vy);
        let den = RESTITUTION_SCALE * dd * (a.mass + b.mass);
        assert(dd > 0) by (nonlinear_arith)
            requires dd == dx * dx + dy * dy, dd != 0;
        assert(den > 0) by (nonlinear_arith)
            requires den == RESTITUTION_SCALE * dd * (a.mass + b.mass), dd > 0, a.mass > 0, b.mass > 0;
        let f = RESTITUTION_SCALE + e;
        let nx = f * k * dx;
        let ny = f * k * dy;
        assert(f * b.mass * k * dx == b.mass * nx && f * a.mass * k * dx == a.mass * nx) by (nonlinear_arith)
            requires nx == f * k * dx;
        assert(f * b.mass * k * dy == b.mass * ny && f * a.mass * k * dy == a.mass * ny) by (nonlinear_arith)
            requires ny == f * k * dy;
        lemma_impulse_balance(nx, a.mass, b.mass, den);
        lemma_impulse_balance(ny, a.mass, b.mass, den);
        assert(r.0.vx == a.vx + impulse(dx, b.mass, k, e, den));
        assert(r.1.vx == b.vx - impulse(dx, a.mass, k, e, den));
        assert(r.0.vy == a.vy + impulse(dy, b.mass, k, e, den));
        assert(r.1.vy == b.vy - impulse(dy, a.mass, k, e, den));
        assert(impulse(dx, b.mass, k, e, den) == div_trunc(b.mass * nx, den));
        assert(impulse(dx, a.mass, k, e, den) == div_trunc(a.mass * nx, den));
        assert(impulse(dy, b.mass, k, e, den) == div_trunc(b.mass * ny, den));
        assert(impulse(dy, a.mass, k, e, den) == div_trunc(a.mass * ny, den));
        let qax = div_trunc(b.mass * nx, den);
        let qbx = div_trunc(a.mass * nx, den);
        assert(a.mass * (r.0.vx - a.vx) + b.mass * (r.1.vx - b.vx) == a.mass * qax - b.mass * qbx)
            by (nonlinear_arith)
            requires r.0.vx == a.vx + qax, r.1.vx == b.vx - qbx;
        let qay = div_trunc(b.mass * ny, den);
        let qby = div_trunc(a.mass * ny, den);
        assert(a.mass * (r.0.vy - a.vy) + b.mass * (r.1.vy - b.vy) == a.mass * qay - b.mass * qby)
            by (nonlinear_arith)
            requires r.0.vy == a.vy + qay, r.1.vy == b.vy - qby;
    }
}

/// One tick of a simulation that holds a single body away from every wall
/// first sets the velocity to `v + g * dt` and then moves the centre by the
/// new velocity: `p + (v + g * dt) * dt`, when neither leaves the
/// coordinate range.
pub proof fn lemma_free_body_tick(s: Seq<BodyModel>, c: SimConfig, dt: int)
    requires
        s.len() == 1,
        s[0].radius <= s[0].px <= c.width - s[0].radius,
        s[0].radius <= s[0].py <= c.height - s[0].radius,
        in_coord_range(s[0].vx + c.gravity.x * dt),
        in_coord_range(s[0].vy + c.gravity.y * dt),
        in_coord_range(s[0].px + (s[0].vx + c.gravity.x * dt) * dt),
        in_coord_range(s[0].py + (s[0].vy + c.gravity.y * dt) * dt),
    ensures
        ({
            let b = tick_model(s, c, dt)[0];
            &&& b.vx == s[0].vx + c.gravity.x * dt
            &&& b.vy == s[0].vy + c.gravity.y * dt
            &&& b.px == s[0].px + b.vx * dt
            &&& b.py == s[0].py + b.vy * dt
        }),
{
    let e = c.restitution as int;
    assert(sweep(s, 0, e) == s);
    assert(sweep_row(s, 0, 1, e) == s);
    assert(resolve_all_model(s, e) == s);
}

/// The shape of the population: same count, and each index keeps its
/// mass and radius.
pub open spec fn same_shape(s: Seq<BodyModel>, t: Seq<BodyModel>) -> bool {
    &&& t.len() == s.len()
    &&& forall|i: int| 0 <= i < s.len() ==> (#[trigger] t[i]).mass == s[i].mass && t[i].radius == s[i].radius
}

proof fn lemma_sweep_row_shape(s: Seq<BodyModel>, i: int, j: int, e: int)
    requires
        0 <= i,
        j <= s.len(),
    ensures
        same_shape(s, sweep_row(s, i, j, e)),
    decreases j - i,
{
    if j > i + 1 {
        lemma_sweep_row_shape(s, i, j - 1, e);
    }
}

proof fn lemma_sweep_shape(s: Seq<BodyModel>, i: int, e: int)
    requires
        i <= s.len(),
    ensures
        same_shape(s, sweep(s, i, e)),
    decreases i,
{
    if i > 0 {
        lemma_sweep_shape(s, i - 1, e);
        let t = sweep(s, i - 1, e);
        lemma_sweep_row_shape(t, i - 1, t.len() as int, e);
    }
}

/// A tick creates and destroys no body, and changes no body's mass or
/// radius: only positions and velocities move.
pub proof fn lemma_tick_keeps_shape(s: Seq<BodyModel>, c: SimConfig, dt: int)
    ensures
        same_shape(s, tick_model(s, c, dt)),
{
    lemma_sweep_shape(s, s.len() as int, c.restitution as int);
}

} // verus!
