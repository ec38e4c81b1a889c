//! Disk-wall contact against the domain rectangle `[0, width] x [0, height]`.
use vstd::prelude::*;
use crate::body::{Body, BodyModel, COORD_LIMIT, models, all_wf};

verus! {

/// One axis of the wall rule: a centre closer than `r` to the low wall is
/// put at `r`, one closer than `r` to the high wall at `extent - r`; either
/// way the velocity component is reversed. Returns (position, velocity).
pub open spec fn wall_axis(p: int, v: int, r: int, extent: int) -> (int, int) {
    if p - r < 0 {
        (r, -v)
    } else if p + r > extent {
        (extent - r, -v)
    } else {
        (p, v)
    }
}

/// A body after the wall rule on both axes, which apply independently.
pub open spec fn wall_model(b: BodyModel, width: int, height: int) -> BodyModel {
    let x = wall_axis(b.px, b.vx, b.radius, width);
    let y = wall_axis(b.py, b.vy, b.radius, height);
    BodyModel { px: x.0, py: y.0, vx: x.1, vy: y.1, mass: b.mass, radius: b.radius }
}

/// Every body after the wall rule.
pub open spec fn walls_all_model(s: Seq<BodyModel>, width: int, height: int) -> Seq<BodyModel> {
    s.map_values(|b: BodyModel| wall_model(b, width, height))
}

/// Extents of a domain that a coordinate can hold.
pub open spec fn extent_ok(width: int, height: int) -> bool {
    0 < width <= COORD_LIMIT && 0 < height <= COORD_LIMIT
}

fn wall_axis_exec(p: i64, v: i64, r: i64, extent: i64) -> (res: (i64, i64))
    requires
        -COORD_LIMIT <= p <= COORD_LIMIT,
        -COORD_LIMIT <= v <= COORD_LIMIT,
        0 < r <= COORD_LIMIT,
        0 < extent <= COORD_LIMIT,
    ensures
        res.0 as int == wall_axis(p as int, v as int, r as int, extent as int).0,
        res.1 as int == wall_axis(p as int, v as int, r as int, extent as int).1,
{
    if p - r < 0 {
        (r, -v)
    } else if p + r > extent {
        (extent - r, -v)
    } else {
        (p, v)
    }
}

/// Applies the wall rule to one body.
pub fn resolve_walls(b: &mut Body, width: i64, height: i64)
    requires
        old(b).wf(),
        extent_ok(width as int, height as int),
    ensures
        final(b)@ == wall_model(old(b)@, width as int, height as int),
        final(b).wf(),
{
    let x = wall_axis_exec(b.position.x, b.velocity.x, b.radius, width);
    let y = wall_axis_exec(b.position.y, b.velocity.y, b.radius, height);
    b.position.x = x.0;
    b.velocity.x = x.1;
    b.position.y = y.0;
    b.velocity.y = y.1;
}

/// Applies the wall rule to every body.
pub fn handle_wall_collisions(bodies: &mut Vec<Body>, width: i64, height: i64)
    requires
        all_wf(models(old(bodies)@)),
        extent_ok(width as int, height as int),
    ensures
        models(final(bodies)@) == walls_all_model(models(old(bodies)@), width as int, height as int),
        all_wf(models(final(bodies)@)),
{
    let ghost orig = models(bodies@);
    let n: usize = bodies.len();
    let mut i: usize = 0;
    while i < n
        invariant
            0 <= i <= n,
            n == bodies@.len(),
            n == orig.len(),
            all_wf(orig),
            extent_ok(width as int, height as int),
            all_wf(models(bodies@)),
            forall|k: int| 0 <= k < i ==> #[trigger] models(bodies@)[k] == wall_model(orig[k], width as int, height as int),
            forall|k: int| i <= k < n ==> #[trigger] models(bodies@)[k] == orig[k],
        decreases n - i,
    {
        let ghost before = models(bodies@);
        let mut b: Body = bodies[i];
        assert(before[i as int] == b@);
        resolve_walls(&mut b, width, height);
        bodies.set(i, b);
        assert(models(bodies@) =~= before.update(i as int, b@));
        i = i + 1;
    }
    assert(models(bodies@) =~= walls_all_model(orig, width as int, height as int));
}

} // verus!
