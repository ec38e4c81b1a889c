//! The body record and its mathematical model.
use vstd::prelude::*;

verus! {

/// Largest magnitude of a coordinate, a velocity component, a radius or a
/// domain extent, in the host's length and time units.
pub const COORD_LIMIT: i64 = 4_194_304;

/// Largest mass of a body.
pub const MASS_LIMIT: i64 = 17_592_186_044_416;

/// A point or a velocity in the plane.
#[derive(Clone, Copy, Debug, PartialEq, Eq, Structural)]
pub struct Vec2 {
    pub x: i64,
    pub y: i64,
}

/// A disk: centre, velocity, mass and contact radius.
#[derive(Clone, Copy, Debug, PartialEq, Eq, Structural)]
pub struct Body {
    pub position: Vec2,
    pub velocity: Vec2,
    pub mass: i64,
    pub radius: i64,
}

/// The numeric state of a body, as mathematical integers.
pub struct BodyModel {
    pub px: int,
    pub py: int,
    pub vx: int,
    pub vy: int,
    pub mass: int,
    pub radius: int,
}

/// `v` lies in the range of a coordinate or velocity component.
pub open spec fn in_coord_range(v: int) -> bool {
    -COORD_LIMIT <= v <= COORD_LIMIT
}

/// `v` brought into the range of a coordinate.
pub open spec fn clamp_coord(v: int) -> int {
    if v > COORD_LIMIT {
        COORD_LIMIT as int
    } else if v < -COORD_LIMIT {
        -COORD_LIMIT
    } else {
        v
    }
}

/// A well-formed body: finite state in range, positive radius and mass.
pub open spec fn model_wf(m: BodyModel) -> bool {
    &&& in_coord_range(m.px)
    &&& in_coord_range(m.py)
    &&& in_coord_range(m.vx)
    &&& in_coord_range(m.vy)
    &&& 0 < m.radius <= COORD_LIMIT
    &&& 0 < m.mass <= MASS_LIMIT
}

/// The models of a sequence of bodies.
pub open spec fn models(s: Seq<Body>) -> Seq<BodyModel> {
    s.map_values(|b: Body| b@)
}

/// Every body of the sequence is well formed.
pub open spec fn all_wf(s: Seq<BodyModel>) -> bool {
    forall|i: int| 0 <= i < s.len() ==> model_wf(#[trigger] s[i])
}

impl View for Body {
    type V = BodyModel;

    open spec fn view(&self) -> BodyModel {
        BodyModel {
            px: self.position.x as int,
            py: self.position.y as int,
            vx: self.velocity.x as int,
            vy: self.velocity.y as int,
            mass: self.mass as int,
            radius: self.radius as int,
        }
    }
}

impl Vec2 {
    pub fn new(x: i64, y: i64) -> (r: Vec2)
        ensures
            r.x == x,
            r.y == y,
    {
        Vec2 { x, y }
    }
}

impl Body {
    pub open spec fn wf(&self) -> bool {
        model_wf(self@)
    }

    /// A body of uniform density: its mass is the area of the disk divided
    /// by pi, which is all that the collision formulas read of it.
    pub fn new(position: Vec2, velocity: Vec2, radius: i64) -> (b: Body)
        requires
            0 < radius <= COORD_LIMIT,
        ensures
            b.position == position,
            b.velocity == velocity,
            b.radius == radius,
            b.mass == radius * radius,
    {
        assert(radius * radius <= COORD_LIMIT * COORD_LIMIT) by (nonlinear_arith)
            requires 0 < radius <= COORD_LIMIT;
        Body { position, velocity, mass: radius * radius, radius }
    }

    /// Whether the body is well formed.
    pub fn in_range(&self) -> (r: bool)
        ensures
            r == self.wf(),
    {
        let lim: i64 = COORD_LIMIT;
        -lim <= self.position.x && self.position.x <= lim && -lim <= self.position.y && self.position.y <= lim
            && -lim <= self.velocity.x && self.velocity.x <= lim && -lim <= self.velocity.y
            && self.velocity.y <= lim && 0 < self.radius && self.radius <= lim && 0 < self.mass
            && self.mass <= MASS_LIMIT
    }
}

/// Brings `v` into the range of a coordinate.
pub fn clamp_to_coord(v: i128) -> (r: i64)
    ensures
        r == clamp_coord(v as int),
{
    if v > COORD_LIMIT as i128 {
        COORD_LIMIT
    } else if v < -(COORD_LIMIT as i128) {
        -COORD_LIMIT
    } else {
        v as i64
    }
}

} // verus!
