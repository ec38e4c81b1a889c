//! The simulation: its configuration, its bodies, and the per-tick pipeline.
use vstd::prelude::*;
use crate::body::{Body, BodyModel, Vec2, COORD_LIMIT, model_wf, models, all_wf};
use crate::collide::{resolve_all_model, restitution_ok, handle_billard_collisions, RESTITUTION_SCALE};
use crate::walls::{walls_all_model, extent_ok, handle_wall_collisions};
use crate::integrate::{euler_all_model, gravity_ok, dt_ok, symplectic_euler};

verus! {

/// Fixed parameters of a simulation: the domain `[0, width] x [0, height]`,
/// the constant acceleration applied to every body, and the restitution of
/// body-body contacts in hundredths. A zero `gravity` gives free flight
/// between contacts; `(0, -g)` a uniform downward pull.
#[derive(Clone, Copy, Debug, PartialEq, Eq, Structural)]
pub struct SimConfig {
    pub width: i64,
    pub height: i64,
    pub gravity: Vec2,
    pub restitution: i64,
}

impl SimConfig {
    pub open spec fn wf(&self) -> bool {
        extent_ok(self.width as int, self.height as int) && gravity_ok(self.gravity)
            && restitution_ok(self.restitution as int)
    }
}

/// One tick: body-body contacts, then walls, then integration by `dt`.
pub open spec fn tick_model(s: Seq<BodyModel>, c: SimConfig, dt: int) -> Seq<BodyModel> {
    euler_all_model(
        walls_all_model(resolve_all_model(s, c.restitution as int), c.width as int, c.height as int),
        c.gravity.x as int,
        c.gravity.y as int,
        dt,
    )
}

/// A fixed population of bodies advanced one tick at a time.
pub struct BillardsPlugin {
    pub config: SimConfig,
    pub bodies: Vec<Body>,
}

impl BillardsPlugin {
    pub open spec fn wf(&self) -> bool {
        self.config.wf() && all_wf(models(self.bodies@))
    }

    /// Builds a simulation, or `None` when the configuration or one of the
    /// bodies is out of range.
    pub fn new(config: SimConfig, bodies: Vec<Body>) -> (r: Option<BillardsPlugin>)
        ensures
            r.is_some() <==> config.wf() && all_wf(models(bodies@)),
            r.is_some() ==> r.unwrap().config == config && r.unwrap().bodies@ == bodies@,
    {
        if !config_in_range(&config) {
            return None;
        }
        let mut i: usize = 0;
        while i < bodies.len()
            invariant
                0 <= i <= bodies@.len(),
                forall|k: int| 0 <= k < i ==> model_wf(#[trigger] models(bodies@)[k]),
            decreases bodies@.len() - i,
        {
            if !bodies[i].in_range() {
                assert(!model_wf(models(bodies@)[i as int]));
                return None;
            }
            i = i + 1;
        }
        Some(BillardsPlugin { config, bodies })
    }

    /// Runs one tick: every pair of bodies, then every wall, then the
    /// integrator with time step `dt`.
    pub fn tick(&mut self, dt: i64)
        requires
            old(self).wf(),
            dt_ok(dt as int),
        ensures
            final(self).wf(),
            final(self).config == old(self).config,
            models(final(self).bodies@) == tick_model(models(old(self).bodies@), old(self).config, dt as int),
    {
        handle_billard_collisions(&mut self.bodies, self.config.restitution);
        handle_wall_collisions(&mut self.bodies, self.config.width, self.config.height);
        symplectic_euler(&mut self.bodies, self.config.gravity, dt);
    }

    /// The number of bodies.
    pub fn len(&self) -> (n: usize)
        ensures
            n == self.bodies@.len(),
    {
        self.bodies.len()
    }

    /// The centre of body `i`.
    pub fn position(&self, i: usize) -> (p: Vec2)
        requires
            i < self.bodies@.len(),
        ensures
            p == self.bodies@[i as int].position,
    {
        self.bodies[i].position
    }
}

fn config_in_range(c: &SimConfig) -> (r: bool)
    ensures
        r == c.wf(),
{
    0 < c.width && c.width <= COORD_LIMIT && 0 < c.height && c.height <= COORD_LIMIT
        && -COORD_LIMIT <= c.gravity.x && c.gravity.x <= COORD_LIMIT
        && -COORD_LIMIT <= c.gravity.y && c.gravity.y <= COORD_LIMIT
        && 0 <= c.restitution && c.restitution <= RESTITUTION_SCALE
}

} // verus!
