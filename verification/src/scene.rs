//! The scene: entities plus static stage geometry.
//!
//! Stage objects are polymorphic over a small capability set; the kernel
//! never needs more than read access to their bounding boxes, and their
//! visual content is the rendering collaborator's business. The game state
//! owns the entities and the stages for the whole run and drives the physics
//! tick over them.

use crate::components::Entity;
use crate::physics::{
    run_ticks, step_entity, step_entity_spec, step_world, step_world_spec, ticks_fit, world_after,
    world_fits, world_view, entity_fits,
};
use vstd::prelude::*;

verus! {

/// An axis-aligned rectangle in world space.
#[derive(Clone, Copy, Debug, PartialEq, Eq, Structural)]
pub struct Rect {
    pub x: i64,
    pub y: i64,
    pub width: i64,
    pub height: i64,
}

/// The capability interface of static stage geometry: a bounding box the
/// kernel may read. Future stage variants implement this trait; the kernel
/// never exceeds read access.
pub trait Stage {
    /// The bounding box this stage reports.
    spec fn spec_bounding_box(&self) -> Rect;

    /// Returns the stage's bounding box.
    fn bounding_box(&self) -> (r: Rect)
        ensures
            r == self.spec_bounding_box(),
    ;
}

/// A rectangular platform: the one concrete stage variant the kernel ships.
#[derive(Clone, Copy, Debug, PartialEq, Eq, Structural)]
pub struct Platform {
    pub bbox: Rect,
}

impl Stage for Platform {
    open spec fn spec_bounding_box(&self) -> Rect {
        self.bbox
    }

    fn bounding_box(&self) -> (r: Rect) {
        self.bbox
    }
}

/// The whole simulation state: the entities and the stage geometry, both
/// exclusively owned and alive for the whole run.
pub struct Gamestate<S> {
    pub actors: Vec<Entity>,
    pub stages: Vec<S>,
}

impl<S> Gamestate<S> {
    /// Runs one physics tick over the entity at `idx`, leaving every other
    /// entity and all stages untouched.
    pub fn step_actor(&mut self, idx: usize, dt: i64)
        requires
            idx < old(self).actors@.len(),
            entity_fits(old(self).actors@[idx as int]@, dt as int),
        ensures
            final(self).actors@.len() == old(self).actors@.len(),
            final(self).actors@[idx as int]@ == step_entity_spec(
                old(self).actors@[idx as int]@,
                dt as int,
            ),
            forall|j: int|
                0 <= j < old(self).actors@.len() && j != idx ==> final(self).actors@[j] == old(
                    self,
                ).actors@[j],
            final(self).stages == old(self).stages,
    {
        step_entity(&mut self.actors[idx], dt);
    }

    /// Runs one physics tick over every entity, in index order.
    pub fn step(&mut self, dt: i64)
        requires
            world_fits(world_view(old(self).actors@), dt as int),
        ensures
            world_view(final(self).actors@) == step_world_spec(
                world_view(old(self).actors@),
                dt as int,
            ),
            final(self).stages == old(self).stages,
    {
        step_world(&mut self.actors, dt);
    }

    /// Runs `ticks` successive physics ticks, as the fixed-timestep loop
    /// demands for one rendered frame.
    pub fn run(&mut self, dt: i64, ticks: u64)
        requires
            ticks_fit(world_view(old(self).actors@), dt as int, ticks as nat),
        ensures
            world_view(final(self).actors@) == world_after(
                world_view(old(self).actors@),
                dt as int,
                ticks as nat,
            ),
            final(self).stages == old(self).stages,
    {
        run_ticks(&mut self.actors, dt, ticks);
    }
}

} // verus!
