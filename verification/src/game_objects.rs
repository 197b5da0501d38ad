//! Scenes and the drawable objects they produce.
//!
//! A scene object carries a stable identity, generated once at
//! construction, plus an ordered sequence of 2D vertices. The identity is
//! the buffer-cache key: it stays the same across frames even if the object
//! is redrawn every frame, and an object that disappears from the scene's
//! list has its cached buffer swept.
use vstd::prelude::*;

verus! {

/// An immutable 2D position. The two components are IEEE-754 single
/// precision bit patterns: the core never computes with coordinates, it
/// only hands them to the GPU collaborator, which reinterprets the bits.
#[derive(Debug, Clone, Copy)]
pub struct Vertex {
    pub position: [u32; 2],
}

impl Vertex {
    pub fn new(position: [u32; 2]) -> (v: Vertex)
        ensures
            v.position == position,
    {
        Vertex { position }
    }

    pub fn x(&self) -> (r: u32)
        ensures
            r == self.position[0],
    {
        self.position[0]
    }

    pub fn y(&self) -> (r: u32)
        ensures
            r == self.position[1],
    {
        self.position[1]
    }
}

/// Relies on `uuid::Uuid::new_v4` and `Uuid::as_u128`: a freshly generated
/// random version-4 UUID, as its 128-bit value. The result is random, so
/// nothing is promised of it.
#[verifier::external_body]
fn fresh_object_id() -> u128 {
    uuid::Uuid::new_v4().as_u128()
}

/// An identity-bearing bundle of vertex data, drawn once per update step.
#[derive(Debug)]
pub struct GameObject {
    /// Stable identity, assigned once at construction; the cache key.
    pub id: u128,
    pub vertices: Vec<Vertex>,
}

impl GameObject {
    /// A new object with a freshly generated identity.
    pub fn new(vertices: Vec<Vertex>) -> (r: GameObject)
        ensures
            r.vertices@ == vertices@,
    {
        GameObject { id: fresh_object_id(), vertices }
    }
}

/// A user-supplied producer of drawable objects with lifecycle hooks.
///
/// The engine calls `on_start` once before any update, `on_update` once per
/// fixed update step, and `on_destroy` once after the last step. The object
/// list returned by `get_scene_objects` is read once per draw and may be
/// replaced wholesale between frames; cache entries of objects no longer
/// listed are evicted during the next recording.
pub trait Scene {
    fn on_start(&mut self);

    fn on_update(&mut self);

    fn on_destroy(&mut self);

    fn get_scene_objects(&self) -> &Vec<GameObject>;
}

} // verus!
