//! Position state of the agent and the camera, and the per-entity
//! registration records that carry collision-body handles.

use vstd::prelude::*;

verus! {

use crate::vec::{V3, Vec3};
use crate::world::BodyHandle;

/// Marker for the one camera.
#[derive(Clone, Copy, Debug)]
pub struct CameraEntity;

/// The camera's position state: current position and the desired
/// displacement for this frame.
#[derive(Clone, Copy, PartialEq, Eq, Structural, Debug)]
pub struct CameraPos {
    pub pos: Vec3,
    pub dpos: Vec3,
}

impl Default for CameraPos {
    /// The camera starts at `(-3, 5, 8)` world units, at rest.
    fn default() -> (r: Self)
        ensures
            r.pos@ == (V3 { x: -3000, y: 5000, z: 8000 }),
            r.dpos@ == V3::zero(),
    {
        Self { pos: Vec3 { x: -3000, y: 5000, z: 8000 }, dpos: Vec3 { x: 0, y: 0, z: 0 } }
    }
}

/// The agent's registration record: the handle of its collision body,
/// absent until the one-shot setup has run.
#[derive(Clone, Copy, PartialEq, Eq, Debug)]
pub struct PlayerEntity {
    pub handle: Option<BodyHandle>,
}

impl Default for PlayerEntity {
    fn default() -> (r: Self)
        ensures
            r.handle is None,
    {
        Self { handle: None }
    }
}

/// The agent's position state: current position, the desired
/// displacement for this frame, and the point the agent faces.
#[derive(Clone, Copy, PartialEq, Eq, Structural, Debug)]
pub struct PlayerPos {
    pub pos: Vec3,
    pub dpos: Vec3,
    pub facing: Vec3,
}

impl Default for PlayerPos {
    /// The agent starts at `(0, 1, 0)` world units, at rest, facing
    /// one unit along the `x` axis.
    fn default() -> (r: Self)
        ensures
            r.pos@ == (V3 { x: 0, y: 1000, z: 0 }),
            r.dpos@ == V3::zero(),
            r.facing@ == (V3 { x: 1000, y: 0, z: 0 }),
    {
        Self {
            pos: Vec3 { x: 0, y: 1000, z: 0 },
            dpos: Vec3 { x: 0, y: 0, z: 0 },
            facing: Vec3 { x: 1000, y: 0, z: 0 },
        }
    }
}

/// A static obstacle's registration record.
#[derive(Clone, Copy, PartialEq, Eq, Debug)]
pub struct StaticEntity {
    pub handle: Option<BodyHandle>,
}

impl Default for StaticEntity {
    fn default() -> (r: Self)
        ensures
            r.handle is None,
    {
        Self { handle: None }
    }
}

} // verus!
