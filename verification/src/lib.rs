//! Core model of a sparse voxel octree that lives in a flat GPU buffer:
//! node encoding, spatial addressing, the incremental point-edit protocol,
//! and the dispatch/barrier discipline that orders the GPU passes.

use vstd::prelude::*;

pub mod cube;
pub mod direction;
pub mod dispatch;
pub mod gfx;
pub mod input;
pub mod laws;
mod material;
pub mod ply;
pub mod resources;
pub mod shading;
pub mod trace;
pub mod tree;
pub mod vao;

pub use material::Material;

verus! {

/// A spatial vector with integer components; movement directions map to
/// unit vectors in these coordinates.
#[derive(Clone, Copy, PartialEq, Eq, Structural, Debug)]
pub struct Vec3i {
    pub x: i32,
    pub y: i32,
    pub z: i32,
}

/// A movement direction in camera space.
#[derive(Clone, Copy, PartialEq, Eq, Structural, Debug)]
pub enum Direction {
    Front,
    Back,
    Rigth,
    Left,
    Up,
    Down,
}

impl Direction {
    /// The unit vector this direction moves along: the camera looks down
    /// the negative `z` axis, `x` grows rightward and `y` upward.
    pub fn into_vector3(self) -> (r: Vec3i)
        ensures
            r == match self {
                Direction::Front => Vec3i { x: 0i32, y: 0i32, z: -1i32 },
                Direction::Back => Vec3i { x: 0i32, y: 0i32, z: 1i32 },
                Direction::Rigth => Vec3i { x: 1i32, y: 0i32, z: 0i32 },
                Direction::Left => Vec3i { x: -1i32, y: 0i32, z: 0i32 },
                Direction::Up => Vec3i { x: 0i32, y: 1i32, z: 0i32 },
                Direction::Down => Vec3i { x: 0i32, y: -1i32, z: 0i32 },
            },
    {
        match self {
            Direction::Front => Vec3i { x: 0, y: 0, z: -1 },
            Direction::Back => Vec3i { x: 0, y: 0, z: 1 },
            Direction::Rigth => Vec3i { x: 1, y: 0, z: 0 },
            Direction::Left => Vec3i { x: -1, y: 0, z: 0 },
            Direction::Up => Vec3i { x: 0, y: 1, z: 0 },
            Direction::Down => Vec3i { x: 0, y: -1, z: 0 },
        }
    }
}

} // verus!
