//! Planar pan directions and their unit vectors, for the 2D camera.

use vstd::prelude::*;

verus! {

/// A planar vector with integer components; the pan directions map to
/// unit vectors in these coordinates.
#[derive(Clone, Copy, PartialEq, Eq, Structural, Debug)]
pub struct Vec2i {
    pub x: i32,
    pub y: i32,
}

/// A pan direction in the image plane.
#[derive(Clone, Copy, PartialEq, Eq, Structural, Debug)]
pub enum Direction {
    Up,
    Rigth,
    Down,
    Left,
}

impl Direction {
    /// The unit vector this direction pans along: screen-space `y` grows
    /// downward and `x` grows leftward, matching the camera's convention.
    pub fn into_vector2(self) -> (r: Vec2i)
        ensures
            r == match self {
                Direction::Up => Vec2i { x: 0i32, y: -1i32 },
                Direction::Rigth => Vec2i { x: -1i32, y: 0i32 },
                Direction::Down => Vec2i { x: 0i32, y: 1i32 },
                Direction::Left => Vec2i { x: 1i32, y: 0i32 },
            },
    {
        match self {
            Direction::Up => Vec2i { x: 0, y: -1 },
            Direction::Rigth => Vec2i { x: -1, y: 0 },
            Direction::Down => Vec2i { x: 0, y: 1 },
            Direction::Left => Vec2i { x: 1, y: 0 },
        }
    }
}

} // verus!
