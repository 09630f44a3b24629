//! Bodies and their fixed-point units.
//!
//! Units: positions in millimetres, velocities in micrometres per second,
//! accelerations in nanometres per second squared, masses in units of
//! 10^15 kg, radii in metres, times in microseconds.
use vstd::prelude::*;

verus! {

/// A vector of three integer components.
#[derive(Clone, Copy, Debug, PartialEq, Eq, Structural)]
pub struct Vec3 {
    pub x: i64,
    pub y: i64,
    pub z: i64,
}

/// Display colour, carried for the renderer only.
#[derive(Clone, Copy, Debug, PartialEq, Eq, Structural)]
pub struct Color {
    pub r: u8,
    pub g: u8,
    pub b: u8,
    pub a: u8,
}

/// A point mass.
#[derive(Clone, Copy, Debug, PartialEq, Eq, Structural)]
pub struct Body {
    /// Millimetres.
    pub position: Vec3,
    /// Micrometres per second.
    pub velocity: Vec3,
    /// Units of 10^15 kg; positive.
    pub mass: u64,
    /// Metres; for display only.
    pub radius: u64,
    pub color: Color,
}

/// Component `k` (0, 1 or 2 for x, y, z) of `v`.
pub open spec fn axis(v: Vec3, k: int) -> int {
    if k == 0 {
        v.x as int
    } else if k == 1 {
        v.y as int
    } else {
        v.z as int
    }
}

impl Vec3 {
    pub fn new(x: i64, y: i64, z: i64) -> (r: Vec3)
        ensures
            r == (Vec3 { x, y, z }),
    {
        Vec3 { x, y, z }
    }
}

impl Body {
    /// A body of positive mass.
    pub open spec fn wf(self) -> bool {
        self.mass > 0
    }
}

} // verus!
