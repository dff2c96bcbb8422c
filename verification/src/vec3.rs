//! Three-component vectors on the fixed-point scale: a star's direction
//! relative to the observer, with each coordinate counted in millionths
//! of a unit.

use vstd::prelude::*;
use crate::fixed::abs;

verus! {

/// Mathematical model of a [`Vec3`]: unbounded integer coordinates on
/// the same millionths scale.
pub ghost struct Vec3i {
    pub x: int,
    pub y: int,
    pub z: int,
}

/// Every coordinate within `b` in magnitude.
pub open spec fn vec3i_within(v: Vec3i, b: int) -> bool {
    abs(v.x) <= b && abs(v.y) <= b && abs(v.z) <= b
}

/// The component-wise difference `a - b` stays inside the fixed-point
/// range.
pub open spec fn sub_fits(a: Vec3i, b: Vec3i) -> bool {
    &&& i64::MIN <= a.x - b.x <= i64::MAX
    &&& i64::MIN <= a.y - b.y <= i64::MAX
    &&& i64::MIN <= a.z - b.z <= i64::MAX
}

/// The translation itself, on the model level.
pub open spec fn vec3i_sub(a: Vec3i, b: Vec3i) -> Vec3i {
    Vec3i { x: a.x - b.x, y: a.y - b.y, z: a.z - b.z }
}

/// A star direction (or an observer position): three fixed-point
/// coordinates in millionths of a unit.
#[derive(Clone, Copy, Debug, PartialEq, Eq)]
pub struct Vec3 {
    pub x: i64,
    pub y: i64,
    pub z: i64,
}

impl View for Vec3 {
    type V = Vec3i;

    open spec fn view(&self) -> Vec3i {
        Vec3i { x: self.x as int, y: self.y as int, z: self.z as int }
    }
}

impl Vec3 {
    /// Every coordinate within `b` in magnitude.
    pub open spec fn within(self, b: int) -> bool {
        vec3i_within(self@, b)
    }

    pub fn new(x: i64, y: i64, z: i64) -> (r: Vec3)
        ensures
            r@ == (Vec3i { x: x as int, y: y as int, z: z as int }),
    {
        Vec3 { x, y, z }
    }

    /// Component-wise difference, the translation of `seen_from`.
    pub fn sub(&self, other: &Vec3) -> (r: Vec3)
        requires
            sub_fits(self@, other@),
        ensures
            r@ == vec3i_sub(self@, other@),
    {
        Vec3 { x: self.x - other.x, y: self.y - other.y, z: self.z - other.z }
    }
}

} // verus!
