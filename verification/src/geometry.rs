//! Fixed-point 2D/3D vectors and the axis-aligned bounding-box hit test.
//!
//! All coordinates are integers in tenths of a world unit. The hit test is
//! strict: a point exactly on an edge of a box is not contained, and a box
//! with zero width or height contains nothing.

use vstd::prelude::*;

verus! {

/// A 2D vector in fixed-point world coordinates (tenths of a world unit).
#[derive(Clone, Copy, PartialEq, Eq, Structural, Debug)]
pub struct Vec2 {
    pub x: i64,
    pub y: i64,
}

/// A 3D vector; `z` is an advisory depth used only for draw ordering.
#[derive(Clone, Copy, PartialEq, Eq, Structural, Debug)]
pub struct Vec3 {
    pub x: i64,
    pub y: i64,
    pub z: i64,
}

impl Vec2 {
    pub fn new(x: i64, y: i64) -> (v: Vec2)
        ensures
            v == (Vec2 { x, y }),
    {
        Vec2 { x, y }
    }
}

impl Vec3 {
    pub fn new(x: i64, y: i64, z: i64) -> (v: Vec3)
        ensures
            v == (Vec3 { x, y, z }),
    {
        Vec3 { x, y, z }
    }
}

/// Whether `p` lies strictly inside the axis-aligned box with the given
/// center and size on both axes. Stated over the doubled coordinates so the
/// half-size needs no division and the comparison is exact.
pub open spec fn box_contains(center: Vec3, size: Vec2, p: Vec2) -> bool {
    &&& 2 * center.x - size.x < 2 * p.x
    &&& 2 * p.x < 2 * center.x + size.x
    &&& 2 * center.y - size.y < 2 * p.y
    &&& 2 * p.y < 2 * center.y + size.y
}

/// An axis-aligned rectangle: a center (with advisory depth) and a size.
/// Width and height are never negative.
pub struct BoundingBox {
    center: Vec3,
    size: Vec2,
}

impl BoundingBox {
    pub closed spec fn spec_center(&self) -> Vec3 {
        self.center
    }

    pub closed spec fn spec_size(&self) -> Vec2 {
        self.size
    }

    pub fn new(center: Vec3, size: Vec2) -> (b: BoundingBox)
        requires
            size.x >= 0,
            size.y >= 0,
        ensures
            b.spec_center() == center,
            b.spec_size() == size,
    {
        BoundingBox { center, size }
    }

    /// Strict hit test: `point` must lie strictly between the box's edges on
    /// both axes; edge points are outside, and a zero-size box is empty.
    pub fn point_in(&self, point: Vec2) -> (r: bool)
        ensures
            r == box_contains(self.spec_center(), self.spec_size(), point),
    {
        let cx = self.center.x as i128;
        let cy = self.center.y as i128;
        let sx = self.size.x as i128;
        let sy = self.size.y as i128;
        let px = point.x as i128;
        let py = point.y as i128;
        2 * cx - sx < 2 * px && 2 * px < 2 * cx + sx && 2 * cy - sy < 2 * py && 2 * py < 2 * cy
            + sy
    }
}

} // verus!
