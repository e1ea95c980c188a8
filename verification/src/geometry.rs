//! World coordinates.
//!
//! Every length, position and speed is an integer count of world units, a
//! thousandth of a pixel each, so that tile edges, collider extents and the
//! movement speeds are all exact.

use vstd::prelude::*;

verus! {

/// World units in one pixel.
pub const UNITS_PER_PIXEL: i64 = 1000;

/// Edge of one map tile: 16 pixels.
pub const TILE_SIZE: i64 = 16000;

/// Half the edge of a map tile: 8 pixels.
pub const HALF_TILE: i64 = 8000;

/// Half extent of a solid tile collider: half a tile less a hundredth of a
/// pixel, which keeps neighbouring colliders from touching at their seams.
pub const TILE_HALF_EXTENT: i64 = 7990;

/// A point or displacement in world units.
#[derive(Clone, Copy, PartialEq, Eq, Structural, Debug)]
pub struct Vec2 {
    pub x: i64,
    pub y: i64,
}

impl Vec2 {
    /// The point `(x, y)`.
    pub fn new(x: i64, y: i64) -> (v: Vec2)
        ensures
            v == (Vec2 { x, y }),
    {
        Vec2 { x, y }
    }

    /// The origin.
    pub fn zero() -> (v: Vec2)
        ensures
            v == (Vec2 { x: 0, y: 0 }),
    {
        Vec2 { x: 0, y: 0 }
    }

    /// Whether the vector runs along at most one axis.
    pub open spec fn is_axis_aligned(self) -> bool {
        self.x == 0 || self.y == 0
    }
}

/// Half of `v`, rounded toward zero.
pub open spec fn half(v: int) -> int {
    if v >= 0 {
        v / 2
    } else {
        -((-v) / 2)
    }
}

/// The sum of `a` and `b`, or the end of the coordinate range that the sum
/// lies beyond.
pub open spec fn clamped_sum(a: int, b: int) -> int {
    if a + b > i64::MAX {
        i64::MAX as int
    } else if a + b < i64::MIN {
        i64::MIN as int
    } else {
        a + b
    }
}

/// The sum of `a` and `b`, or the end of the coordinate range that the sum
/// lies beyond.
pub fn clamped_add(a: i64, b: i64) -> (sum: i64)
    ensures
        sum == clamped_sum(a as int, b as int),
{
    let sum: i128 = a as i128 + b as i128;
    if sum > i64::MAX as i128 {
        i64::MAX
    } else if sum < i64::MIN as i128 {
        i64::MIN
    } else {
        sum as i64
    }
}

/// Half of `v`, rounded toward zero.
pub fn halve(v: i64) -> (h: i64)
    ensures
        h == half(v as int),
{
    v / 2
}

} // verus!
