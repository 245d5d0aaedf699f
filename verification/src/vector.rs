//! Integer points and force vectors, with arithmetic that saturates at the
//! limits of `i64` instead of overflowing.

use vstd::prelude::*;

verus! {

/// The value of `v` held inside the closed interval from `lo` to `hi`.
pub open spec fn clamp(v: int, lo: int, hi: int) -> int {
    if v < lo {
        lo
    } else if v > hi {
        hi
    } else {
        v
    }
}

/// The value of `v` held inside the range of `i64`.
pub open spec fn saturate(v: int) -> int {
    clamp(v, i64::MIN as int, i64::MAX as int)
}

/// Adds two coordinates; a sum outside the range of `i64` becomes the
/// nearest bound.
pub fn saturating_sum(a: i64, b: i64) -> (r: i64)
    ensures
        r == saturate(a + b),
{
    let wide: i128 = a as i128 + b as i128;
    if wide < i64::MIN as i128 {
        i64::MIN
    } else if wide > i64::MAX as i128 {
        i64::MAX
    } else {
        wide as i64
    }
}

/// A location on the layout surface, in presentation units, with the origin
/// at the centre of the surface.
#[derive(Clone, Copy, PartialEq, Eq, Structural, Debug, Hash)]
pub struct Point {
    pub x: i64,
    pub y: i64,
}

/// A push on a vertex, in presentation units per tick.
#[derive(Clone, Copy, PartialEq, Eq, Structural, Debug, Hash)]
pub struct Force {
    pub x: i64,
    pub y: i64,
}

impl Point {
    /// The point with the given coordinates.
    pub fn new(x: i64, y: i64) -> (p: Point)
        ensures
            p == (Point { x, y }),
    {
        Point { x, y }
    }

    /// Where this point lands when displaced by `f`, each coordinate
    /// saturating on its own.
    pub open spec fn moved_by(self, f: Force) -> Point {
        Point { x: saturate(self.x + f.x) as i64, y: saturate(self.y + f.y) as i64 }
    }

    /// Displaces the point by `f`.
    pub fn displace(self, f: Force) -> (p: Point)
        ensures
            p == self.moved_by(f),
    {
        Point { x: saturating_sum(self.x, f.x), y: saturating_sum(self.y, f.y) }
    }
}

impl Force {
    /// The force that moves nothing.
    pub open spec fn zero() -> Force {
        Force { x: 0, y: 0 }
    }

    /// The sum of two forces, each component saturating on its own.
    pub open spec fn plus(self, f: Force) -> Force {
        Force { x: saturate(self.x + f.x) as i64, y: saturate(self.y + f.y) as i64 }
    }

    /// The force with the given components.
    pub fn new(x: i64, y: i64) -> (f: Force)
        ensures
            f == (Force { x, y }),
    {
        Force { x, y }
    }

    /// Adds two forces.
    pub fn combine(self, f: Force) -> (r: Force)
        ensures
            r == self.plus(f),
    {
        Force { x: saturating_sum(self.x, f.x), y: saturating_sum(self.y, f.y) }
    }
}

} // verus!
