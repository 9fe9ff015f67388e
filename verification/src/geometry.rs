//! Points of the plane, in fixed-point coordinates.

use crate::fixed::{
    clamp_coord, clamp_coord_spec, clamp_screen, clamp_screen_spec, in_coord_range,
    in_screen_range, COORD_MAX, SCREEN_MAX, SCREEN_UNIT, UNIT,
};
use vstd::prelude::*;

verus! {

/// A point.  Image space and screen space both use it; which of the two a
/// value belongs to is said where it is stored.  A point of image space
/// counts coordinate units, 1024 to the pixel, and one of screen space
/// screen units, 2^30 to the pixel.
#[derive(Clone, Copy, Debug, PartialEq, Eq, Structural)]
pub struct Point {
    pub x: i64,
    pub y: i64,
}

impl Point {
    /// Both coordinates lie in the coordinate range.
    pub open spec fn wf(self) -> bool {
        in_coord_range(self.x as int) && in_coord_range(self.y as int)
    }

    /// The point `(x, y)`, each coordinate confined to the coordinate range.
    pub fn new(x: i64, y: i64) -> (p: Point)
        ensures
            p.wf(),
            p.x == clamp_coord_spec(x as int),
            p.y == clamp_coord_spec(y as int),
    {
        Point { x: clamp_coord(x as i128), y: clamp_coord(y as i128) }
    }

    /// The corner of the pixel in column `x` and row `y`.
    pub fn from_pixels(x: i32, y: i32) -> (p: Point)
        ensures
            p.wf(),
            p.x == clamp_coord_spec(x as int * UNIT as int),
            p.y == clamp_coord_spec(y as int * UNIT as int),
    {
        let wx: i128 = (x as i128) * (UNIT as i128);
        let wy: i128 = (y as i128) * (UNIT as i128);
        Point { x: clamp_coord(wx), y: clamp_coord(wy) }
    }

    /// Both coordinates lie in the range of screen coordinates.
    pub open spec fn on_screen(self) -> bool {
        in_screen_range(self.x as int) && in_screen_range(self.y as int)
    }

    /// The point of screen space at the corner of the screen pixel in column
    /// `x` and row `y`.
    pub fn from_screen_pixels(x: i32, y: i32) -> (p: Point)
        ensures
            p.on_screen(),
            p.x == x as int * SCREEN_UNIT as int,
            p.y == y as int * SCREEN_UNIT as int,
    {
        let wx: i128 = (x as i128) * (SCREEN_UNIT as i128);
        let wy: i128 = (y as i128) * (SCREEN_UNIT as i128);
        Point { x: wx as i64, y: wy as i64 }
    }

    /// The point of screen space `(x, y)`, each coordinate confined to the
    /// range of screen coordinates.
    pub fn screen(x: i64, y: i64) -> (p: Point)
        ensures
            p.on_screen(),
            p.x == clamp_screen_spec(x as int),
            p.y == clamp_screen_spec(y as int),
    {
        Point { x: clamp_screen(x as i128), y: clamp_screen(y as i128) }
    }

    /// Whether both coordinates lie in the range of screen coordinates.
    pub fn is_on_screen(&self) -> (ok: bool)
        ensures
            ok == self.on_screen(),
    {
        -SCREEN_MAX <= self.x && self.x <= SCREEN_MAX && -SCREEN_MAX <= self.y && self.y
            <= SCREEN_MAX
    }

    /// Whether both coordinates lie in the coordinate range.
    pub fn is_valid(&self) -> (ok: bool)
        ensures
            ok == self.wf(),
    {
        -COORD_MAX <= self.x && self.x <= COORD_MAX && -COORD_MAX <= self.y && self.y
            <= COORD_MAX
    }
}

/// Every point of `points` lies in the coordinate range.
pub open spec fn all_wf(points: Seq<Point>) -> bool {
    forall|i: int| 0 <= i < points.len() ==> (#[trigger] points[i]).wf()
}

/// Whether every point of `points` lies in the coordinate range.
pub fn all_valid(points: &Vec<Point>) -> (ok: bool)
    ensures
        ok == all_wf(points@),
{
    let mut i: usize = 0;
    while i < points.len()
        invariant
            i <= points.len(),
            forall|j: int| 0 <= j < i ==> (#[trigger] points@[j]).wf(),
        decreases points.len() - i,
    {
        if !points[i].is_valid() {
            return false;
        }
        i += 1;
    }
    true
}

} // verus!
