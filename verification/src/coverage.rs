//! Regions of the plane and the exact test of whether a sample point lies in
//! one.  A pixel's coverage is the number of its four sample points, at the
//! quarter offsets, that its region holds.

use crate::fixed::{in_coord_range, max_int, min_int, COORD_MAX, UNIT};
use crate::geometry::{all_wf, Point};
use vstd::prelude::*;

verus! {

/// Largest doubled radius of an ellipse that can be tested.
pub const EXTENT_MAX: i64 = 2_147_549_184;

/// Largest width of a stroke.
pub const WIDTH_MAX: i64 = 65_535;

/// Largest magnitude of a sample coordinate that can be tested.
pub const SAMPLE_MAX: i64 = 4_294_967_296;

/// The offset of a pixel's first sample from its corner: a quarter pixel.
pub const NEAR: i64 = 256;

/// The offset of a pixel's second sample from its corner: three quarters.
pub const FAR: i64 = 768;

/// A region of the plane, in coordinate units.
pub enum Region {
    /// The band of the given width along the ellipse of radii `rx` and `ry`
    /// round `(cx, cy)`: the points inside or on the ellipse whose radii are
    /// half the width longer that are not strictly inside the one whose
    /// radii are half the width shorter, or zero where that is more than
    /// they have.
    Ring { cx: i64, cy: i64, rx: i64, ry: i64, width: i64 },
    /// The points inside or on an ellipse.
    Oval { cx: i64, cy: i64, rx: i64, ry: i64 },
    /// The points no further than half of `width` from the segment between
    /// `a` and `b`.  Empty when the two ends coincide.
    Capsule { a: Point, b: Point, width: i64 },
    /// The points of an axis-parallel rectangle, border included.
    Slab { min: Point, max: Point },
    /// The points around which the closed outline through `points` winds a
    /// number of times other than zero.
    Polygon { points: Seq<Point> },
}

/// A region as the rasteriser holds it.
pub enum Stencil<'a> {
    Ring { cx: i64, cy: i64, rx: i64, ry: i64, width: i64 },
    Oval { cx: i64, cy: i64, rx: i64, ry: i64 },
    Capsule { a: Point, b: Point, width: i64 },
    Slab { min: Point, max: Point },
    Polygon { points: &'a Vec<Point> },
}

impl<'a> View for Stencil<'a> {
    type V = Region;

    open spec fn view(&self) -> Region {
        match *self {
            Stencil::Ring { cx, cy, rx, ry, width } => Region::Ring { cx, cy, rx, ry, width },
            Stencil::Oval { cx, cy, rx, ry } => Region::Oval { cx, cy, rx, ry },
            Stencil::Capsule { a, b, width } => Region::Capsule { a, b, width },
            Stencil::Slab { min, max } => Region::Slab { min, max },
            Stencil::Polygon { points } => Region::Polygon { points: points@ },
        }
    }
}

/// `(dx, dy)`, taken from the centre, lies inside or on the ellipse of radii
/// `a` and `b`.
pub open spec fn ellipse_holds(dx: int, dy: int, a: int, b: int) -> bool {
    (dx * dx) * (b * b) + (dy * dy) * (a * a) <= (a * a) * (b * b)
}

/// `(dx, dy)`, taken from the centre, lies outside or on the ellipse of
/// radii `a` and `b`.
pub open spec fn ellipse_excludes(dx: int, dy: int, a: int, b: int) -> bool {
    (dx * dx) * (b * b) + (dy * dy) * (a * a) >= (a * a) * (b * b)
}

/// Whether a point lies no further than `reach` from the segment that runs
/// from the origin to `(dx, dy)`: from the origin where the point projects
/// before it, from the far end where it projects past that, and from the
/// line through both in between.  A segment without length holds nothing.
pub open spec fn near_segment(ux: int, uy: int, dx: int, dy: int, reach: int) -> bool {
    let len2 = dx * dx + dy * dy;
    let dot = ux * dx + uy * dy;
    let cross = ux * dy - uy * dx;
    len2 > 0 && if dot <= 0 {
        ux * ux + uy * uy <= reach * reach
    } else if dot >= len2 {
        (ux - dx) * (ux - dx) + (uy - dy) * (uy - dy) <= reach * reach
    } else {
        cross * cross <= (reach * reach) * len2
    }
}

/// The point `(sx, sy)` is no further than half of `width` from the segment
/// between `a` and `b`.  Every length is taken twice, so that half the width
/// is not rounded.
pub open spec fn capsule_holds(sx: int, sy: int, a: Point, b: Point, width: int) -> bool {
    near_segment(2 * (sx - a.x), 2 * (sy - a.y), 2 * (b.x - a.x), 2 * (b.y - a.y), width)
}

/// The inner radius of a band, taken twice: the doubled radius less the
/// width, and not below zero.
pub open spec fn inner_extent(radius: int, width: int) -> int {
    max_int(2 * radius - width, 0)
}

/// Twice the signed area of the triangle `a`, `b`, `(sx, sy)`: positive when
/// the point lies on the side of increasing `y` turned towards decreasing `x`.
pub open spec fn edge_side(a: Point, b: Point, sx: int, sy: int) -> int {
    (b.x - a.x) * (sy - a.y) - (sx - a.x) * (b.y - a.y)
}

/// What the edge from `a` to `b` adds to the winding number of `(sx, sy)`:
/// the ray from the point towards increasing `x` either misses the edge or
/// crosses it once, counted by the edge's direction.
pub open spec fn edge_turn(a: Point, b: Point, sx: int, sy: int) -> int {
    if a.y <= sy < b.y && edge_side(a, b, sx, sy) > 0 {
        1
    } else if b.y <= sy < a.y && edge_side(a, b, sx, sy) < 0 {
        -1
    } else {
        0
    }
}

/// The end of the edge that starts at vertex `i` of a closed outline.
pub open spec fn next_vertex(points: Seq<Point>, i: int) -> Point {
    if i + 1 < points.len() {
        points[i + 1]
    } else {
        points[0]
    }
}

/// The sum of `edge_turn` over the first `n` edges of the closed outline.
pub open spec fn winding_upto(points: Seq<Point>, n: int, sx: int, sy: int) -> int
    decreases n,
{
    if n <= 0 {
        0
    } else {
        winding_upto(points, n - 1, sx, sy) + edge_turn(
            points[n - 1],
            next_vertex(points, n - 1),
            sx,
            sy,
        )
    }
}

/// The winding number of the closed outline through `points` around
/// `(sx, sy)`.
pub open spec fn winding(points: Seq<Point>, sx: int, sy: int) -> int {
    winding_upto(points, points.len() as int, sx, sy)
}

impl Region {
    /// The sizes are in the range in which the tests are exact.
    pub open spec fn wf(self) -> bool {
        match self {
            Region::Ring { cx, cy, rx, ry, width } => {
                &&& in_coord_range(cx as int)
                &&& in_coord_range(cy as int)
                &&& 0 <= rx <= COORD_MAX
                &&& 0 <= ry <= COORD_MAX
                &&& 0 < width <= WIDTH_MAX
            },
            Region::Oval { cx, cy, rx, ry } => {
                &&& in_coord_range(cx as int)
                &&& in_coord_range(cy as int)
                &&& 0 < rx <= COORD_MAX
                &&& 0 < ry <= COORD_MAX
            },
            Region::Capsule { a, b, width } => a.wf() && b.wf() && 0 <= width <= WIDTH_MAX,
            Region::Slab { min, max } => min.wf() && max.wf(),
            Region::Polygon { points } => all_wf(points),
        }
    }

    /// Whether the region holds the point `(sx, sy)`.
    pub open spec fn covers(self, sx: int, sy: int) -> bool {
        match self {
            Region::Ring { cx, cy, rx, ry, width } => {
                &&& ellipse_holds(2 * (sx - cx), 2 * (sy - cy), 2 * rx + width, 2 * ry + width)
                &&& ellipse_excludes(
                    2 * (sx - cx),
                    2 * (sy - cy),
                    inner_extent(rx as int, width as int),
                    inner_extent(ry as int, width as int),
                )
            },
            Region::Oval { cx, cy, rx, ry } => ellipse_holds(
                sx - cx,
                sy - cy,
                rx as int,
                ry as int,
            ),
            Region::Capsule { a, b, width } => capsule_holds(sx, sy, a, b, width as int),
            Region::Slab { min, max } => min.x <= sx <= max.x && min.y <= sy <= max.y,
            Region::Polygon { points } => winding(points, sx, sy) != 0,
        }
    }

    /// How many of the four samples of pixel `(x, y)` the region holds.
    pub open spec fn coverage(self, x: int, y: int) -> int {
        let x0 = x * UNIT + NEAR;
        let x1 = x * UNIT + FAR;
        let y0 = y * UNIT + NEAR;
        let y1 = y * UNIT + FAR;
        (if self.covers(x0, y0) { 1int } else { 0 }) + (if self.covers(x1, y0) { 1int } else { 0 })
            + (if self.covers(x0, y1) { 1int } else { 0 }) + (if self.covers(x1, y1) { 1int } else { 0 })
    }
}

/// The square of a value of at most 33 bits.
fn square(v: i64) -> (r: u128)
    requires
        -SAMPLE_MAX <= v <= SAMPLE_MAX,
    ensures
        r == v * v,
        r <= SAMPLE_MAX * SAMPLE_MAX,
{
    let m: u128 = if v >= 0 { v as u128 } else { (-v) as u128 };
    assert(m * m == v * v) by (nonlinear_arith)
        requires
            m == v || m == -v,
    ;
    assert(m * m <= 4_294_967_296 * 4_294_967_296) by (nonlinear_arith)
        requires
            0 <= m <= 4_294_967_296,
    ;
    m * m
}

/// A point further from the centre than a radius, along that radius's axis,
/// is outside the ellipse.
pub proof fn lemma_ellipse_within_radii(dx: int, dy: int, a: int, b: int)
    requires
        a > 0,
        b > 0,
        ellipse_holds(dx, dy, a, b),
    ensures
        -a <= dx <= a,
        -b <= dy <= b,
{
    let a2 = a * a;
    let b2 = b * b;
    assert(a2 > 0 && b2 > 0) by (nonlinear_arith)
        requires
            a > 0,
            b > 0,
            a2 == a * a,
            b2 == b * b,
    ;
    assert((dy * dy) * a2 >= 0 && (dx * dx) * b2 >= 0) by (nonlinear_arith)
        requires
            a2 > 0,
            b2 > 0,
    ;
    assert((dx * dx) * b2 <= a2 * b2);
    assert((dy * dy) * a2 <= a2 * b2);
    assert(dx * dx <= a2) by (nonlinear_arith)
        requires
            (dx * dx) * b2 <= a2 * b2,
            b2 > 0,
    ;
    assert(dy * dy <= b2) by (nonlinear_arith)
        requires
            (dy * dy) * a2 <= a2 * b2,
            a2 > 0,
    ;
    assert(-a <= dx <= a) by (nonlinear_arith)
        requires
            dx * dx <= a * a,
            a > 0,
    ;
    assert(-b <= dy <= b) by (nonlinear_arith)
        requires
            dy * dy <= b * b,
            b > 0,
    ;
}

/// Tests a point against the ellipse of radii `a` and `b`: whether the
/// ellipse holds it, and whether it excludes it.
fn ellipse_sides(dx: i64, dy: i64, a: i64, b: i64) -> (r: (bool, bool))
    requires
        -EXTENT_MAX <= dx <= EXTENT_MAX,
        -EXTENT_MAX <= dy <= EXTENT_MAX,
        0 <= a <= EXTENT_MAX,
        0 <= b <= EXTENT_MAX,
    ensures
        r.0 == ellipse_holds(dx as int, dy as int, a as int, b as int),
        r.1 == ellipse_excludes(dx as int, dy as int, a as int, b as int),
{
    let dx2: u128 = square(dx);
    let dy2: u128 = square(dy);
    let a2: u128 = square(a);
    let b2: u128 = square(b);
    proof {
        lemma_square_bound(dx as int, EXTENT_MAX as int);
        lemma_square_bound(dy as int, EXTENT_MAX as int);
        lemma_square_bound(a as int, EXTENT_MAX as int);
        lemma_square_bound(b as int, EXTENT_MAX as int);
        lemma_product_bound(dx2 as int, b2 as int);
        lemma_product_bound(dy2 as int, a2 as int);
        lemma_product_bound(a2 as int, b2 as int);
    }
    let lhs: u128 = dx2 * b2 + dy2 * a2;
    let rhs: u128 = a2 * b2;
    (lhs <= rhs, lhs >= rhs)
}

/// A value within `m` of zero has a square of at most `m * m`.
pub proof fn lemma_square_bound(v: int, m: int)
    requires
        -m <= v <= m,
    ensures
        0 <= v * v <= m * m,
{
    assert(0 <= v * v <= m * m) by (nonlinear_arith)
        requires
            -m <= v <= m,
    ;
}

/// The product of two squares of doubled radii fits in 125 bits.
proof fn lemma_product_bound(p: int, q: int)
    requires
        0 <= p <= EXTENT_MAX * EXTENT_MAX,
        0 <= q <= EXTENT_MAX * EXTENT_MAX,
    ensures
        0 <= p * q <= 0x2000_0000_0000_0000_0000_0000_0000_0000,
{
    assert(EXTENT_MAX * EXTENT_MAX == 0x4001_0001_0000_0000);
    assert(0 <= p * q <= 0x4001_0001_0000_0000 * 0x4001_0001_0000_0000) by (nonlinear_arith)
        requires
            0 <= p <= 0x4001_0001_0000_0000,
            0 <= q <= 0x4001_0001_0000_0000,
    ;
}

/// Along one axis, a point near a segment lies between the segment's two
/// ends, widened by the reach.  `(ux, uy)` is the point and `(dx, dy)` the
/// far end, both taken from the near end.
proof fn lemma_capsule_axis(ux: int, uy: int, dx: int, dy: int, reach: int)
    requires
        reach >= 0,
        near_segment(ux, uy, dx, dy, reach),
    ensures
        min_int(0, dx) - reach <= ux <= max_int(0, dx) + reach,
{
    let len2 = dx * dx + dy * dy;
    let dot = ux * dx + uy * dy;
    let cross = ux * dy - uy * dx;
    if dot <= 0 {
        assert(-reach <= ux <= reach) by (nonlinear_arith)
            requires
                ux * ux + uy * uy <= reach * reach,
                reach >= 0,
        ;
    } else if dot >= len2 {
        let ex = ux - dx;
        let ey = uy - dy;
        assert(-reach <= ex <= reach) by (nonlinear_arith)
            requires
                ex * ex + ey * ey <= reach * reach,
                reach >= 0,
        ;
    } else {
        let w = cross * dy;
        let bound = reach * len2;
        assert(len2 * ux == dot * dx + w) by (nonlinear_arith)
            requires
                len2 == dx * dx + dy * dy,
                dot == ux * dx + uy * dy,
                w == (ux * dy - uy * dx) * dy,
        ;
        assert(0 <= dy * dy <= len2) by (nonlinear_arith)
            requires
                len2 == dx * dx + dy * dy,
        ;
        assert(0 <= cross * cross) by (nonlinear_arith);
        assert(w * w == (cross * cross) * (dy * dy)) by (nonlinear_arith)
            requires
                w == cross * dy,
        ;
        assert((cross * cross) * (dy * dy) <= ((reach * reach) * len2) * len2) by (nonlinear_arith)
            requires
                cross * cross <= (reach * reach) * len2,
                0 <= dy * dy <= len2,
                len2 > 0,
                0 <= cross * cross,
        ;
        assert(bound * bound == ((reach * reach) * len2) * len2) by (nonlinear_arith)
            requires
                bound == reach * len2,
        ;
        assert(bound >= 0) by (nonlinear_arith)
            requires
                bound == reach * len2,
                reach >= 0,
                len2 > 0,
        ;
        assert(-bound <= w <= bound) by (nonlinear_arith)
            requires
                w * w <= bound * bound,
                bound >= 0,
        ;
        let hi = max_int(0, dx);
        let lo = min_int(0, dx);
        assert(lo * len2 <= dot * dx <= hi * len2) by (nonlinear_arith)
            requires
                0 < dot < len2,
                lo == if dx <= 0 { dx } else { 0 },
                hi == if dx >= 0 { dx } else { 0 },
        ;
        assert(len2 * ux <= (hi + reach) * len2) by (nonlinear_arith)
            requires
                len2 * ux == dot * dx + w,
                dot * dx <= hi * len2,
                w <= bound,
                bound == reach * len2,
        ;
        assert(len2 * ux >= (lo - reach) * len2) by (nonlinear_arith)
            requires
                len2 * ux == dot * dx + w,
                dot * dx >= lo * len2,
                w >= -bound,
                bound == reach * len2,
        ;
        assert(ux <= hi + reach) by (nonlinear_arith)
            requires
                len2 * ux <= (hi + reach) * len2,
                len2 > 0,
        ;
        assert(ux >= lo - reach) by (nonlinear_arith)
            requires
                len2 * ux >= (lo - reach) * len2,
                len2 > 0,
        ;
    }
}

/// A point that a capsule holds lies in the box round its two ends, widened
/// by half the width.
pub proof fn lemma_capsule_within_box(sx: int, sy: int, a: Point, b: Point, width: int)
    requires
        width >= 0,
        capsule_holds(sx, sy, a, b, width),
    ensures
        2 * min_int(a.x as int, b.x as int) - width <= 2 * sx <= 2 * max_int(
            a.x as int,
            b.x as int,
        ) + width,
        2 * min_int(a.y as int, b.y as int) - width <= 2 * sy <= 2 * max_int(
            a.y as int,
            b.y as int,
        ) + width,
{
    let dx = 2 * (b.x - a.x);
    let dy = 2 * (b.y - a.y);
    let ux = 2 * (sx - a.x);
    let uy = 2 * (sy - a.y);
    lemma_capsule_axis(ux, uy, dx, dy, width);
    assert(dy * dy + dx * dx == dx * dx + dy * dy);
    assert(uy * dy + ux * dx == ux * dx + uy * dy);
    assert((uy * dx - ux * dy) * (uy * dx - ux * dy) == (ux * dy - uy * dx) * (ux * dy - uy * dx))
        by (nonlinear_arith);
    assert(uy * uy + ux * ux == ux * ux + uy * uy);
    assert((uy - dy) * (uy - dy) + (ux - dx) * (ux - dx) == (ux - dx) * (ux - dx) + (uy - dy) * (uy
        - dy));
    lemma_capsule_axis(uy, ux, dy, dx, width);
}

/// The test of a capsule on lengths taken once: the doubled lengths of
/// `near_segment` multiply every square by four.
proof fn lemma_capsule_undoubled(ux: int, uy: int, dx: int, dy: int, vx: int, vy: int, w: int)
    requires
        vx == ux - dx,
        vy == uy - dy,
        w >= 0,
    ensures
        near_segment(2 * ux, 2 * uy, 2 * dx, 2 * dy, w) == ({
            let len2 = dx * dx + dy * dy;
            let dot = ux * dx + uy * dy;
            let cross = ux * dy - uy * dx;
            let quarter = (w * w) / 4;
            len2 > 0 && if dot <= 0 {
                ux * ux + uy * uy <= quarter
            } else if dot >= len2 {
                vx * vx + vy * vy <= quarter
            } else {
                cross * cross <= ((w * w) * len2) / 4
            }
        }),
{
    let len2 = dx * dx + dy * dy;
    let dot = ux * dx + uy * dy;
    let cross = ux * dy - uy * dx;
    let w2 = w * w;
    assert((2 * dx) * (2 * dx) + (2 * dy) * (2 * dy) == 4 * len2) by (nonlinear_arith)
        requires
            len2 == dx * dx + dy * dy,
    ;
    assert((2 * ux) * (2 * dx) + (2 * uy) * (2 * dy) == 4 * dot) by (nonlinear_arith)
        requires
            dot == ux * dx + uy * dy,
    ;
    assert((2 * ux) * (2 * dy) - (2 * uy) * (2 * dx) == 4 * cross) by (nonlinear_arith)
        requires
            cross == ux * dy - uy * dx,
    ;
    assert((2 * ux) * (2 * ux) + (2 * uy) * (2 * uy) == 4 * (ux * ux + uy * uy))
        by (nonlinear_arith);
    assert((2 * ux - 2 * dx) * (2 * ux - 2 * dx) + (2 * uy - 2 * dy) * (2 * uy - 2 * dy) == 4 * (vx
        * vx + vy * vy)) by (nonlinear_arith)
        requires
            vx == ux - dx,
            vy == uy - dy,
    ;
    assert((4 * cross) * (4 * cross) == 16 * (cross * cross)) by (nonlinear_arith);
    assert(w2 * (4 * len2) == 4 * (w2 * len2)) by (nonlinear_arith);
    assert(w2 >= 0) by (nonlinear_arith)
        requires
            w2 == w * w,
    ;
    lemma_quarter(ux * ux + uy * uy, w2);
    lemma_quarter(vx * vx + vy * vy, w2);
    lemma_quarter(cross * cross, w2 * len2);
}

/// Four times a whole number is at most `x` exactly when the number is at
/// most a quarter of `x`, rounded down.
proof fn lemma_quarter(n: int, x: int)
    ensures
        (4 * n <= x) == (n <= x / 4),
{
    crate::fixed::lemma_floor_bounds(x, 4);
}

/// Whether the capsule round the segment from `a` to `b` holds `(sx, sy)`.
fn capsule_hit(sx: i64, sy: i64, a: Point, b: Point, width: i64) -> (hit: bool)
    requires
        a.wf(),
        b.wf(),
        0 <= width <= WIDTH_MAX,
        -SAMPLE_MAX <= sx <= SAMPLE_MAX,
        -SAMPLE_MAX <= sy <= SAMPLE_MAX,
    ensures
        hit == capsule_holds(sx as int, sy as int, a, b, width as int),
{
    let lo_x: i64 = if a.x <= b.x { a.x } else { b.x };
    let hi_x: i64 = if a.x <= b.x { b.x } else { a.x };
    let lo_y: i64 = if a.y <= b.y { a.y } else { b.y };
    let hi_y: i64 = if a.y <= b.y { b.y } else { a.y };
    if 2 * sx < 2 * lo_x - width || 2 * sx > 2 * hi_x + width || 2 * sy < 2 * lo_y - width || 2
        * sy > 2 * hi_y + width {
        proof {
            if capsule_holds(sx as int, sy as int, a, b, width as int) {
                lemma_capsule_within_box(sx as int, sy as int, a, b, width as int);
            }
        }
        return false;
    }
    let dx: i128 = (b.x - a.x) as i128;
    let dy: i128 = (b.y - a.y) as i128;
    let ux: i128 = (sx - a.x) as i128;
    let uy: i128 = (sy - a.y) as i128;
    let vx: i128 = (sx - b.x) as i128;
    let vy: i128 = (sy - b.y) as i128;
    let w: i128 = width as i128;
    proof {
        lemma_capsule_products(dx as int, dy as int, ux as int, uy as int, w as int);
        lemma_capsule_products(dx as int, dy as int, vx as int, vy as int, w as int);
        lemma_capsule_undoubled(
            ux as int,
            uy as int,
            dx as int,
            dy as int,
            vx as int,
            vy as int,
            w as int,
        );
    }
    let len2: i128 = dx * dx + dy * dy;
    if len2 == 0 {
        return false;
    }
    let dot: i128 = ux * dx + uy * dy;
    let w2: i128 = w * w;
    if dot <= 0 {
        ux * ux + uy * uy <= w2 / 4
    } else if dot >= len2 {
        vx * vx + vy * vy <= w2 / 4
    } else {
        let cross: i128 = ux * dy - uy * dx;
        proof {
            lemma_capsule_cross(cross as int, w2 as int, len2 as int);
        }
        cross * cross <= (w2 * len2) / 4
    }
}

/// The products that the capsule test forms stay far inside 128 bits.
proof fn lemma_capsule_products(dx: int, dy: int, ux: int, uy: int, h: int)
    requires
        -2_147_483_648 <= dx <= 2_147_483_648,
        -2_147_483_648 <= dy <= 2_147_483_648,
        -2_147_516_416 <= ux <= 2_147_516_416,
        -2_147_516_416 <= uy <= 2_147_516_416,
        0 <= h <= 65_535,
    ensures
        0 <= dx * dx <= 0x4000_0000_0000_0000,
        0 <= dy * dy <= 0x4000_0000_0000_0000,
        0 <= ux * ux <= 0x4000_8000_4000_0000,
        0 <= uy * uy <= 0x4000_8000_4000_0000,
        -0x4000_4000_0000_0000 <= ux * dx <= 0x4000_4000_0000_0000,
        -0x4000_4000_0000_0000 <= uy * dy <= 0x4000_4000_0000_0000,
        -0x4000_4000_0000_0000 <= ux * dy <= 0x4000_4000_0000_0000,
        -0x4000_4000_0000_0000 <= uy * dx <= 0x4000_4000_0000_0000,
        0 <= h * h <= 0x1_0000_0000,
{
    assert(0 <= dx * dx <= 0x4000_0000_0000_0000) by (nonlinear_arith)
        requires
            -2_147_483_648 <= dx <= 2_147_483_648,
    ;
    assert(0 <= dy * dy <= 0x4000_0000_0000_0000) by (nonlinear_arith)
        requires
            -2_147_483_648 <= dy <= 2_147_483_648,
    ;
    assert(0 <= ux * ux <= 0x4000_8000_4000_0000) by (nonlinear_arith)
        requires
            -2_147_516_416 <= ux <= 2_147_516_416,
    ;
    assert(0 <= uy * uy <= 0x4000_8000_4000_0000) by (nonlinear_arith)
        requires
            -2_147_516_416 <= uy <= 2_147_516_416,
    ;
    lemma_mixed_bound(ux, dx);
    lemma_mixed_bound(uy, dy);
    lemma_mixed_bound(ux, dy);
    lemma_mixed_bound(uy, dx);
    assert(0 <= h * h <= 0x1_0000_0000) by (nonlinear_arith)
        requires
            0 <= h <= 65_535,
    ;
}

proof fn lemma_mixed_bound(u: int, d: int)
    requires
        -2_147_483_648 <= d <= 2_147_483_648,
        -2_147_516_416 <= u <= 2_147_516_416,
    ensures
        -0x4000_4000_0000_0000 <= u * d <= 0x4000_4000_0000_0000,
{
    assert(-0x4000_4000_0000_0000 <= u * d <= 0x4000_4000_0000_0000) by (nonlinear_arith)
        requires
            -2_147_483_648 <= d <= 2_147_483_648,
            -2_147_516_416 <= u <= 2_147_516_416,
    ;
}

proof fn lemma_capsule_cross(cross: int, h2: int, len2: int)
    requires
        -0x8000_8000_0000_0000 <= cross <= 0x8000_8000_0000_0000,
        0 <= h2 <= 0x1_0000_0000,
        0 <= len2 <= 0x8000_0000_0000_0000,
    ensures
        0 <= cross * cross <= 0x4000_8000_4000_0000_0000_0000_0000_0000,
        0 <= h2 * len2 <= 0x8000_0000_0000_0000_0000_0000,
{
    assert(0 <= cross * cross <= 0x8000_8000_0000_0000 * 0x8000_8000_0000_0000) by (nonlinear_arith)
        requires
            -0x8000_8000_0000_0000 <= cross <= 0x8000_8000_0000_0000,
    ;
    assert(0 <= h2 * len2 <= 0x1_0000_0000 * 0x8000_0000_0000_0000) by (nonlinear_arith)
        requires
            0 <= h2 <= 0x1_0000_0000,
            0 <= len2 <= 0x8000_0000_0000_0000,
    ;
}

/// What the edge from `a` to `b` adds to the winding number of `(sx, sy)`.
fn edge_turn_of(a: Point, b: Point, sx: i64, sy: i64) -> (t: i8)
    requires
        a.wf(),
        b.wf(),
        -SAMPLE_MAX <= sx <= SAMPLE_MAX,
        -SAMPLE_MAX <= sy <= SAMPLE_MAX,
    ensures
        t == edge_turn(a, b, sx as int, sy as int),
{
    let up: bool = a.y <= sy && sy < b.y;
    let down: bool = b.y <= sy && sy < a.y;
    if !up && !down {
        return 0;
    }
    let ex: i128 = (b.x - a.x) as i128;
    let ey: i128 = (b.y - a.y) as i128;
    let px: i128 = (sx - a.x) as i128;
    let py: i128 = (sy - a.y) as i128;
    proof {
        lemma_side_bound(ex as int, py as int);
        lemma_side_bound(ey as int, px as int);
    }
    let side: i128 = ex * py - px * ey;
    assert(side == edge_side(a, b, sx as int, sy as int)) by (nonlinear_arith)
        requires
            side == ex * py - px * ey,
            ex == b.x - a.x,
            ey == b.y - a.y,
            px == sx - a.x,
            py == sy - a.y,
            edge_side(a, b, sx as int, sy as int) == (b.x - a.x) * (sy - a.y) - (sx - a.x) * (b.y
                - a.y),
    ;
    if up && side > 0 {
        1
    } else if down && side < 0 {
        -1
    } else {
        0
    }
}

proof fn lemma_side_bound(e: int, p: int)
    requires
        -0x8000_0000 <= e <= 0x8000_0000,
        -0x2_0000_0000 <= p <= 0x2_0000_0000,
    ensures
        -0x1_0000_0000_0000_0000 <= e * p <= 0x1_0000_0000_0000_0000,
{
    assert(-0x1_0000_0000_0000_0000 <= e * p <= 0x1_0000_0000_0000_0000) by (nonlinear_arith)
        requires
            -0x8000_0000 <= e <= 0x8000_0000,
            -0x2_0000_0000 <= p <= 0x2_0000_0000,
    ;
}

/// The winding number of the closed outline through `points` around
/// `(sx, sy)`.
fn winding_of(points: &Vec<Point>, sx: i64, sy: i64) -> (w: i128)
    requires
        all_wf(points@),
        -SAMPLE_MAX <= sx <= SAMPLE_MAX,
        -SAMPLE_MAX <= sy <= SAMPLE_MAX,
    ensures
        w == winding(points@, sx as int, sy as int),
{
    let n: usize = points.len();
    let mut w: i128 = 0;
    let mut i: usize = 0;
    while i < n
        invariant
            n == points@.len(),
            i <= n,
            all_wf(points@),
            -SAMPLE_MAX <= sx <= SAMPLE_MAX,
            -SAMPLE_MAX <= sy <= SAMPLE_MAX,
            w == winding_upto(points@, i as int, sx as int, sy as int),
            -(i as int) <= w <= i as int,
        decreases n - i,
    {
        let a: Point = points[i];
        let b: Point = if i + 1 < n { points[i + 1] } else { points[0] };
        let t: i8 = edge_turn_of(a, b, sx, sy);
        w = w + t as i128;
        i += 1;
    }
    w
}

impl<'a> Stencil<'a> {
    /// Whether the region holds the point `(sx, sy)`.
    pub fn hit(&self, sx: i64, sy: i64) -> (hit: bool)
        requires
            self@.wf(),
            -SAMPLE_MAX <= sx <= SAMPLE_MAX,
            -SAMPLE_MAX <= sy <= SAMPLE_MAX,
        ensures
            hit == self@.covers(sx as int, sy as int),
    {
        match self {
            Stencil::Ring { cx, cy, rx, ry, width } => {
                let dx: i64 = 2 * (sx - *cx);
                let dy: i64 = 2 * (sy - *cy);
                let outer_x: i64 = 2 * *rx + *width;
                let outer_y: i64 = 2 * *ry + *width;
                if dx < -outer_x || dx > outer_x || dy < -outer_y || dy > outer_y {
                    proof {
                        if ellipse_holds(dx as int, dy as int, outer_x as int, outer_y as int) {
                            lemma_ellipse_within_radii(
                                dx as int,
                                dy as int,
                                outer_x as int,
                                outer_y as int,
                            );
                        }
                    }
                    return false;
                }
                let inner_x: i64 = if 2 * *rx > *width { 2 * *rx - *width } else { 0 };
                let inner_y: i64 = if 2 * *ry > *width { 2 * *ry - *width } else { 0 };
                let outer: (bool, bool) = ellipse_sides(dx, dy, outer_x, outer_y);
                let inner: (bool, bool) = ellipse_sides(dx, dy, inner_x, inner_y);
                outer.0 && inner.1
            },
            Stencil::Oval { cx, cy, rx, ry } => {
                let dx: i64 = sx - *cx;
                let dy: i64 = sy - *cy;
                if dx < -*rx || dx > *rx || dy < -*ry || dy > *ry {
                    proof {
                        if ellipse_holds(dx as int, dy as int, *rx as int, *ry as int) {
                            lemma_ellipse_within_radii(dx as int, dy as int, *rx as int, *ry as int);
                        }
                    }
                    return false;
                }
                let sides: (bool, bool) = ellipse_sides(dx, dy, *rx, *ry);
                sides.0
            },
            Stencil::Capsule { a, b, width } => capsule_hit(sx, sy, *a, *b, *width),
            Stencil::Slab { min, max } => min.x <= sx && sx <= max.x && min.y <= sy && sy <= max.y,
            Stencil::Polygon { points } => winding_of(*points, sx, sy) != 0,
        }
    }
}

} // verus!
