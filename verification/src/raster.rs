//! Painting a region onto a canvas: every pixel is blended with the colour
//! in proportion to how many of its four samples the region holds.

use crate::canvas::{Canvas, MAX_DIM};
use crate::color::{blend_pixel, blend_spec, coverage_alpha, coverage_to_alpha, Rgba};
use crate::coverage::{
    edge_side, edge_turn, lemma_capsule_within_box, lemma_ellipse_within_radii, next_vertex,
    winding, winding_upto, Region, Stencil, FAR, NEAR, SAMPLE_MAX,
};
use crate::fixed::{lemma_floor_bounds, UNIT};
use crate::geometry::{all_wf, Point};
use vstd::prelude::*;

verus! {

/// A pixel after the region has been painted over it in `color`.
pub open spec fn painted(prev: Rgba, region: Region, color: Rgba, x: int, y: int) -> Rgba {
    let hits = region.coverage(x, y);
    if hits > 0 {
        blend_spec(prev, color, coverage_alpha(hits))
    } else {
        prev
    }
}

/// The box holds every point of the region.
pub open spec fn fits(region: Region, lo_x: int, lo_y: int, hi_x: int, hi_y: int) -> bool {
    forall|sx: int, sy: int| #[trigger]
        region.covers(sx, sy) ==> lo_x <= sx <= hi_x && lo_y <= sy <= hi_y
}

/// The box holds every point of `points`.
pub open spec fn encloses(points: Seq<Point>, lo_x: int, lo_y: int, hi_x: int, hi_y: int) -> bool {
    forall|i: int|
        0 <= i < points.len() ==> lo_x <= (#[trigger] points[i]).x <= hi_x && lo_y <= points[i].y
            <= hi_y
}

/// One if the point `p` is not below the height `sy`, else zero.
pub open spec fn at_or_above(p: Point, sy: int) -> int {
    if p.y <= sy {
        1
    } else {
        0
    }
}

/// An edge seen from a point beside it: to the left of both ends every edge
/// that spans the point's height is crossed; to the right of both, or at a
/// height that the edge does not span, none is.
proof fn lemma_edge_turn_outside(a: Point, b: Point, sx: int, sy: int)
    ensures
        sx < a.x && sx < b.x ==> edge_turn(a, b, sx, sy) == at_or_above(a, sy) - at_or_above(b, sy),
        sx > a.x && sx > b.x ==> edge_turn(a, b, sx, sy) == 0,
        sy < a.y && sy < b.y ==> edge_turn(a, b, sx, sy) == 0,
        sy > a.y && sy > b.y ==> edge_turn(a, b, sx, sy) == 0,
{
    let ex = b.x - a.x;
    let ey = b.y - a.y;
    let px = sx - a.x;
    let py = sy - a.y;
    let side = edge_side(a, b, sx, sy);
    assert(side == ex * py - px * ey);
    if sx < a.x && sx < b.x {
        if a.y <= sy < b.y {
            assert(ex * py - px * ey > 0) by (nonlinear_arith)
                requires
                    px < 0,
                    px < ex,
                    0 <= py < ey,
            ;
        }
        if b.y <= sy < a.y {
            assert(ex * py - px * ey < 0) by (nonlinear_arith)
                requires
                    px < 0,
                    px < ex,
                    ey <= py < 0,
            ;
        }
    }
    if sx > a.x && sx > b.x {
        if a.y <= sy < b.y {
            assert(ex * py - px * ey <= 0) by (nonlinear_arith)
                requires
                    px > 0,
                    px > ex,
                    0 <= py < ey,
            ;
        }
        if b.y <= sy < a.y {
            assert(ex * py - px * ey >= 0) by (nonlinear_arith)
                requires
                    px > 0,
                    px > ex,
                    ey <= py < 0,
            ;
        }
    }
}

/// Seen from the left of a whole outline, the turns of its first `n` edges
/// add up to the difference between its first vertex and the `n`-th.
proof fn lemma_winding_left(points: Seq<Point>, n: int, sx: int, sy: int, lo_x: int)
    requires
        0 <= n <= points.len(),
        forall|i: int| 0 <= i < points.len() ==> lo_x <= (#[trigger] points[i]).x,
        sx < lo_x,
    ensures
        n == 0 ==> winding_upto(points, n, sx, sy) == 0,
        0 < n < points.len() ==> winding_upto(points, n, sx, sy) == at_or_above(points[0], sy)
            - at_or_above(points[n], sy),
        0 < n == points.len() ==> winding_upto(points, n, sx, sy) == 0,
    decreases n,
{
    if n > 0 {
        lemma_winding_left(points, n - 1, sx, sy, lo_x);
        let a = points[n - 1];
        let b = next_vertex(points, n - 1);
        assert(lo_x <= a.x);
        assert(lo_x <= points[0].x);
        if n < points.len() {
            assert(lo_x <= points[n].x);
        }
        lemma_edge_turn_outside(a, b, sx, sy);
    }
}

/// Seen from beside a whole outline, but not from its left, no edge is
/// crossed.
proof fn lemma_winding_beside(
    points: Seq<Point>,
    n: int,
    sx: int,
    sy: int,
    lo_y: int,
    hi_x: int,
    hi_y: int,
)
    requires
        0 <= n <= points.len(),
        forall|i: int|
            0 <= i < points.len() ==> (#[trigger] points[i]).x <= hi_x && lo_y <= points[i].y
                <= hi_y,
        sx > hi_x || sy < lo_y || sy > hi_y,
    ensures
        winding_upto(points, n, sx, sy) == 0,
    decreases n,
{
    if n > 0 {
        lemma_winding_beside(points, n - 1, sx, sy, lo_y, hi_x, hi_y);
        let a = points[n - 1];
        let b = next_vertex(points, n - 1);
        assert(a.x <= hi_x);
        assert(points[0].x <= hi_x);
        if n < points.len() {
            assert(points[n].x <= hi_x);
        }
        lemma_edge_turn_outside(a, b, sx, sy);
    }
}

/// A closed outline winds round no point outside a box that holds all its
/// vertices.
pub proof fn lemma_winding_within_box(
    points: Seq<Point>,
    sx: int,
    sy: int,
    lo_x: int,
    lo_y: int,
    hi_x: int,
    hi_y: int,
)
    requires
        encloses(points, lo_x, lo_y, hi_x, hi_y),
        winding(points, sx, sy) != 0,
    ensures
        lo_x <= sx <= hi_x,
        lo_y <= sy <= hi_y,
{
    let n = points.len() as int;
    if sx > hi_x || sy < lo_y || sy > hi_y {
        lemma_winding_beside(points, n, sx, sy, lo_y, hi_x, hi_y);
    } else if sx < lo_x {
        lemma_winding_left(points, n, sx, sy, lo_x);
    }
}

/// The smallest box round the vertices of an outline; an empty box for an
/// outline without vertices.
fn outline_box(points: &Vec<Point>) -> (r: (i64, i64, i64, i64))
    requires
        all_wf(points@),
    ensures
        encloses(points@, r.0 as int, r.1 as int, r.2 as int, r.3 as int),
        -SAMPLE_MAX <= r.0 <= SAMPLE_MAX,
        -SAMPLE_MAX <= r.1 <= SAMPLE_MAX,
        -SAMPLE_MAX <= r.2 <= SAMPLE_MAX,
        -SAMPLE_MAX <= r.3 <= SAMPLE_MAX,
{
    if points.len() == 0 {
        return (0, 0, -1, -1);
    }
    let first: Point = points[0];
    let mut lo_x: i64 = first.x;
    let mut lo_y: i64 = first.y;
    let mut hi_x: i64 = first.x;
    let mut hi_y: i64 = first.y;
    let mut i: usize = 1;
    while i < points.len()
        invariant
            1 <= i <= points.len(),
            all_wf(points@),
            -SAMPLE_MAX <= lo_x <= SAMPLE_MAX,
            -SAMPLE_MAX <= lo_y <= SAMPLE_MAX,
            -SAMPLE_MAX <= hi_x <= SAMPLE_MAX,
            -SAMPLE_MAX <= hi_y <= SAMPLE_MAX,
            forall|j: int|
                0 <= j < i ==> lo_x <= (#[trigger] points@[j]).x <= hi_x && lo_y <= points@[j].y
                    <= hi_y,
        decreases points.len() - i,
    {
        let p: Point = points[i];
        if p.x < lo_x {
            lo_x = p.x;
        }
        if p.x > hi_x {
            hi_x = p.x;
        }
        if p.y < lo_y {
            lo_y = p.y;
        }
        if p.y > hi_y {
            hi_y = p.y;
        }
        i += 1;
    }
    (lo_x, lo_y, hi_x, hi_y)
}

impl<'a> Stencil<'a> {
    /// A box that holds every point of the region.
    fn bounds(&self) -> (r: (i64, i64, i64, i64))
        requires
            self@.wf(),
        ensures
            fits(self@, r.0 as int, r.1 as int, r.2 as int, r.3 as int),
            -SAMPLE_MAX <= r.0 <= SAMPLE_MAX,
            -SAMPLE_MAX <= r.1 <= SAMPLE_MAX,
            -SAMPLE_MAX <= r.2 <= SAMPLE_MAX,
            -SAMPLE_MAX <= r.3 <= SAMPLE_MAX,
    {
        match self {
            Stencil::Ring { cx, cy, rx, ry, width } => {
                let reach: i64 = (*width + 1) / 2;
                let r: (i64, i64, i64, i64) = (
                    *cx - *rx - reach,
                    *cy - *ry - reach,
                    *cx + *rx + reach,
                    *cy + *ry + reach,
                );
                assert forall|sx: int, sy: int| #[trigger] self@.covers(sx, sy) implies r.0 <= sx
                    <= r.2 && r.1 <= sy <= r.3 by {
                    lemma_ellipse_within_radii(
                        2 * (sx - *cx),
                        2 * (sy - *cy),
                        2 * *rx + *width,
                        2 * *ry + *width,
                    );
                }
                r
            },
            Stencil::Oval { cx, cy, rx, ry } => {
                let r: (i64, i64, i64, i64) = (*cx - *rx, *cy - *ry, *cx + *rx, *cy + *ry);
                assert forall|sx: int, sy: int| #[trigger] self@.covers(sx, sy) implies r.0 <= sx
                    <= r.2 && r.1 <= sy <= r.3 by {
                    lemma_ellipse_within_radii(sx - *cx, sy - *cy, *rx as int, *ry as int);
                }
                r
            },
            Stencil::Capsule { a, b, width } => {
                let lo_x: i64 = if a.x <= b.x { a.x } else { b.x };
                let hi_x: i64 = if a.x <= b.x { b.x } else { a.x };
                let lo_y: i64 = if a.y <= b.y { a.y } else { b.y };
                let hi_y: i64 = if a.y <= b.y { b.y } else { a.y };
                let reach: i64 = (*width + 1) / 2;
                let r: (i64, i64, i64, i64) = (
                    lo_x - reach,
                    lo_y - reach,
                    hi_x + reach,
                    hi_y + reach,
                );
                assert forall|sx: int, sy: int| #[trigger] self@.covers(sx, sy) implies r.0 <= sx
                    <= r.2 && r.1 <= sy <= r.3 by {
                    lemma_capsule_within_box(sx, sy, *a, *b, *width as int);
                }
                r
            },
            Stencil::Slab { min, max } => (min.x, min.y, max.x, max.y),
            Stencil::Polygon { points } => {
                let r: (i64, i64, i64, i64) = outline_box(*points);
                assert forall|sx: int, sy: int| #[trigger] self@.covers(sx, sy) implies r.0 <= sx
                    <= r.2 && r.1 <= sy <= r.3 by {
                    lemma_winding_within_box(
                        points@,
                        sx,
                        sy,
                        r.0 as int,
                        r.1 as int,
                        r.2 as int,
                        r.3 as int,
                    );
                }
                r
            },
        }
    }

    /// How many of the four samples of pixel `(x, y)` the region holds.
    pub fn coverage_of(&self, x: u32, y: u32) -> (hits: u8)
        requires
            self@.wf(),
            x < MAX_DIM,
            y < MAX_DIM,
        ensures
            hits == self@.coverage(x as int, y as int),
            hits <= 4,
    {
        let x0: i64 = (x as i64) * UNIT + NEAR;
        let x1: i64 = (x as i64) * UNIT + FAR;
        let y0: i64 = (y as i64) * UNIT + NEAR;
        let y1: i64 = (y as i64) * UNIT + FAR;
        let mut hits: u8 = 0;
        if self.hit(x0, y0) {
            hits += 1;
        }
        if self.hit(x1, y0) {
            hits += 1;
        }
        if self.hit(x0, y1) {
            hits += 1;
        }
        if self.hit(x1, y1) {
            hits += 1;
        }
        hits
    }
}

/// The pixels `start .. end` below `limit` whose samples can lie in
/// `lo ..= hi`: a pixel before `start` lies wholly below `lo`, one from `end`
/// on wholly above `hi`.
fn pixel_span(lo: i64, hi: i64, limit: u32) -> (r: (u32, u32))
    requires
        limit <= MAX_DIM,
        -SAMPLE_MAX <= lo <= SAMPLE_MAX,
        -SAMPLE_MAX <= hi <= SAMPLE_MAX,
    ensures
        r.0 <= r.1 <= limit,
        r.0 == 0 || r.0 * UNIT <= lo,
        r.1 == limit || r.1 * UNIT > hi,
{
    let start: u32 = if lo <= 0 {
        0
    } else {
        let q: i64 = lo / UNIT;
        proof {
            lemma_floor_bounds(lo as int, UNIT as int);
        }
        if q >= limit as i64 {
            limit
        } else {
            q as u32
        }
    };
    let end: u32 = if hi < 0 {
        start
    } else {
        let q: i64 = hi / UNIT + 1;
        proof {
            lemma_floor_bounds(hi as int, UNIT as int);
        }
        if q >= limit as i64 {
            limit
        } else if q <= start as i64 {
            start
        } else {
            q as u32
        }
    };
    (start, end)
}

/// Paints the region onto the canvas in `color`: each pixel of which the
/// region holds at least one sample is blended with the colour at the
/// opacity of its coverage, and comes out opaque; every other pixel stays
/// as it is.  The alpha of `color` plays no part.
pub fn paint(canvas: &mut Canvas, stencil: &Stencil, color: Rgba)
    requires
        old(canvas).wf(),
        stencil@.wf(),
    ensures
        final(canvas).same_shape(*old(canvas)),
        forall|x: int, y: int|
            old(canvas).contains(x, y) ==> #[trigger] final(canvas).px(x, y) == painted(
                old(canvas).px(x, y),
                stencil@,
                color,
                x,
                y,
            ),
{
    let w: u32 = canvas.width();
    let h: u32 = canvas.height();
    let b: (i64, i64, i64, i64) = stencil.bounds();
    let xs: (u32, u32) = pixel_span(b.0, b.2, w);
    let ys: (u32, u32) = pixel_span(b.1, b.3, h);
    let ghost before = *canvas;
    let mut y: u32 = ys.0;
    while y < ys.1
        invariant
            ys.0 <= y <= ys.1 <= h,
            xs.0 <= xs.1 <= w,
            w == before.cols(),
            h == before.rows(),
            before.wf(),
            stencil@.wf(),
            canvas.same_shape(before),
            forall|i: int, j: int|
                before.contains(i, j) ==> #[trigger] canvas.px(i, j) == (if ys.0 <= j < y && xs.0
                    <= i < xs.1 {
                    painted(before.px(i, j), stencil@, color, i, j)
                } else {
                    before.px(i, j)
                }),
        decreases ys.1 - y,
    {
        let mut x: u32 = xs.0;
        while x < xs.1
            invariant
                ys.0 <= y < ys.1 <= h,
                xs.0 <= x <= xs.1 <= w,
                w == before.cols(),
                h == before.rows(),
                before.wf(),
                stencil@.wf(),
                canvas.same_shape(before),
                forall|i: int, j: int|
                    before.contains(i, j) ==> #[trigger] canvas.px(i, j) == (if (ys.0 <= j < y
                        || (j == y && i < x)) && xs.0 <= i < xs.1 {
                        painted(before.px(i, j), stencil@, color, i, j)
                    } else {
                        before.px(i, j)
                    }),
            decreases xs.1 - x,
        {
            let ghost mid = *canvas;
            let hits: u8 = stencil.coverage_of(x, y);
            if hits > 0 {
                let prev: Rgba = canvas.raw_get(x, y);
                let alpha: u8 = coverage_to_alpha(hits);
                canvas.raw_put(x, y, blend_pixel(prev, color, alpha));
            }
            proof {
                assert(mid.contains(x as int, y as int));
                assert(mid.px(x as int, y as int) == before.px(x as int, y as int));
                assert(canvas.px(x as int, y as int) == painted(
                    before.px(x as int, y as int),
                    stencil@,
                    color,
                    x as int,
                    y as int,
                ));
                assert forall|i: int, j: int| before.contains(i, j) implies #[trigger] canvas.px(
                    i,
                    j,
                ) == (if (ys.0 <= j < y || (j == y && i < x + 1)) && xs.0 <= i < xs.1 {
                    painted(before.px(i, j), stencil@, color, i, j)
                } else {
                    before.px(i, j)
                }) by {
                    if !(i == x && j == y) {
                        assert(mid.contains(i, j));
                        assert(canvas.px(i, j) == mid.px(i, j));
                    }
                }
            }
            x += 1;
        }
        y += 1;
    }
    proof {
        assert forall|i: int, j: int| before.contains(i, j) implies #[trigger] canvas.px(i, j)
            == painted(before.px(i, j), stencil@, color, i, j) by {
            if !(ys.0 <= j < ys.1 && xs.0 <= i < xs.1) {
                lemma_outside_span(stencil@, i, j, b, xs, ys, w, h);
            }
        }
    }
}

/// A pixel outside the spans cut from a box that holds the region has no
/// covered sample.
proof fn lemma_outside_span(
    stencil: Region,
    i: int,
    j: int,
    b: (i64, i64, i64, i64),
    xs: (u32, u32),
    ys: (u32, u32),
    w: u32,
    h: u32,
)
    requires
        fits(stencil, b.0 as int, b.1 as int, b.2 as int, b.3 as int),
        0 <= i < w,
        0 <= j < h,
        xs.0 <= xs.1 <= w,
        ys.0 <= ys.1 <= h,
        xs.0 == 0 || xs.0 * UNIT <= b.0,
        xs.1 == w || xs.1 * UNIT > b.2,
        ys.0 == 0 || ys.0 * UNIT <= b.1,
        ys.1 == h || ys.1 * UNIT > b.3,
        !(ys.0 <= j < ys.1 && xs.0 <= i < xs.1),
    ensures
        stencil.coverage(i, j) == 0,
{
    let x0 = i * UNIT + NEAR;
    let x1 = i * UNIT + FAR;
    let y0 = j * UNIT + NEAR;
    let y1 = j * UNIT + FAR;
    assert(!stencil.covers(x0, y0));
    assert(!stencil.covers(x1, y0));
    assert(!stencil.covers(x0, y1));
    assert(!stencil.covers(x1, y1));
}

/// A pixel all four samples of which the region holds takes the colour
/// itself, whatever it was before; its result is opaque.
pub proof fn lemma_full_coverage_hides(prev: Rgba, region: Region, color: Rgba, x: int, y: int)
    requires
        region.coverage(x, y) == 4,
    ensures
        painted(prev, region, color, x, y) == (Rgba { r: color.r, g: color.g, b: color.b, a: 255 }),
{
    assert(coverage_alpha(4) == 255);
    crate::color::lemma_blend_channel_between(prev.r, color.r, 255);
    crate::color::lemma_blend_channel_between(prev.g, color.g, 255);
    crate::color::lemma_blend_channel_between(prev.b, color.b, 255);
}

/// A pixel none of whose samples the region holds stays as it was.
pub proof fn lemma_no_coverage_keeps(prev: Rgba, region: Region, color: Rgba, x: int, y: int)
    requires
        region.coverage(x, y) == 0,
    ensures
        painted(prev, region, color, x, y) == prev,
{
}

/// An outline without points winds round nothing: it covers no sample.
pub proof fn lemma_empty_outline_covers_nothing(x: int, y: int)
    ensures
        (Region::Polygon { points: Seq::<Point>::empty() }).coverage(x, y) == 0,
{
    let region = Region::Polygon { points: Seq::<Point>::empty() };
    assert forall|sx: int, sy: int| !region.covers(sx, sy) by {
        assert(winding(Seq::<Point>::empty(), sx, sy) == 0);
    }
}

/// The triangle inequality for squared lengths: a vector no longer than `a`
/// plus one no longer than `b` is no longer than `a + b`.
pub proof fn lemma_triangle(ux: int, uy: int, wx: int, wy: int, a: int, b: int)
    requires
        a >= 0,
        b >= 0,
        ux * ux + uy * uy <= a * a,
        wx * wx + wy * wy <= b * b,
    ensures
        (ux + wx) * (ux + wx) + (uy + wy) * (uy + wy) <= (a + b) * (a + b),
{
    let uu = ux * ux + uy * uy;
    let ww = wx * wx + wy * wy;
    let dot = ux * wx + uy * wy;
    let det = ux * wy - uy * wx;
    let p = ux * wx;
    let q = uy * wy;
    let r = ux * wy;
    let t = uy * wx;
    assert(p * p == (ux * ux) * (wx * wx)) by (nonlinear_arith)
        requires
            p == ux * wx,
    ;
    assert(q * q == (uy * uy) * (wy * wy)) by (nonlinear_arith)
        requires
            q == uy * wy,
    ;
    assert(r * r == (ux * ux) * (wy * wy)) by (nonlinear_arith)
        requires
            r == ux * wy,
    ;
    assert(t * t == (uy * uy) * (wx * wx)) by (nonlinear_arith)
        requires
            t == uy * wx,
    ;
    assert(p * q == r * t) by (nonlinear_arith)
        requires
            p == ux * wx,
            q == uy * wy,
            r == ux * wy,
            t == uy * wx,
    ;
    assert(dot * dot == p * p + 2 * (p * q) + q * q) by (nonlinear_arith)
        requires
            dot == p + q,
    ;
    assert(det * det == r * r - 2 * (r * t) + t * t) by (nonlinear_arith)
        requires
            det == r - t,
    ;
    assert(uu * ww == (ux * ux) * (wx * wx) + (ux * ux) * (wy * wy) + (uy * uy) * (wx * wx) + (uy
        * uy) * (wy * wy)) by (nonlinear_arith)
        requires
            uu == ux * ux + uy * uy,
            ww == wx * wx + wy * wy,
    ;
    assert(dot * dot + det * det == uu * ww);
    assert(det * det >= 0) by (nonlinear_arith);
    assert(uu >= 0 && ww >= 0) by (nonlinear_arith)
        requires
            uu == ux * ux + uy * uy,
            ww == wx * wx + wy * wy,
    ;
    assert(uu * ww <= (a * a) * (b * b)) by (nonlinear_arith)
        requires
            0 <= uu <= a * a,
            0 <= ww <= b * b,
    ;
    let ab = a * b;
    assert(ab * ab == (a * a) * (b * b)) by (nonlinear_arith)
        requires
            ab == a * b,
    ;
    assert(ab >= 0) by (nonlinear_arith)
        requires
            ab == a * b,
            a >= 0,
            b >= 0,
    ;
    assert(dot <= ab) by (nonlinear_arith)
        requires
            dot * dot <= ab * ab,
            ab >= 0,
    ;
    assert((ux + wx) * (ux + wx) + (uy + wy) * (uy + wy) == uu + 2 * dot + ww) by (nonlinear_arith)
        requires
            uu == ux * ux + uy * uy,
            ww == wx * wx + wy * wy,
            dot == ux * wx + uy * wy,
    ;
    assert((a + b) * (a + b) == a * a + 2 * ab + b * b) by (nonlinear_arith)
        requires
            ab == a * b,
    ;
}

} // verus!
