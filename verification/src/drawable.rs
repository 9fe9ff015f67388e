//! Burning one annotation into a canvas.
//!
//! Every drawing step changes a pixel as a function of that pixel alone, so
//! each is described by what it makes of one pixel: `rect_px`, `ellipse_px`,
//! `line_px` and `polyline_px` give the pixel at `(x, y)` after the shape has
//! been drawn over the pixel `prev`.

use crate::canvas::{on_axis_segment, Canvas};
use crate::color::Rgba;
use crate::coverage::{ellipse_excludes, ellipse_holds, next_vertex, Region, Stencil, FAR, WIDTH_MAX, NEAR};
use crate::fixed::{floor_div, lemma_floor_bounds, max_int, COORD_MAX, UNIT};
use crate::font::{
    first_glyph, lemma_pen_bounds, pen_after, stamp, stamped, text_extent, text_height, text_px,
    text_width, FontFace, Glyph,
};
use crate::geometry::{all_wf, Point};
use crate::operators::Operator;
use crate::raster::{lemma_empty_outline_covers_nothing, lemma_triangle, paint, painted};
use crate::toolbar::StrokeWidth;
use vstd::prelude::*;

verus! {

/// The width of a stroke as it is drawn: strokes thinner than one pixel are
/// drawn one pixel wide.
pub open spec fn drawn_width(w: StrokeWidth) -> int {
    max_int(w.units(), UNIT as int)
}

/// The width of a stroke as it is drawn.
pub fn width_of(w: StrokeWidth) -> (out: i64)
    ensures
        out == drawn_width(w),
        1024 <= out <= WIDTH_MAX,
{
    let v: i64 = w.value();
    if v < UNIT {
        UNIT
    } else {
        v
    }
}

/// The number of one-pixel lines that make up each side of a rectangle's
/// border: the stroke width rounded to whole pixels, and at least one.
pub open spec fn frame_thickness(w: StrokeWidth) -> int {
    max_int((w.units() + 512) / (UNIT as int), 1)
}

/// The number of one-pixel lines in each side of a rectangle's border.
pub fn thickness_of(w: StrokeWidth) -> (t: i64)
    ensures
        t == frame_thickness(w),
        1 <= t <= 64,
{
    let v: i64 = w.value();
    let t: i64 = (v + 512) / UNIT;
    if t < 1 {
        1
    } else {
        t
    }
}

/// The whole pixel that a coordinate falls in: the coordinate divided by
/// the unit and rounded down, so that a coordinate left of or above the
/// picture falls in a pixel left of or above it.
pub open spec fn to_pixel(v: int) -> int {
    v / (UNIT as int)
}

fn pixel_of(v: i64) -> (p: i32)
    requires
        -2 * COORD_MAX <= v <= 2 * COORD_MAX,
    ensures
        p == to_pixel(v as int),
        -2_097_152 <= p <= 2_097_152,
{
    let q: i128 = floor_div(v as i128, UNIT as i128);
    proof {
        lemma_floor_bounds(v as int, UNIT as int);
    }
    q as i32
}

/// Whether pixel `(x, y)` lies on one of the four border lines that are
/// drawn at offset `o` pixels inside the rectangle's edges.
pub open spec fn frame_holds(x: int, y: int, min: Point, max: Point, o: int) -> bool {
    let x0 = to_pixel(min.x as int);
    let x1 = to_pixel(max.x as int);
    let y0 = to_pixel(min.y as int);
    let y1 = to_pixel(max.y as int);
    let top = to_pixel(min.y + o * UNIT);
    let bottom = to_pixel(max.y - o * UNIT);
    let left = to_pixel(min.x + o * UNIT);
    let right = to_pixel(max.x - o * UNIT);
    ||| on_axis_segment(x, y, x0, top, x1, top)
    ||| on_axis_segment(x, y, x0, bottom, x1, bottom)
    ||| on_axis_segment(x, y, left, y0, left, y1)
    ||| on_axis_segment(x, y, right, y0, right, y1)
}

/// Whether pixel `(x, y)` lies on a border line at one of the offsets
/// `0 .. t`.
pub open spec fn frame_covers(x: int, y: int, min: Point, max: Point, t: int) -> bool
    decreases t,
{
    t > 0 && (frame_covers(x, y, min, max, t - 1) || frame_holds(x, y, min, max, t - 1))
}

/// `prev` with the region painted over it in the fill colour, if there is
/// one.
pub open spec fn filled_px(prev: Rgba, region: Region, fill: Option<Rgba>, x: int, y: int) -> Rgba {
    match fill {
        Some(c) => painted(prev, region, c, x, y),
        None => prev,
    }
}

/// A pixel after a rectangle has been drawn over it: the interior is filled
/// first, then the border is set to the stroke colour.
pub open spec fn rect_px(
    prev: Rgba,
    min: Point,
    max: Point,
    width: StrokeWidth,
    stroke: Rgba,
    fill: Option<Rgba>,
    x: int,
    y: int,
) -> Rgba {
    if frame_covers(x, y, min, max, frame_thickness(width)) {
        stroke
    } else {
        filled_px(prev, Region::Slab { min, max }, fill, x, y)
    }
}

/// The band of a stroked ellipse: half the stroke's width to each side of
/// the ellipse.
pub open spec fn ring_of(center: Point, radius_x: i64, radius_y: i64, width: int) -> Region {
    Region::Ring { cx: center.x, cy: center.y, rx: radius_x, ry: radius_y, width: width as i64 }
}

/// A pixel after an ellipse has been drawn over it: the interior is filled
/// first, unless a radius is zero; then the band is painted.
pub open spec fn ellipse_px(
    prev: Rgba,
    center: Point,
    radius_x: i64,
    radius_y: i64,
    width: StrokeWidth,
    stroke: Rgba,
    fill: Option<Rgba>,
    x: int,
    y: int,
) -> Rgba {
    let inside = Region::Oval { cx: center.x, cy: center.y, rx: radius_x, ry: radius_y };
    let base = if radius_x > 0 && radius_y > 0 {
        filled_px(prev, inside, fill, x, y)
    } else {
        prev
    };
    painted(base, ring_of(center, radius_x, radius_y, drawn_width(width)), stroke, x, y)
}

/// A pixel after a segment has been drawn over it.
pub open spec fn line_px(
    prev: Rgba,
    start: Point,
    end: Point,
    width: StrokeWidth,
    stroke: Rgba,
    x: int,
    y: int,
) -> Rgba {
    painted(prev, Region::Capsule { a: start, b: end, width: drawn_width(width) as i64 }, stroke, x, y)
}

/// The number of segments of a path through `n` points.
pub open spec fn segment_count(n: int, closed: bool) -> int {
    if n < 2 {
        0
    } else if closed {
        n
    } else {
        n - 1
    }
}

/// A pixel after the first `k` segments of a path have been drawn over it,
/// one after the other.
pub open spec fn path_px(
    prev: Rgba,
    points: Seq<Point>,
    k: int,
    width: int,
    stroke: Rgba,
    x: int,
    y: int,
) -> Rgba
    decreases k,
{
    if k <= 0 {
        prev
    } else {
        painted(
            path_px(prev, points, k - 1, width, stroke, x, y),
            Region::Capsule { a: points[k - 1], b: next_vertex(points, k - 1), width: width as i64 },
            stroke,
            x,
            y,
        )
    }
}

/// A pixel after a path has been drawn over it: the region that the closed
/// outline winds round is filled first, then the segments are stroked.
pub open spec fn polyline_px(
    prev: Rgba,
    points: Seq<Point>,
    closed: bool,
    width: StrokeWidth,
    stroke: Rgba,
    fill: Option<Rgba>,
    x: int,
    y: int,
) -> Rgba {
    path_px(
        filled_px(prev, Region::Polygon { points }, fill, x, y),
        points,
        segment_count(points.len() as int, closed),
        drawn_width(width),
        stroke,
        x,
        y,
    )
}

/// Draws a rectangle: its interior in the operator's fill, if it has one,
/// then its border, `frame_thickness` one-pixel lines to the side, in the
/// operator's stroke colour.
pub fn draw_rect_on_image(op: &Operator, canvas: &mut Canvas, min: Point, max: Point)
    requires
        old(canvas).wf(),
        min.wf(),
        max.wf(),
    ensures
        final(canvas).same_shape(*old(canvas)),
        forall|x: int, y: int|
            old(canvas).contains(x, y) ==> #[trigger] final(canvas).px(x, y) == rect_px(
                old(canvas).px(x, y),
                min,
                max,
                op.stroke_width,
                op.stroke_color,
                op.fill(),
                x,
                y,
            ),
{
    let ghost before = *canvas;
    match op.visible_fill() {
        Some(c) => {
            paint(canvas, &Stencil::Slab { min, max }, c);
        },
        None => {},
    }
    let ghost filled = *canvas;
    let color: Rgba = op.stroke_color;
    let t: i64 = thickness_of(op.stroke_width);
    let x0: i32 = pixel_of(min.x);
    let x1: i32 = pixel_of(max.x);
    let y0: i32 = pixel_of(min.y);
    let y1: i32 = pixel_of(max.y);
    let mut o: i64 = 0;
    while o < t
        invariant
            0 <= o <= t <= 64,
            min.wf(),
            max.wf(),
            filled.wf(),
            canvas.same_shape(filled),
            x0 == to_pixel(min.x as int),
            x1 == to_pixel(max.x as int),
            y0 == to_pixel(min.y as int),
            y1 == to_pixel(max.y as int),
            -2_097_152 <= x0 <= 2_097_152,
            -2_097_152 <= x1 <= 2_097_152,
            -2_097_152 <= y0 <= 2_097_152,
            -2_097_152 <= y1 <= 2_097_152,
            forall|x: int, y: int|
                filled.contains(x, y) ==> #[trigger] canvas.px(x, y) == (if frame_covers(
                    x,
                    y,
                    min,
                    max,
                    o as int,
                ) {
                    color
                } else {
                    filled.px(x, y)
                }),
        decreases t - o,
    {
        let top: i32 = pixel_of(min.y + o * UNIT);
        let bottom: i32 = pixel_of(max.y - o * UNIT);
        let left: i32 = pixel_of(min.x + o * UNIT);
        let right: i32 = pixel_of(max.x - o * UNIT);
        let ghost c0 = *canvas;
        canvas.raw_axis_segment(x0, top, x1, top, color);
        let ghost c1 = *canvas;
        canvas.raw_axis_segment(x0, bottom, x1, bottom, color);
        let ghost c2 = *canvas;
        canvas.raw_axis_segment(left, y0, left, y1, color);
        let ghost c3 = *canvas;
        canvas.raw_axis_segment(right, y0, right, y1, color);
        proof {
            assert forall|x: int, y: int| filled.contains(x, y) implies #[trigger] canvas.px(x, y)
                == (if frame_covers(x, y, min, max, o + 1) {
                color
            } else {
                filled.px(x, y)
            }) by {
                assert(c0.contains(x, y) && c1.contains(x, y) && c2.contains(x, y) && c3.contains(
                    x,
                    y,
                ));
                assert(c1.px(x, y) == if on_axis_segment(
                    x,
                    y,
                    x0 as int,
                    top as int,
                    x1 as int,
                    top as int,
                ) {
                    color
                } else {
                    c0.px(x, y)
                });
                assert(c2.px(x, y) == if on_axis_segment(
                    x,
                    y,
                    x0 as int,
                    bottom as int,
                    x1 as int,
                    bottom as int,
                ) {
                    color
                } else {
                    c1.px(x, y)
                });
                assert(c3.px(x, y) == if on_axis_segment(
                    x,
                    y,
                    left as int,
                    y0 as int,
                    left as int,
                    y1 as int,
                ) {
                    color
                } else {
                    c2.px(x, y)
                });
                assert(frame_covers(x, y, min, max, o + 1) == (frame_covers(x, y, min, max, o as int)
                    || frame_holds(x, y, min, max, o as int)));
            }
        }
        o += 1;
    }
    proof {
        assert forall|x: int, y: int| before.contains(x, y) implies #[trigger] canvas.px(x, y)
            == rect_px(
            before.px(x, y),
            min,
            max,
            op.stroke_width,
            op.stroke_color,
            op.fill(),
            x,
            y,
        ) by {
            assert(filled.contains(x, y));
            assert(filled.px(x, y) == filled_px(
                before.px(x, y),
                Region::Slab { min, max },
                op.fill(),
                x,
                y,
            ));
        }
    }
}

/// Draws an ellipse: its interior in the operator's fill, if it has one and
/// neither radius is zero; then the band of the operator's stroke.
pub fn draw_ellipse_on_image(
    op: &Operator,
    canvas: &mut Canvas,
    center: Point,
    radius_x: i64,
    radius_y: i64,
)
    requires
        old(canvas).wf(),
        center.wf(),
        0 <= radius_x <= COORD_MAX,
        0 <= radius_y <= COORD_MAX,
    ensures
        final(canvas).same_shape(*old(canvas)),
        forall|x: int, y: int|
            old(canvas).contains(x, y) ==> #[trigger] final(canvas).px(x, y) == ellipse_px(
                old(canvas).px(x, y),
                center,
                radius_x,
                radius_y,
                op.stroke_width,
                op.stroke_color,
                op.fill(),
                x,
                y,
            ),
{
    let ghost before = *canvas;
    if radius_x > 0 && radius_y > 0 {
        match op.visible_fill() {
            Some(c) => {
                let inside = Stencil::Oval { cx: center.x, cy: center.y, rx: radius_x, ry: radius_y };
                paint(canvas, &inside, c);
            },
            None => {},
        }
    }
    let ghost filled = *canvas;
    let ring = Stencil::Ring {
        cx: center.x,
        cy: center.y,
        rx: radius_x,
        ry: radius_y,
        width: width_of(op.stroke_width),
    };
    paint(canvas, &ring, op.stroke_color);
    proof {
        assert forall|x: int, y: int| before.contains(x, y) implies #[trigger] canvas.px(x, y)
            == ellipse_px(
            before.px(x, y),
            center,
            radius_x,
            radius_y,
            op.stroke_width,
            op.stroke_color,
            op.fill(),
            x,
            y,
        ) by {
            assert(filled.contains(x, y));
        }
    }
}

/// Draws a segment with the operator's stroke.  A segment whose ends
/// coincide leaves the canvas as it is.
pub fn draw_line_on_image(op: &Operator, canvas: &mut Canvas, start: Point, end: Point)
    requires
        old(canvas).wf(),
        start.wf(),
        end.wf(),
    ensures
        final(canvas).same_shape(*old(canvas)),
        forall|x: int, y: int|
            old(canvas).contains(x, y) ==> #[trigger] final(canvas).px(x, y) == line_px(
                old(canvas).px(x, y),
                start,
                end,
                op.stroke_width,
                op.stroke_color,
                x,
                y,
            ),
{
    let width: i64 = width_of(op.stroke_width);
    paint(canvas, &Stencil::Capsule { a: start, b: end, width }, op.stroke_color);
}

/// Draws a path: the region that its closed outline winds round in the
/// operator's fill, if it has one; then its segments, in order, with the
/// operator's stroke.
pub fn draw_polyline_on_image(op: &Operator, canvas: &mut Canvas, points: &Vec<Point>, closed: bool)
    requires
        old(canvas).wf(),
        all_wf(points@),
    ensures
        final(canvas).same_shape(*old(canvas)),
        forall|x: int, y: int|
            old(canvas).contains(x, y) ==> #[trigger] final(canvas).px(x, y) == polyline_px(
                old(canvas).px(x, y),
                points@,
                closed,
                op.stroke_width,
                op.stroke_color,
                op.fill(),
                x,
                y,
            ),
{
    let ghost before = *canvas;
    match op.visible_fill() {
        Some(c) => {
            paint(canvas, &Stencil::Polygon { points }, c);
        },
        None => {},
    }
    let ghost filled = *canvas;
    let n: usize = points.len();
    let count: usize = if n < 2 {
        0
    } else if closed {
        n
    } else {
        n - 1
    };
    let width: i64 = width_of(op.stroke_width);
    let color: Rgba = op.stroke_color;
    let mut k: usize = 0;
    while k < count
        invariant
            k <= count <= n,
            n == points@.len(),
            count == segment_count(n as int, closed),
            all_wf(points@),
            0 <= width <= WIDTH_MAX,
            filled.wf(),
            canvas.same_shape(filled),
            forall|x: int, y: int|
                filled.contains(x, y) ==> #[trigger] canvas.px(x, y) == path_px(
                    filled.px(x, y),
                    points@,
                    k as int,
                    width as int,
                    color,
                    x,
                    y,
                ),
        decreases count - k,
    {
        let a: Point = points[k];
        let b: Point = if k + 1 < n { points[k + 1] } else { points[0] };
        let ghost mid = *canvas;
        paint(canvas, &Stencil::Capsule { a, b, width }, color);
        proof {
            assert forall|x: int, y: int| filled.contains(x, y) implies #[trigger] canvas.px(x, y)
                == path_px(filled.px(x, y), points@, k + 1, width as int, color, x, y) by {
                assert(mid.contains(x, y));
            }
        }
        k += 1;
    }
    proof {
        assert forall|x: int, y: int| before.contains(x, y) implies #[trigger] canvas.px(x, y)
            == polyline_px(
            before.px(x, y),
            points@,
            closed,
            op.stroke_width,
            op.stroke_color,
            op.fill(),
            x,
            y,
        ) by {
            assert(filled.contains(x, y));
        }
    }
}

/// Largest magnitude of the corner of a line of text.
pub const TEXT_ORIGIN_MAX: i128 = 0x1_0000_0000_0000_0000_0000_0000;

/// Draws the glyph of one character with the pen at `pen`, in coordinate
/// units from the left edge of the image; `top` is the top of the line.
fn draw_char(canvas: &mut Canvas, font: &FontFace, c: char, pen: i128, top: i128, color: Rgba)
    requires
        old(canvas).wf(),
        font.wf(),
        -2 * TEXT_ORIGIN_MAX <= pen <= 2 * TEXT_ORIGIN_MAX,
        -TEXT_ORIGIN_MAX <= top <= TEXT_ORIGIN_MAX,
    ensures
        final(canvas).same_shape(*old(canvas)),
        forall|x: int, y: int|
            old(canvas).contains(x, y) ==> #[trigger] final(canvas).px(x, y) == (match first_glyph(
                font.glyphs@,
                c,
                0,
            ) {
                Some(i) => stamped(
                    old(canvas).px(x, y),
                    font.glyphs@[i],
                    (pen as int) / (UNIT as int) + font.glyphs@[i].left,
                    (top + font.ascent) / (UNIT as int) + font.glyphs@[i].top,
                    color,
                    x,
                    y,
                ),
                None => old(canvas).px(x, y),
            }),
{
    match font.find(c) {
        Some(i) => {
            let g: &Glyph = &font.glyphs[i];
            let px: i128 = floor_div(pen, UNIT as i128);
            let py: i128 = floor_div(top + font.ascent as i128, UNIT as i128);
            proof {
                lemma_floor_bounds(pen as int, UNIT as int);
                lemma_floor_bounds(top + font.ascent, UNIT as int);
            }
            stamp(canvas, g, px + g.left as i128, py + g.top as i128, color);
        },
        None => {},
    }
}

/// Draws a line of text whose top left corner is `(left, top)`, in
/// coordinate units.
pub fn draw_text_on_image(
    canvas: &mut Canvas,
    font: &FontFace,
    text: &str,
    left: i128,
    top: i128,
    color: Rgba,
)
    requires
        old(canvas).wf(),
        font.wf(),
        -TEXT_ORIGIN_MAX <= left <= TEXT_ORIGIN_MAX,
        -TEXT_ORIGIN_MAX <= top <= TEXT_ORIGIN_MAX,
    ensures
        final(canvas).same_shape(*old(canvas)),
        forall|x: int, y: int|
            old(canvas).contains(x, y) ==> #[trigger] final(canvas).px(x, y) == text_px(
                old(canvas).px(x, y),
                *font,
                text@,
                text@.len() as int,
                left as int,
                top as int,
                color,
                x,
                y,
            ),
{
    let ghost before = *canvas;
    let n: usize = text.unicode_len();
    let mut pen: i128 = left;
    let mut k: usize = 0;
    while k < n
        invariant
            k <= n,
            n == text@.len(),
            font.wf(),
            before.wf(),
            -TEXT_ORIGIN_MAX <= left <= TEXT_ORIGIN_MAX,
            -TEXT_ORIGIN_MAX <= top <= TEXT_ORIGIN_MAX,
            pen == left + pen_after(*font, text@, k as int),
            canvas.same_shape(before),
            forall|x: int, y: int|
                before.contains(x, y) ==> #[trigger] canvas.px(x, y) == text_px(
                    before.px(x, y),
                    *font,
                    text@,
                    k as int,
                    left as int,
                    top as int,
                    color,
                    x,
                    y,
                ),
        decreases n - k,
    {
        proof {
            lemma_pen_bounds(*font, text@, k as int);
            lemma_pen_bounds(*font, text@, k + 1);
            assert((k + 1) * 0xFFFF_FFFF <= 0x1_0000_0000_0000_0000 * 0xFFFF_FFFF)
                by (nonlinear_arith)
                requires
                    0 <= k + 1 <= 0x1_0000_0000_0000_0000,
            ;
            assert(k * 0xFFFF_FFFF <= (k + 1) * 0xFFFF_FFFF) by (nonlinear_arith);
        }
        let c: char = text.get_char(k);
        let ghost mid = *canvas;
        draw_char(canvas, font, c, pen, top, color);
        proof {
            assert forall|x: int, y: int| before.contains(x, y) implies #[trigger] canvas.px(x, y)
                == text_px(
                before.px(x, y),
                *font,
                text@,
                k + 1,
                left as int,
                top as int,
                color,
                x,
                y,
            ) by {
                assert(mid.contains(x, y));
            }
        }
        pen = pen + font.advance(c) as i128;
        k += 1;
    }
}

/// The decimal digit `d`.
pub open spec fn digit_char(d: int) -> char {
    if d == 0 {
        '0'
    } else if d == 1 {
        '1'
    } else if d == 2 {
        '2'
    } else if d == 3 {
        '3'
    } else if d == 4 {
        '4'
    } else if d == 5 {
        '5'
    } else if d == 6 {
        '6'
    } else if d == 7 {
        '7'
    } else if d == 8 {
        '8'
    } else {
        '9'
    }
}

/// The decimal notation of `n`, without leading zeros.
pub open spec fn digits_of(n: nat) -> Seq<char>
    decreases n,
{
    if n < 10 {
        seq![digit_char(n as int)]
    } else {
        digits_of(n / 10).push(digit_char((n % 10) as int))
    }
}

fn digit_of(d: u32) -> (c: char)
    requires
        d < 10,
    ensures
        c == digit_char(d as int),
{
    if d == 0 {
        '0'
    } else if d == 1 {
        '1'
    } else if d == 2 {
        '2'
    } else if d == 3 {
        '3'
    } else if d == 4 {
        '4'
    } else if d == 5 {
        '5'
    } else if d == 6 {
        '6'
    } else if d == 7 {
        '7'
    } else if d == 8 {
        '8'
    } else {
        '9'
    }
}

/// Appends the decimal notation of `n` to `out`.
fn push_digits(n: u32, out: &mut String)
    ensures
        final(out)@ == old(out)@ + digits_of(n as nat),
    decreases n,
{
    if n >= 10 {
        push_digits(n / 10, out);
    }
    let c: char = digit_of(n % 10);
    push_char(out, c);
    assert(final(out)@ =~= old(out)@ + digits_of(n as nat));
}

/// `String::push`.  It appends the one character.
#[verifier::external_body]
fn push_char(out: &mut String, c: char)
    ensures
        final(out)@ == old(out)@.push(c),
{
    out.push(c);
}

/// The decimal notation of `n`.
pub fn decimal(n: u32) -> (s: String)
    ensures
        s@ == digits_of(n as nat),
{
    let mut s: String = String::new();
    push_digits(n, &mut s);
    assert(s@ =~= digits_of(n as nat));
    s
}

/// How bright a colour looks, from 0 to 255.
pub open spec fn luma(c: Rgba) -> int {
    (299 * c.r + 587 * c.g + 114 * c.b) / 1000
}

/// Black for a bright colour and white for a dark one.
pub open spec fn contrast_spec(c: Rgba) -> Rgba {
    if luma(c) >= 128 {
        Rgba { r: 0, g: 0, b: 0, a: 255 }
    } else {
        Rgba { r: 255, g: 255, b: 255, a: 255 }
    }
}

/// The colour in which text stands out against `c`.
pub fn contrast(c: Rgba) -> (out: Rgba)
    ensures
        out == contrast_spec(c),
{
    let l: u32 = (299 * (c.r as u32) + 587 * (c.g as u32) + 114 * (c.b as u32)) / 1000;
    if l >= 128 {
        Rgba { r: 0, g: 0, b: 0, a: 255 }
    } else {
        Rgba { r: 255, g: 255, b: 255, a: 255 }
    }
}

/// The colour of a marker's number: one that stands out against the disc's
/// fill, or the stroke colour on a disc that is not filled.
pub open spec fn label_color(stroke: Rgba, fill: Option<Rgba>) -> Rgba {
    match fill {
        Some(c) => contrast_spec(c),
        None => stroke,
    }
}

/// A pixel after a numbered marker has been drawn over it: the disc as an
/// ellipse of equal radii, then, where there is a font, the number, centred
/// on the disc's centre by the font's metrics.
pub open spec fn marker_px(
    prev: Rgba,
    font: Option<FontFace>,
    center: Point,
    radius: i64,
    label_index: u32,
    width: StrokeWidth,
    stroke: Rgba,
    fill: Option<Rgba>,
    x: int,
    y: int,
) -> Rgba {
    let disc = ellipse_px(prev, center, radius, radius, width, stroke, fill, x, y);
    match font {
        Some(f) => {
            let label = digits_of(label_index as nat);
            text_px(
                disc,
                f,
                label,
                label.len() as int,
                center.x - text_width(f, label) / 2,
                center.y - text_height(f) / 2,
                label_color(stroke, fill),
                x,
                y,
            )
        },
        None => disc,
    }
}

/// Draws a numbered marker: the disc, then its number where a font is at
/// hand.
pub fn draw_marker_on_image(
    op: &Operator,
    canvas: &mut Canvas,
    font: &Option<FontFace>,
    center: Point,
    radius: i64,
    label_index: u32,
)
    requires
        old(canvas).wf(),
        center.wf(),
        0 <= radius <= COORD_MAX,
        font.is_some() ==> font.unwrap().wf(),
    ensures
        final(canvas).same_shape(*old(canvas)),
        forall|x: int, y: int|
            old(canvas).contains(x, y) ==> #[trigger] final(canvas).px(x, y) == marker_px(
                old(canvas).px(x, y),
                *font,
                center,
                radius,
                label_index,
                op.stroke_width,
                op.stroke_color,
                op.fill(),
                x,
                y,
            ),
{
    let ghost before = *canvas;
    draw_ellipse_on_image(op, canvas, center, radius, radius);
    let ghost disc = *canvas;
    match font {
        Some(f) => {
            let label: String = decimal(label_index);
            let size: (i128, i64) = text_extent(f, label.as_str());
            let left: i128 = center.x as i128 - floor_div(size.0, 2);
            let top: i128 = center.y as i128 - floor_div(size.1 as i128, 2);
            let color: Rgba = match op.visible_fill() {
                Some(c) => contrast(c),
                None => op.stroke_color,
            };
            proof {
                lemma_floor_bounds(size.0 as int, 2);
                lemma_floor_bounds(size.1 as int, 2);
            }
            draw_text_on_image(canvas, f, label.as_str(), left, top, color);
            proof {
                assert forall|x: int, y: int| before.contains(x, y) implies #[trigger] canvas.px(
                    x,
                    y,
                ) == marker_px(
                    before.px(x, y),
                    *font,
                    center,
                    radius,
                    label_index,
                    op.stroke_width,
                    op.stroke_color,
                    op.fill(),
                    x,
                    y,
                ) by {
                    assert(disc.contains(x, y));
                }
            }
        },
        None => {},
    }
}

/// A path without points leaves every pixel as it is.
pub proof fn lemma_empty_polyline_draws_nothing(
    prev: Rgba,
    closed: bool,
    width: StrokeWidth,
    stroke: Rgba,
    fill: Option<Rgba>,
    x: int,
    y: int,
)
    ensures
        polyline_px(prev, Seq::<Point>::empty(), closed, width, stroke, fill, x, y) == prev,
{
    lemma_empty_outline_covers_nothing(x, y);
}

/// Twice the distance of the point `(sx, sy)` from `center` is at least
/// `inner` and at most `outer`.
pub open spec fn in_band(sx: int, sy: int, center: Point, inner: int, outer: int) -> bool {
    let dx = 2 * (sx - center.x);
    let dy = 2 * (sy - center.y);
    inner * inner <= dx * dx + dy * dy <= outer * outer
}

/// The band of a stroked circle holds a point exactly when the point's
/// distance from the centre lies between the radius less half the width and
/// the radius plus half the width.  All lengths are taken twice.
pub proof fn lemma_circle_band(center: Point, radius: i64, width: int, sx: int, sy: int)
    requires
        0 <= radius <= COORD_MAX,
        0 < width <= WIDTH_MAX,
    ensures
        ring_of(center, radius, radius, width).covers(sx, sy) == in_band(
            sx,
            sy,
            center,
            max_int(2 * radius - width, 0),
            2 * radius + width,
        ),
{
    let o = 2 * radius + width;
    let i = max_int(2 * radius - width, 0);
    let dx = 2 * (sx - center.x);
    let dy = 2 * (sy - center.y);
    let d2 = dx * dx + dy * dy;
    let o2 = o * o;
    let i2 = i * i;
    assert(o2 > 0) by (nonlinear_arith)
        requires
            o2 == o * o,
            o > 0,
    ;
    assert((dx * dx) * o2 + (dy * dy) * o2 == d2 * o2) by (nonlinear_arith)
        requires
            d2 == dx * dx + dy * dy,
    ;
    assert((d2 * o2 <= o2 * o2) == (d2 <= o2)) by (nonlinear_arith)
        requires
            o2 > 0,
    ;
    assert((dx * dx) * i2 + (dy * dy) * i2 == d2 * i2) by (nonlinear_arith)
        requires
            d2 == dx * dx + dy * dy,
    ;
    assert(d2 >= 0) by (nonlinear_arith)
        requires
            d2 == dx * dx + dy * dy,
    ;
    assert(i2 >= 0) by (nonlinear_arith)
        requires
            i2 == i * i,
    ;
    if i2 == 0 {
        assert(d2 * i2 == 0 && i2 * i2 == 0) by (nonlinear_arith)
            requires
                i2 == 0,
        ;
    } else {
        assert((d2 * i2 >= i2 * i2) == (d2 >= i2)) by (nonlinear_arith)
            requires
                i2 > 0,
        ;
    }
    assert(ellipse_holds(dx, dy, o, o) == (d2 <= o2));
    assert(ellipse_excludes(dx, dy, i, i) == (d2 >= i2));
}

/// The coverage of a stroked circle.  A pixel that is covered in full has
/// all four samples between the two radii of the band.  A pixel whose centre
/// lies more than one pixel beyond the outer radius, or more than one pixel
/// within the inner one, is not covered at all.  All lengths are taken
/// twice.
pub proof fn lemma_circle_coverage(center: Point, radius: i64, width: int, x: int, y: int)
    requires
        0 <= radius <= COORD_MAX,
        0 < width <= WIDTH_MAX,
    ensures
        ({
            let band = ring_of(center, radius, radius, width);
            let inner = max_int(2 * radius - width, 0);
            let outer = 2 * radius + width;
            let vx = 2 * (x * UNIT + 512 - center.x);
            let vy = 2 * (y * UNIT + 512 - center.y);
            &&& band.coverage(x, y) == 4 ==> {
                &&& in_band(x * UNIT + NEAR, y * UNIT + NEAR, center, inner, outer)
                &&& in_band(x * UNIT + FAR, y * UNIT + NEAR, center, inner, outer)
                &&& in_band(x * UNIT + NEAR, y * UNIT + FAR, center, inner, outer)
                &&& in_band(x * UNIT + FAR, y * UNIT + FAR, center, inner, outer)
            }
            &&& vx * vx + vy * vy > (outer + 2 * UNIT) * (outer + 2 * UNIT) ==> band.coverage(x, y)
                == 0
            &&& (inner >= 2 * UNIT && vx * vx + vy * vy < (inner - 2 * UNIT) * (inner - 2 * UNIT))
                ==> band.coverage(x, y) == 0
        }),
{
    let x0 = x * UNIT + NEAR;
    let x1 = x * UNIT + FAR;
    let y0 = y * UNIT + NEAR;
    let y1 = y * UNIT + FAR;
    lemma_circle_band(center, radius, width, x0, y0);
    lemma_circle_band(center, radius, width, x1, y0);
    lemma_circle_band(center, radius, width, x0, y1);
    lemma_circle_band(center, radius, width, x1, y1);
    lemma_sample_beyond(center, radius, width, x, y, -256, -256);
    lemma_sample_beyond(center, radius, width, x, y, 256, -256);
    lemma_sample_beyond(center, radius, width, x, y, -256, 256);
    lemma_sample_beyond(center, radius, width, x, y, 256, 256);
}

/// A sample a quarter pixel from the centre of a pixel that lies more than
/// one pixel outside the band lies outside the band too.
proof fn lemma_sample_beyond(center: Point, radius: i64, width: int, x: int, y: int, ex: int, ey: int)
    requires
        0 <= radius <= COORD_MAX,
        0 < width <= WIDTH_MAX,
        ex == 256 || ex == -256,
        ey == 256 || ey == -256,
    ensures
        ({
            let inner = max_int(2 * radius - width, 0);
            let outer = 2 * radius + width;
            let vx = 2 * (x * UNIT + 512 - center.x);
            let vy = 2 * (y * UNIT + 512 - center.y);
            &&& vx * vx + vy * vy > (outer + 2 * UNIT) * (outer + 2 * UNIT) ==> !in_band(
                x * UNIT + 512 + ex,
                y * UNIT + 512 + ey,
                center,
                inner,
                outer,
            )
            &&& (inner >= 2 * UNIT && vx * vx + vy * vy < (inner - 2 * UNIT) * (inner - 2 * UNIT))
                ==> !in_band(x * UNIT + 512 + ex, y * UNIT + 512 + ey, center, inner, outer)
        }),
{
    let inner = max_int(2 * radius - width, 0);
    let outer = 2 * radius + width;
    let vx = 2 * (x * UNIT + 512 - center.x);
    let vy = 2 * (y * UNIT + 512 - center.y);
    let sx = x * UNIT + 512 + ex;
    let sy = y * UNIT + 512 + ey;
    let ux = 2 * (sx - center.x);
    let uy = 2 * (sy - center.y);
    let fx = 2 * ex;
    let fy = 2 * ey;
    let v2 = vx * vx + vy * vy;
    let u2 = ux * ux + uy * uy;
    assert(fx * fx + fy * fy <= 725 * 725) by (nonlinear_arith)
        requires
            fx == 512 || fx == -512,
            fy == 512 || fy == -512,
    ;
    assert((-fx) * (-fx) + (-fy) * (-fy) <= 725 * 725) by (nonlinear_arith)
        requires
            fx * fx + fy * fy <= 725 * 725,
    ;
    if v2 > (outer + 2 * UNIT) * (outer + 2 * UNIT) {
        if u2 <= outer * outer {
            lemma_triangle(ux, uy, -fx, -fy, outer, 725);
            assert(ux + (-fx) == vx && uy + (-fy) == vy);
            assert((outer + 725) * (outer + 725) <= (outer + 2048) * (outer + 2048))
                by (nonlinear_arith)
                requires
                    outer >= 0,
            ;
            assert(false);
        }
    }
    if inner >= 2 * UNIT && v2 < (inner - 2 * UNIT) * (inner - 2 * UNIT) {
        lemma_triangle(vx, vy, fx, fy, inner - 2048, 725);
        assert(vx + fx == ux && vy + fy == uy);
        assert((inner - 2048 + 725) * (inner - 2048 + 725) < inner * inner) by (nonlinear_arith)
            requires
                inner >= 2048,
        ;
        assert(u2 < inner * inner);
    }
}

/// What can be burnt into a canvas.
pub trait Draw {
    /// A pixel after the thing has been drawn over it.
    spec fn drawn(&self, font: Option<FontFace>, prev: Rgba, x: int, y: int) -> Rgba;

    /// Whether the thing can be drawn.
    spec fn drawable(&self) -> bool;

    /// Burns the thing into the canvas.
    fn draw_on_image(&self, canvas: &mut Canvas, font: &Option<FontFace>)
        requires
            old(canvas).wf(),
            self.drawable(),
            font.is_some() ==> font.unwrap().wf(),
        ensures
            final(canvas).same_shape(*old(canvas)),
            forall|x: int, y: int|
                old(canvas).contains(x, y) ==> #[trigger] final(canvas).px(x, y) == self.drawn(
                    *font,
                    old(canvas).px(x, y),
                    x,
                    y,
                ),
    ;
}

impl Draw for Operator {
    open spec fn drawn(&self, font: Option<FontFace>, prev: Rgba, x: int, y: int) -> Rgba {
        self@.drawn_px(font, prev, x, y)
    }

    open spec fn drawable(&self) -> bool {
        self.wf()
    }

    fn draw_on_image(&self, canvas: &mut Canvas, font: &Option<FontFace>) {
        Operator::draw_on_image(self, canvas, font);
    }
}

} // verus!
