//! The compositor: all annotations of a document burnt into a copy of its
//! picture, in the order in which they were made.

use crate::canvas::Canvas;
use crate::color::Rgba;
use crate::coverage::{next_vertex, Region};
use crate::drawable::{drawn_width, frame_covers, frame_thickness, ring_of, segment_count};
use crate::font::FontFace;
use crate::operators::{Operator, OperatorView, Shape};
use crate::raster::lemma_full_coverage_hides;
use vstd::prelude::*;

verus! {

/// The font as far as it can be used: one with a malformed glyph counts as
/// none.
pub open spec fn usable(font: Option<FontFace>) -> Option<FontFace> {
    match font {
        Some(f) => if f.wf() {
            Some(f)
        } else {
            None
        },
        None => None,
    }
}

/// A pixel after the first `n` annotations have been drawn over it, one
/// after the other.  An annotation whose shape is not well formed draws
/// nothing.
pub open spec fn rendered_px(
    operators: Seq<Operator>,
    n: int,
    font: Option<FontFace>,
    prev: Rgba,
    x: int,
    y: int,
) -> Rgba
    decreases n,
{
    if n <= 0 {
        prev
    } else {
        let below = rendered_px(operators, n - 1, font, prev, x, y);
        if operators[n - 1].wf() {
            operators[n - 1]@.drawn_px(font, below, x, y)
        } else {
            below
        }
    }
}

/// The picture with every annotation burnt in: a new canvas of the same
/// size, each pixel of which is the base's pixel with the annotations drawn
/// over it in order.  The base is left as it is.
pub fn render(base: &Canvas, operators: &Vec<Operator>, font: &Option<FontFace>) -> (out: Canvas)
    requires
        base.wf(),
    ensures
        out.same_shape(*base),
        forall|x: int, y: int|
            base.contains(x, y) ==> #[trigger] out.px(x, y) == rendered_px(
                operators@,
                operators@.len() as int,
                usable(*font),
                base.px(x, y),
                x,
                y,
            ),
{
    let mut out: Canvas = base.raw_clone();
    let none: Option<FontFace> = None;
    let font_ok: bool = match font {
        Some(f) => f.is_valid(),
        None => false,
    };
    let used: &Option<FontFace> = if font_ok { font } else { &none };
    assert(*used == usable(*font));
    let mut k: usize = 0;
    while k < operators.len()
        invariant
            k <= operators@.len(),
            base.wf(),
            used.is_some() ==> used.unwrap().wf(),
            out.same_shape(*base),
            forall|x: int, y: int|
                base.contains(x, y) ==> #[trigger] out.px(x, y) == rendered_px(
                    operators@,
                    k as int,
                    *used,
                    base.px(x, y),
                    x,
                    y,
                ),
        decreases operators@.len() - k,
    {
        let op: &Operator = &operators[k];
        let ghost mid = out;
        if op.is_valid() {
            op.draw_on_image(&mut out, used);
        }
        proof {
            assert forall|x: int, y: int| base.contains(x, y) implies #[trigger] out.px(x, y)
                == rendered_px(operators@, k + 1, *used, base.px(x, y), x, y) by {
                assert(mid.contains(x, y));
            }
        }
        k += 1;
    }
    out
}

impl OperatorView {
    /// The stroke of the annotation covers pixel `(x, y)` in full: the pixel
    /// lies on a rectangle's border, or all four of its samples lie in the
    /// band of an ellipse, in the stroke of a segment, or in that of a
    /// path's last segment.
    pub open spec fn hides(self, x: int, y: int) -> bool {
        match self.geometry {
            Shape::Rectangle { min, max } => frame_covers(
                x,
                y,
                min,
                max,
                frame_thickness(self.stroke_width),
            ),
            Shape::Ellipse { center, radius_x, radius_y } => ring_of(
                center,
                radius_x,
                radius_y,
                drawn_width(self.stroke_width),
            ).coverage(x, y) == 4,
            Shape::Line { start, end } => (Region::Capsule {
                a: start,
                b: end,
                width: drawn_width(self.stroke_width) as i64,
            }).coverage(x, y) == 4,
            Shape::Polyline { points, closed } => {
                let k = segment_count(points.len() as int, closed);
                k > 0 && (Region::Capsule {
                    a: points[k - 1],
                    b: next_vertex(points, k - 1),
                    width: drawn_width(self.stroke_width) as i64,
                }).coverage(x, y) == 4
            },
            _ => false,
        }
    }

    /// The colour of a pixel that the stroke covers in full: the stroke
    /// colour, made opaque except on a rectangle's border.
    pub open spec fn top_color(self) -> Rgba {
        match self.geometry {
            Shape::Rectangle { min, max } => self.stroke_color,
            _ => Rgba {
                r: self.stroke_color.r,
                g: self.stroke_color.g,
                b: self.stroke_color.b,
                a: 255,
            },
        }
    }
}

/// Where the stroke of an annotation covers a pixel in full, the pixel takes
/// the stroke's colour whatever lay there before.
pub proof fn lemma_stroke_hides(op: OperatorView, font: Option<FontFace>, prev: Rgba, x: int, y: int)
    requires
        op.hides(x, y),
    ensures
        op.drawn_px(font, prev, x, y) == op.top_color(),
{
    let w = op.stroke_width;
    let fill = crate::operators::visible(op.fill_color);
    match op.geometry {
        Shape::Rectangle { min, max } => {},
        Shape::Ellipse { center, radius_x, radius_y } => {
            let inside = Region::Oval { cx: center.x, cy: center.y, rx: radius_x, ry: radius_y };
            let base = if radius_x > 0 && radius_y > 0 {
                crate::drawable::filled_px(prev, inside, fill, x, y)
            } else {
                prev
            };
            lemma_full_coverage_hides(
                base,
                ring_of(center, radius_x, radius_y, drawn_width(w)),
                op.stroke_color,
                x,
                y,
            );
        },
        Shape::Line { start, end } => {
            lemma_full_coverage_hides(
                prev,
                Region::Capsule { a: start, b: end, width: drawn_width(w) as i64 },
                op.stroke_color,
                x,
                y,
            );
        },
        Shape::Polyline { points, closed } => {
            let k = segment_count(points.len() as int, closed);
            let base = crate::drawable::filled_px(prev, Region::Polygon { points }, fill, x, y);
            let below = crate::drawable::path_px(
                base,
                points,
                k - 1,
                drawn_width(w),
                op.stroke_color,
                x,
                y,
            );
            lemma_full_coverage_hides(
                below,
                Region::Capsule {
                    a: points[k - 1],
                    b: next_vertex(points, k - 1),
                    width: drawn_width(w) as i64,
                },
                op.stroke_color,
                x,
                y,
            );
        },
        _ => {},
    }
}

/// The first `n` annotations of a history draw the same whether or not
/// more follow them.
pub proof fn lemma_render_prefix(
    operators: Seq<Operator>,
    more: Seq<Operator>,
    n: int,
    font: Option<FontFace>,
    prev: Rgba,
    x: int,
    y: int,
)
    requires
        0 <= n <= operators.len(),
    ensures
        rendered_px(operators + more, n, font, prev, x, y) == rendered_px(
            operators,
            n,
            font,
            prev,
            x,
            y,
        ),
    decreases n,
{
    if n > 0 {
        lemma_render_prefix(operators, more, n - 1, font, prev, x, y);
        assert((operators + more)[n - 1] == operators[n - 1]);
    }
}

/// Annotations are drawn in the order of the history: a pixel of the picture
/// with one more annotation is that annotation drawn over the pixel of the
/// picture without it.
pub proof fn lemma_render_in_order(
    operators: Seq<Operator>,
    op: Operator,
    font: Option<FontFace>,
    prev: Rgba,
    x: int,
    y: int,
)
    requires
        op.wf(),
    ensures
        rendered_px(operators.push(op), operators.len() as int + 1, font, prev, x, y) == op@.drawn_px(
            font,
            rendered_px(operators, operators.len() as int, font, prev, x, y),
            x,
            y,
        ),
{
    let all = operators.push(op);
    assert(all =~= operators + seq![op]);
    lemma_render_prefix(operators, seq![op], operators.len() as int, font, prev, x, y);
    assert(all[operators.len() as int] == op);
}

/// The later annotation lies on top: where the stroke of the last
/// annotation covers a pixel in full, the pixel of the picture has that
/// stroke's colour, whatever the picture and the earlier annotations put
/// there.
pub proof fn lemma_later_operator_on_top(
    operators: Seq<Operator>,
    op: Operator,
    font: Option<FontFace>,
    prev: Rgba,
    x: int,
    y: int,
)
    requires
        op.wf(),
        op@.hides(x, y),
    ensures
        rendered_px(operators.push(op), operators.len() as int + 1, font, prev, x, y) == op@.top_color(),
{
    lemma_render_in_order(operators, op, font, prev, x, y);
    lemma_stroke_hides(
        op@,
        font,
        rendered_px(operators, operators.len() as int, font, prev, x, y),
        x,
        y,
    );
}

} // verus!
