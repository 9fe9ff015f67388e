//! Committed annotations: a shape in image space with its stroke and fill.

use crate::canvas::Canvas;
use crate::color::Rgba;
use crate::drawable::{
    draw_ellipse_on_image, draw_line_on_image, draw_marker_on_image, draw_polyline_on_image,
    draw_rect_on_image, draw_text_on_image, ellipse_px, line_px, marker_px, polyline_px, rect_px,
};
use crate::fixed::COORD_MAX;
use crate::font::{text_px, FontFace};
use crate::geometry::{all_valid, all_wf, Point};
use crate::toolbar::StrokeWidth;
use crate::utils::AppHelper;
use vstd::prelude::*;

verus! {

/// The shape of an annotation.  Every coordinate is in image space.
#[derive(Clone, Debug, PartialEq, Eq)]
pub enum ToolType {
    /// An axis-parallel rectangle.
    Rectangle { min: Point, max: Point },
    /// An ellipse with axis-parallel radii.
    Ellipse { center: Point, radius_x: i64, radius_y: i64 },
    /// A straight segment.
    Line { start: Point, end: Point },
    /// A path through `points` in order; a closed one also joins the last
    /// point to the first.
    Polyline { points: Vec<Point>, closed: bool },
    /// A numbered disc.
    Marker { center: Point, radius: i64, label_index: u32 },
    /// A line of text whose top left corner is `position`.
    Text { position: Point, content: String },
}

/// What a shape is: `ToolType` with its points and its text as sequences.
pub enum Shape {
    Rectangle { min: Point, max: Point },
    Ellipse { center: Point, radius_x: i64, radius_y: i64 },
    Line { start: Point, end: Point },
    Polyline { points: Seq<Point>, closed: bool },
    Marker { center: Point, radius: i64, label_index: u32 },
    Text { position: Point, content: Seq<char> },
}

impl Shape {
    /// Every point lies in the coordinate range and every radius between
    /// zero and its limit.
    pub open spec fn wf(self) -> bool {
        match self {
            Shape::Rectangle { min, max } => min.wf() && max.wf(),
            Shape::Ellipse { center, radius_x, radius_y } => {
                &&& center.wf()
                &&& 0 <= radius_x <= COORD_MAX
                &&& 0 <= radius_y <= COORD_MAX
            },
            Shape::Line { start, end } => start.wf() && end.wf(),
            Shape::Polyline { points, closed } => all_wf(points),
            Shape::Marker { center, radius, label_index } => center.wf() && 0 <= radius
                <= COORD_MAX,
            Shape::Text { position, content } => position.wf(),
        }
    }
}

impl View for ToolType {
    type V = Shape;

    open spec fn view(&self) -> Shape {
        match *self {
            ToolType::Rectangle { min, max } => Shape::Rectangle { min, max },
            ToolType::Ellipse { center, radius_x, radius_y } => Shape::Ellipse {
                center,
                radius_x,
                radius_y,
            },
            ToolType::Line { start, end } => Shape::Line { start, end },
            ToolType::Polyline { points, closed } => Shape::Polyline { points: points@, closed },
            ToolType::Marker { center, radius, label_index } => Shape::Marker {
                center,
                radius,
                label_index,
            },
            ToolType::Text { position, content } => Shape::Text { position, content: content@ },
        }
    }
}

impl ToolType {
    /// The shape is well formed.
    pub open spec fn wf(self) -> bool {
        self@.wf()
    }

    /// Whether the shape is well formed.
    pub fn is_valid(&self) -> (ok: bool)
        ensures
            ok == self.wf(),
    {
        match self {
            ToolType::Rectangle { min, max } => min.is_valid() && max.is_valid(),
            ToolType::Ellipse { center, radius_x, radius_y } => center.is_valid() && 0 <= *radius_x
                && *radius_x <= COORD_MAX && 0 <= *radius_y && *radius_y <= COORD_MAX,
            ToolType::Line { start, end } => start.is_valid() && end.is_valid(),
            ToolType::Polyline { points, closed } => all_valid(points),
            ToolType::Marker { center, radius, label_index } => center.is_valid() && 0 <= *radius
                && *radius <= COORD_MAX,
            ToolType::Text { position, content } => position.is_valid(),
        }
    }
}

/// One committed annotation.  It is made when a gesture completes and never
/// changed afterwards.
#[derive(Clone, Debug, PartialEq, Eq)]
pub struct Operator {
    pub geometry: ToolType,
    pub stroke_width: StrokeWidth,
    pub stroke_color: Rgba,
    pub fill_color: Option<Rgba>,
}

/// A fill colour as far as it shows: one that is fully transparent counts
/// as none.
pub open spec fn visible(fill_color: Option<Rgba>) -> Option<Rgba> {
    match fill_color {
        Some(c) => if c.a == 0 {
            None
        } else {
            Some(c)
        },
        None => None,
    }
}

/// What an annotation is: `Operator` with its shape as a `Shape`.
pub struct OperatorView {
    pub geometry: Shape,
    pub stroke_width: StrokeWidth,
    pub stroke_color: Rgba,
    pub fill_color: Option<Rgba>,
}

impl OperatorView {
    /// The shape is well formed.
    pub open spec fn wf(self) -> bool {
        self.geometry.wf()
    }

    /// A pixel after the annotation has been drawn over it.  Without a font
    /// a marker is drawn without its number, and text not at all.
    pub open spec fn drawn_px(self, font: Option<FontFace>, prev: Rgba, x: int, y: int) -> Rgba {
        let fill = visible(self.fill_color);
        match self.geometry {
            Shape::Rectangle { min, max } => rect_px(
                prev,
                min,
                max,
                self.stroke_width,
                self.stroke_color,
                fill,
                x,
                y,
            ),
            Shape::Ellipse { center, radius_x, radius_y } => ellipse_px(
                prev,
                center,
                radius_x,
                radius_y,
                self.stroke_width,
                self.stroke_color,
                fill,
                x,
                y,
            ),
            Shape::Line { start, end } => line_px(
                prev,
                start,
                end,
                self.stroke_width,
                self.stroke_color,
                x,
                y,
            ),
            Shape::Polyline { points, closed } => polyline_px(
                prev,
                points,
                closed,
                self.stroke_width,
                self.stroke_color,
                fill,
                x,
                y,
            ),
            Shape::Marker { center, radius, label_index } => marker_px(
                prev,
                font,
                center,
                radius,
                label_index,
                self.stroke_width,
                self.stroke_color,
                fill,
                x,
                y,
            ),
            Shape::Text { position, content } => match font {
                Some(f) => text_px(
                    prev,
                    f,
                    content,
                    content.len() as int,
                    position.x as int,
                    position.y as int,
                    self.stroke_color,
                    x,
                    y,
                ),
                None => prev,
            },
        }
    }
}

impl View for Operator {
    type V = OperatorView;

    open spec fn view(&self) -> OperatorView {
        OperatorView {
            geometry: self.geometry@,
            stroke_width: self.stroke_width,
            stroke_color: self.stroke_color,
            fill_color: self.fill_color,
        }
    }
}

impl Operator {
    /// The shape is well formed.
    pub open spec fn wf(self) -> bool {
        self@.wf()
    }

    pub fn new(
        geometry: ToolType,
        stroke_width: StrokeWidth,
        stroke_color: Rgba,
        fill_color: Option<Rgba>,
    ) -> (op: Operator)
        ensures
            op == (Operator { geometry, stroke_width, stroke_color, fill_color }),
    {
        Operator { geometry, stroke_width, stroke_color, fill_color }
    }

    /// Whether the shape is well formed.
    pub fn is_valid(&self) -> (ok: bool)
        ensures
            ok == self.wf(),
    {
        self.geometry.is_valid()
    }

    /// The colour that the interior is filled with, if it is filled at all:
    /// a fill that is fully transparent counts as none.
    pub open spec fn fill(self) -> Option<Rgba> {
        visible(self.fill_color)
    }

    /// The colour that the interior is filled with, if it is filled at all.
    pub fn visible_fill(&self) -> (f: Option<Rgba>)
        ensures
            f == self.fill(),
    {
        match self.fill_color {
            Some(c) => if c.is_transparent() {
                None
            } else {
                Some(c)
            },
            None => None,
        }
    }

    /// Burns the annotation into the canvas.  Each shape is drawn by its own
    /// rule; without a font a marker is drawn without its number, and text
    /// not at all.
    pub fn draw_on_image(&self, canvas: &mut Canvas, font: &Option<FontFace>)
        requires
            old(canvas).wf(),
            self.wf(),
            font.is_some() ==> font.unwrap().wf(),
        ensures
            final(canvas).same_shape(*old(canvas)),
            forall|x: int, y: int|
                old(canvas).contains(x, y) ==> #[trigger] final(canvas).px(x, y) == self@.drawn_px(
                    *font,
                    old(canvas).px(x, y),
                    x,
                    y,
                ),
    {
        match &self.geometry {
            ToolType::Rectangle { min, max } => draw_rect_on_image(self, canvas, *min, *max),
            ToolType::Ellipse { center, radius_x, radius_y } => draw_ellipse_on_image(
                self,
                canvas,
                *center,
                *radius_x,
                *radius_y,
            ),
            ToolType::Line { start, end } => draw_line_on_image(self, canvas, *start, *end),
            ToolType::Polyline { points, closed } => draw_polyline_on_image(
                self,
                canvas,
                points,
                *closed,
            ),
            ToolType::Marker { center, radius, label_index } => draw_marker_on_image(
                self,
                canvas,
                font,
                *center,
                *radius,
                *label_index,
            ),
            ToolType::Text { position, content } => match font {
                Some(f) => draw_text_on_image(
                    canvas,
                    f,
                    content.as_str(),
                    position.x as i128,
                    position.y as i128,
                    self.stroke_color,
                ),
                None => {},
            },
        }
    }
}

/// One instruction for the painter of the live view: a shape in screen
/// space, its points, radii and the width of its stroke in screen units.
#[derive(Clone, Debug, PartialEq, Eq)]
pub struct DrawCommand {
    pub geometry: ToolType,
    pub stroke_width: i64,
    pub stroke_color: Rgba,
    pub fill_color: Option<Rgba>,
}

/// What a `DrawCommand` holds.
pub struct DrawCommandView {
    pub geometry: Shape,
    pub stroke_width: int,
    pub stroke_color: Rgba,
    pub fill_color: Option<Rgba>,
}

impl View for DrawCommand {
    type V = DrawCommandView;

    open spec fn view(&self) -> DrawCommandView {
        DrawCommandView {
            geometry: self.geometry@,
            stroke_width: self.stroke_width as int,
            stroke_color: self.stroke_color,
            fill_color: self.fill_color,
        }
    }
}

impl Shape {
    /// The shape as it appears on the screen: every point carried to screen
    /// space and every radius multiplied by the effective scale.
    pub open spec fn on_screen(self, helper: AppHelper) -> Shape {
        match self {
            Shape::Rectangle { min, max } => Shape::Rectangle {
                min: helper.to_screen(min),
                max: helper.to_screen(max),
            },
            Shape::Ellipse { center, radius_x, radius_y } => Shape::Ellipse {
                center: helper.to_screen(center),
                radius_x: helper.to_screen_length(radius_x as int) as i64,
                radius_y: helper.to_screen_length(radius_y as int) as i64,
            },
            Shape::Line { start, end } => Shape::Line {
                start: helper.to_screen(start),
                end: helper.to_screen(end),
            },
            Shape::Polyline { points, closed } => Shape::Polyline {
                points: Seq::new(points.len(), |i: int| helper.to_screen(points[i])),
                closed,
            },
            Shape::Marker { center, radius, label_index } => Shape::Marker {
                center: helper.to_screen(center),
                radius: helper.to_screen_length(radius as int) as i64,
                label_index,
            },
            Shape::Text { position, content } => Shape::Text {
                position: helper.to_screen(position),
                content,
            },
        }
    }
}

impl OperatorView {
    /// The annotation as the live view shows it: its shape on the screen,
    /// its stroke width multiplied by the effective scale, its colours as
    /// they are.
    pub open spec fn on_screen(self, helper: AppHelper) -> DrawCommandView {
        DrawCommandView {
            geometry: self.geometry.on_screen(helper),
            stroke_width: helper.to_screen_length(self.stroke_width.units()),
            stroke_color: self.stroke_color,
            fill_color: self.fill_color,
        }
    }
}

fn points_on_screen(points: &Vec<Point>, helper: &AppHelper) -> (out: Vec<Point>)
    requires
        helper.wf(),
        all_wf(points@),
    ensures
        out@ == Seq::new(points@.len(), |i: int| helper.to_screen(points@[i])),
{
    let mut out: Vec<Point> = Vec::new();
    let mut k: usize = 0;
    while k < points.len()
        invariant
            k <= points@.len(),
            helper.wf(),
            all_wf(points@),
            out@.len() == k,
            forall|i: int| 0 <= i < k ==> out@[i] == helper.to_screen(#[trigger] points@[i]),
        decreases points@.len() - k,
    {
        out.push(helper.image_to_screen(points[k]));
        k += 1;
    }
    assert(out@ =~= Seq::new(points@.len(), |i: int| helper.to_screen(points@[i])));
    out
}

impl ToolType {
    /// The shape as it appears on the screen.
    pub fn to_screen(&self, helper: &AppHelper) -> (out: ToolType)
        requires
            helper.wf(),
            self.wf(),
        ensures
            out@ == self@.on_screen(*helper),
    {
        match self {
            ToolType::Rectangle { min, max } => ToolType::Rectangle {
                min: helper.image_to_screen(*min),
                max: helper.image_to_screen(*max),
            },
            ToolType::Ellipse { center, radius_x, radius_y } => ToolType::Ellipse {
                center: helper.image_to_screen(*center),
                radius_x: helper.scale_length(*radius_x),
                radius_y: helper.scale_length(*radius_y),
            },
            ToolType::Line { start, end } => ToolType::Line {
                start: helper.image_to_screen(*start),
                end: helper.image_to_screen(*end),
            },
            ToolType::Polyline { points, closed } => ToolType::Polyline {
                points: points_on_screen(points, helper),
                closed: *closed,
            },
            ToolType::Marker { center, radius, label_index } => ToolType::Marker {
                center: helper.image_to_screen(*center),
                radius: helper.scale_length(*radius),
                label_index: *label_index,
            },
            ToolType::Text { position, content } => ToolType::Text {
                position: helper.image_to_screen(*position),
                content: content.clone(),
            },
        }
    }
}

impl Operator {
    /// The instruction that shows the annotation in the live view.  The
    /// annotation itself is left as it is.
    pub fn draw(&self, helper: &AppHelper) -> (cmd: DrawCommand)
        requires
            helper.wf(),
            self.wf(),
        ensures
            cmd@ == self@.on_screen(*helper),
    {
        DrawCommand {
            geometry: self.geometry.to_screen(helper),
            stroke_width: helper.scale_length(self.stroke_width.value()),
            stroke_color: self.stroke_color,
            fill_color: self.fill_color,
        }
    }

    /// The instruction that shows an annotation in the making.  It is drawn
    /// as a committed one is.
    pub fn draw_process(&self, helper: &AppHelper) -> (cmd: DrawCommand)
        requires
            helper.wf(),
            self.wf(),
        ensures
            cmd@ == self@.on_screen(*helper),
    {
        self.draw(helper)
    }
}

/// An annotation whose path has no points leaves every pixel as it is.
pub proof fn lemma_empty_path_draws_nothing(
    op: OperatorView,
    closed: bool,
    font: Option<FontFace>,
    prev: Rgba,
    x: int,
    y: int,
)
    requires
        op.geometry == (Shape::Polyline { points: Seq::<Point>::empty(), closed }),
    ensures
        op.drawn_px(font, prev, x, y) == prev,
{
    crate::drawable::lemma_empty_polyline_draws_nothing(
        prev,
        closed,
        op.stroke_width,
        op.stroke_color,
        visible(op.fill_color),
        x,
        y,
    );
}

} // verus!
