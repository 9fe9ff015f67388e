//! The tools of the toolbar, the stroke widths, and the state of the gesture
//! in progress.

use crate::color::Rgba;
use crate::fixed::{
    abs_int, clamp_coord, clamp_coord_spec, floor_div, isqrt, lemma_floor_bounds, lemma_sqrt_floor,
    max_int, min_int, sqrt_floor, COORD_MAX, UNIT,
};
use crate::geometry::{all_wf, Point};
use crate::operators::{Operator, OperatorView, Shape, ToolType};
use crate::utils::{AppHelper, Rect};
use vstd::prelude::*;

verus! {

/// The tools of the toolbar.
#[derive(PartialEq, Eq, Structural, Clone, Copy, Debug)]
pub enum Tool {
    Select,
    Rectangle,
    Circle,
    Arrow,
    Line,
    Pencil,
    Number,
    Emoji,
    Text,
    Masaic,
    Pin,
    Copy,
    Save,
}

impl Default for Tool {
    fn default() -> (t: Tool)
        ensures
            t == Tool::Select,
    {
        Tool::Select
    }
}

impl Tool {
    /// The address under which the tool's icon is registered.
    pub open spec fn icon_uri(self) -> Seq<char> {
        match self {
            Tool::Select => "bytes://select_icon.svg"@,
            Tool::Rectangle => "bytes://rect_icon.svg"@,
            Tool::Arrow => "bytes://arrow_icon.svg"@,
            Tool::Circle => "bytes://circle_icon.svg"@,
            Tool::Line => "bytes://line_icon.svg"@,
            Tool::Pencil => "bytes://pencil_icon.svg"@,
            Tool::Number => "bytes://number_icon.svg"@,
            Tool::Emoji => "bytes://emoji_icon.svg"@,
            Tool::Text => "bytes://text_icon.svg"@,
            Tool::Masaic => "bytes://mosaic_icon.svg"@,
            Tool::Pin => "bytes://pin_icon.svg"@,
            Tool::Copy => "bytes://copy_icon.svg"@,
            Tool::Save => "bytes://save_icon.svg"@,
        }
    }

    /// The text shown when the pointer rests on the tool's button.
    pub open spec fn tooltip(self) -> Seq<char> {
        match self {
            Tool::Select => "Select"@,
            Tool::Rectangle => "Rect"@,
            Tool::Arrow => "Arrow"@,
            Tool::Circle => "Circle"@,
            Tool::Line => "Line"@,
            Tool::Pencil => "Pencil"@,
            Tool::Number => "Number"@,
            Tool::Emoji => "Emoji"@,
            Tool::Text => "Text"@,
            Tool::Masaic => "Mosaic"@,
            Tool::Pin => "Pin"@,
            Tool::Copy => "Copy to Clipboard"@,
            Tool::Save => "Save"@,
        }
    }

    /// The address of the tool's icon and the text of its tooltip.
    pub fn tool_icon(&self) -> (r: (&'static str, &'static str))
        ensures
            r.0@ == self.icon_uri(),
            r.1@ == self.tooltip(),
    {
        match self {
            Tool::Select => ("bytes://select_icon.svg", "Select"),
            Tool::Rectangle => ("bytes://rect_icon.svg", "Rect"),
            Tool::Arrow => ("bytes://arrow_icon.svg", "Arrow"),
            Tool::Circle => ("bytes://circle_icon.svg", "Circle"),
            Tool::Line => ("bytes://line_icon.svg", "Line"),
            Tool::Pencil => ("bytes://pencil_icon.svg", "Pencil"),
            Tool::Number => ("bytes://number_icon.svg", "Number"),
            Tool::Emoji => ("bytes://emoji_icon.svg", "Emoji"),
            Tool::Text => ("bytes://text_icon.svg", "Text"),
            Tool::Masaic => ("bytes://mosaic_icon.svg", "Mosaic"),
            Tool::Pin => ("bytes://pin_icon.svg", "Pin"),
            Tool::Copy => ("bytes://copy_icon.svg", "Copy to Clipboard"),
            Tool::Save => ("bytes://save_icon.svg", "Save"),
        }
    }
}

/// The width of a stroke.  `Custom` counts coordinate units, 1024 to the
/// pixel.
#[derive(Debug, Clone, Copy, PartialEq, Eq, Structural)]
pub enum StrokeWidth {
    ONE,
    THREE,
    FIVE,
    Custom(u16),
}

impl Default for StrokeWidth {
    fn default() -> (w: StrokeWidth)
        ensures
            w == StrokeWidth::THREE,
    {
        StrokeWidth::THREE
    }
}

impl From<StrokeWidth> for i64 {
    /// The width in coordinate units.
    fn from(w: StrokeWidth) -> (units: i64) {
        w.value()
    }
}

impl vstd::std_specs::convert::FromSpecImpl<StrokeWidth> for i64 {
    open spec fn obeys_from_spec() -> bool {
        true
    }

    open spec fn from_spec(w: StrokeWidth) -> i64 {
        w.units() as i64
    }
}

impl StrokeWidth {
    /// The width in coordinate units.
    pub open spec fn units(self) -> int {
        match self {
            StrokeWidth::ONE => UNIT as int,
            StrokeWidth::THREE => 3 * UNIT,
            StrokeWidth::FIVE => 5 * UNIT,
            StrokeWidth::Custom(x) => x as int,
        }
    }

    /// The width in coordinate units.
    pub fn value(self) -> (w: i64)
        ensures
            w == self.units(),
            0 <= w <= 65_535,
    {
        match self {
            StrokeWidth::ONE => UNIT,
            StrokeWidth::THREE => 3 * UNIT,
            StrokeWidth::FIVE => 5 * UNIT,
            StrokeWidth::Custom(x) => x as i64,
        }
    }
}

/// The point `(x, y)`, each coordinate confined to the coordinate range.
pub open spec fn point_at(x: int, y: int) -> Point {
    Point { x: clamp_coord_spec(x) as i64, y: clamp_coord_spec(y) as i64 }
}

fn make_point(x: i128, y: i128) -> (p: Point)
    ensures
        p == point_at(x as int, y as int),
        p.wf(),
{
    Point { x: clamp_coord(x), y: clamp_coord(y) }
}

/// The factor by which the length of an arrow is scaled before its root is
/// taken: 2^30.
pub const LENGTH_SCALE: i64 = 1_073_741_824;

/// The length of the vector `(dx, dy)` times `LENGTH_SCALE`, rounded down.
/// Thirty bits below the unit make the rounding of the root too small to
/// show in any point of an outline.
pub open spec fn scaled_length(dx: int, dy: int) -> int {
    sqrt_floor(((dx * dx + dy * dy) * (LENGTH_SCALE * LENGTH_SCALE)) as nat) as int
}

/// The length `k` laid along the component `d` of a vector whose scaled
/// length is `len`: `d * k / length`, to the nearest unit.
pub open spec fn along(d: int, k: int, len: int) -> int {
    (2 * ((d * k) * LENGTH_SCALE) + len) / (2 * len)
}

fn along_of(d: i128, k: i128, len: i128) -> (r: i128)
    requires
        -0x1_0000_0000 <= d <= 0x1_0000_0000,
        0 <= k <= 0x10_0000,
        0x4000_0000 <= len < 0x8000_0000_0000_0000,
    ensures
        r == along(d as int, k as int, len as int),
        -0x40_0000_0000_0000 <= r <= 0x40_0000_0000_0000,
{
    assert(-0x1_0000_0000 * 0x10_0000 <= d * k <= 0x1_0000_0000 * 0x10_0000) by (nonlinear_arith)
        requires
            -0x1_0000_0000 <= d <= 0x1_0000_0000,
            0 <= k <= 0x10_0000,
    ;
    let dk: i128 = d * k;
    assert(-0x1_0000_0000 * 0x10_0000 * 0x4000_0000 <= dk * 0x4000_0000 <= 0x1_0000_0000 * 0x10_0000
        * 0x4000_0000) by (nonlinear_arith)
        requires
            -0x1_0000_0000 * 0x10_0000 <= dk <= 0x1_0000_0000 * 0x10_0000,
    ;
    let n: i128 = 2 * (dk * (LENGTH_SCALE as i128)) + len;
    let r: i128 = floor_div(n, 2 * len);
    proof {
        lemma_floor_bounds(n as int, 2 * len);
        assert(r <= 0x40_0000_0000_0000) by (nonlinear_arith)
            requires
                (2 * len) * r <= n,
                n <= 0x8_0000_0000_0000_0000_0000 + len,
                len >= 0x4000_0000,
        ;
        assert(r >= -0x40_0000_0000_0000) by (nonlinear_arith)
            requires
                n < (2 * len) * r + 2 * len,
                n >= -0x8_0000_0000_0000_0000_0000 + len,
                len >= 0x4000_0000,
        ;
    }
    r
}

/// The lower of two coordinates that lie `across` apart and whose mean is
/// as near as two whole numbers that far apart can have it to the centre
/// `twice / (2 * len)`: within half a unit.
pub open spec fn lower_side(twice: int, across: int, len: int) -> int {
    (twice + (1 - across) * len) / (2 * len)
}

fn lower_side_of(twice: i128, across: i128, len: i128) -> (r: i128)
    requires
        -0x1_0000_0000_0000_0000_0000_0000 <= twice <= 0x1_0000_0000_0000_0000_0000_0000,
        -0x40_0000_0000_0000 <= across <= 0x40_0000_0000_0000,
        0 < len < 0x8000_0000_0000_0000,
    ensures
        r == lower_side(twice as int, across as int, len as int),
        -0x1_0000_0000_0000_0000_0000_0000_0000_000 <= r <= 0x1_0000_0000_0000_0000_0000_0000_0000_000,
{
    assert(-0x40_0000_0000_0001 * 0x8000_0000_0000_0000 <= (1 - across) * len
        <= 0x40_0000_0000_0001 * 0x8000_0000_0000_0000) by (nonlinear_arith)
        requires
            -0x40_0000_0000_0000 <= across <= 0x40_0000_0000_0000,
            0 < len < 0x8000_0000_0000_0000,
    ;
    let n: i128 = twice + (1 - across) * len;
    proof {
        lemma_floor_bounds(n as int, 2 * len);
    }
    floor_div(n, 2 * len)
}

/// Twice the centre of the base of an arrow's head along one axis, times
/// the scaled length `len`: the tip `tip` less `reach` laid along the
/// component `d` of the arrow's direction.
pub open spec fn twice_behind(tip: int, d: int, reach: int, len: int) -> int {
    2 * (tip * len) - 2 * ((d * reach) * LENGTH_SCALE)
}

/// Two sides of an arrow: two points that lie across the arrow from one
/// another, `k` apart, with their middle `reach` behind `tip`.  The vector
/// across is rounded to whole units once, and the two sides are laid
/// exactly that vector apart, with their middle within half a unit of where
/// it belongs.
pub struct Sides {
    pub low_x: int,
    pub low_y: int,
    pub across_x: int,
    pub across_y: int,
}

impl Sides {
    /// The side towards which the vector across points.
    pub open spec fn upper(self) -> Point {
        point_at(self.low_x + self.across_x, self.low_y + self.across_y)
    }

    /// The side from which the vector across points.
    pub open spec fn lower(self) -> Point {
        point_at(self.low_x, self.low_y)
    }
}

/// The two sides of the arrow with the direction `(dx, dy)` that lie `k`
/// apart, with their middle `reach` behind `tip`.
pub open spec fn sides_behind(tip: Point, dx: int, dy: int, reach: int, k: int, len: int) -> Sides {
    let across_x = along(-dy, k, len);
    let across_y = along(dx, k, len);
    Sides {
        low_x: lower_side(twice_behind(tip.x as int, dx, reach, len), across_x, len),
        low_y: lower_side(twice_behind(tip.y as int, dy, reach, len), across_y, len),
        across_x,
        across_y,
    }
}

/// The outline of an arrow from `start` to `end`: seven points, the tip
/// first, then round the head and the shaft.  The base of the head lies
/// eight stroke widths behind the tip.  Across the arrow, at a right angle
/// to its direction, the head is five stroke widths wide and the shaft one.
/// The direction is `end - start` over its length.  An arrow without length
/// has no outline.
pub open spec fn arrow_spec(start: Point, end: Point, stroke: StrokeWidth) -> Seq<Point> {
    let dx = end.x - start.x;
    let dy = end.y - start.y;
    if dx == 0 && dy == 0 {
        Seq::empty()
    } else {
        let len = scaled_length(dx, dy);
        let s = stroke.units();
        let head = sides_behind(end, dx, dy, 8 * s, 5 * s, len);
        let neck = sides_behind(end, dx, dy, 8 * s, s, len);
        let tail = sides_behind(start, dx, dy, 0, s, len);
        seq![
            end,
            head.upper(),
            neck.upper(),
            tail.upper(),
            tail.lower(),
            neck.lower(),
            head.lower(),
        ]
    }
}

fn twice_behind_of(tip: i64, d: i128, reach: i128, len: i128) -> (r: i128)
    requires
        -0x4000_0000 <= tip <= 0x4000_0000,
        -0x1_0000_0000 <= d <= 0x1_0000_0000,
        0 <= reach <= 0x10_0000,
        0 < len < 0x8000_0000_0000_0000,
    ensures
        r == twice_behind(tip as int, d as int, reach as int, len as int),
        -0x1_0000_0000_0000_0000_0000_0000 <= r <= 0x1_0000_0000_0000_0000_0000_0000,
{
    let t: i128 = tip as i128;
    assert(-0x4000_0000 * 0x8000_0000_0000_0000 <= t * len <= 0x4000_0000 * 0x8000_0000_0000_0000)
        by (nonlinear_arith)
        requires
            -0x4000_0000 <= t <= 0x4000_0000,
            0 < len < 0x8000_0000_0000_0000,
    ;
    assert(-0x1_0000_0000 * 0x10_0000 <= d * reach <= 0x1_0000_0000 * 0x10_0000)
        by (nonlinear_arith)
        requires
            -0x1_0000_0000 <= d <= 0x1_0000_0000,
            0 <= reach <= 0x10_0000,
    ;
    let dr: i128 = d * reach;
    assert(-0x1_0000_0000 * 0x10_0000 * 0x4000_0000 <= dr * 0x4000_0000 <= 0x1_0000_0000 * 0x10_0000
        * 0x4000_0000) by (nonlinear_arith)
        requires
            -0x1_0000_0000 * 0x10_0000 <= dr <= 0x1_0000_0000 * 0x10_0000,
    ;
    2 * (t * len) - 2 * (dr * (LENGTH_SCALE as i128))
}

/// The outline of an arrow from `start` to `end`.
pub fn arrow_points(start: Point, end: Point, stroke: StrokeWidth) -> (points: Vec<Point>)
    requires
        start.wf(),
        end.wf(),
    ensures
        points@ == arrow_spec(start, end, stroke),
        all_wf(points@),
{
    let dx: i128 = (end.x - start.x) as i128;
    let dy: i128 = (end.y - start.y) as i128;
    if dx == 0 && dy == 0 {
        let empty: Vec<Point> = Vec::new();
        assert(empty@ =~= arrow_spec(start, end, stroke));
        return empty;
    }
    assert(0 <= dx * dx <= 0x8000_0000 * 0x8000_0000) by (nonlinear_arith)
        requires
            -0x8000_0000 <= dx <= 0x8000_0000,
    ;
    assert(0 <= dy * dy <= 0x8000_0000 * 0x8000_0000) by (nonlinear_arith)
        requires
            -0x8000_0000 <= dy <= 0x8000_0000,
    ;
    assert(dx * dx + dy * dy > 0) by (nonlinear_arith)
        requires
            dx != 0 || dy != 0,
    ;
    let len2: u128 = (dx * dx + dy * dy) as u128;
    let unit2: u128 = (LENGTH_SCALE as u128) * (LENGTH_SCALE as u128);
    assert(unit2 <= len2 * unit2 <= 0x8000_0000_0000_0000 * 0x1000_0000_0000_0000)
        by (nonlinear_arith)
        requires
            1 <= len2 <= 0x8000_0000_0000_0000,
            unit2 == 0x1000_0000_0000_0000,
    ;
    let root: u128 = isqrt(len2 * unit2);
    assert(root >= 0x4000_0000) by (nonlinear_arith)
        requires
            len2 * unit2 >= 0x4000_0000 * 0x4000_0000,
            len2 * unit2 < (root + 1) * (root + 1),
            root >= 0,
    ;
    let len: i128 = root as i128;
    let s: i128 = stroke.value() as i128;
    let hx: i128 = along_of(-dy, 5 * s, len);
    let hy: i128 = along_of(dx, 5 * s, len);
    let tx: i128 = along_of(-dy, s, len);
    let ty: i128 = along_of(dx, s, len);
    let bx: i128 = twice_behind_of(end.x, dx, 8 * s, len);
    let by: i128 = twice_behind_of(end.y, dy, 8 * s, len);
    let ax: i128 = twice_behind_of(start.x, dx, 0, len);
    let ay: i128 = twice_behind_of(start.y, dy, 0, len);
    let h6x: i128 = lower_side_of(bx, hx, len);
    let h6y: i128 = lower_side_of(by, hy, len);
    let t5x: i128 = lower_side_of(bx, tx, len);
    let t5y: i128 = lower_side_of(by, ty, len);
    let t4x: i128 = lower_side_of(ax, tx, len);
    let t4y: i128 = lower_side_of(ay, ty, len);
    let mut points: Vec<Point> = Vec::new();
    points.push(end);
    points.push(make_point(h6x + hx, h6y + hy));
    points.push(make_point(t5x + tx, t5y + ty));
    points.push(make_point(t4x + tx, t4y + ty));
    points.push(make_point(t4x, t4y));
    points.push(make_point(t5x, t5y));
    points.push(make_point(h6x, h6y));
    assert(points@ =~= arrow_spec(start, end, stroke));
    points
}

/// The text that is being typed and where it will stand, in image space.
#[derive(Debug, Clone, PartialEq, Eq)]
pub struct TextEditState {
    pub pos: Point,
    pub content: String,
}

/// What the pointer did on the canvas during one frame.  Positions are in
/// screen space, in screen units.
#[derive(Debug, Clone, Copy, PartialEq, Eq, Structural)]
pub struct PointerEvent {
    /// A drag with the primary button began.
    pub drag_started: bool,
    /// The pointer moved with the primary button down.
    pub dragged: bool,
    /// A drag with the primary button ended.
    pub drag_stopped: bool,
    /// The primary button was clicked.
    pub clicked: bool,
    /// Where the button went down.
    pub press_origin: Option<Point>,
    /// Where the pointer is.
    pub pointer_pos: Option<Point>,
}

/// The selected tool with its stroke and colour, and the gesture in
/// progress.  Positions are in screen space until an operator is made.
#[derive(Debug, Clone, PartialEq, Eq)]
pub struct ToolInfo {
    pub tool: Tool,
    pub stroke_width: StrokeWidth,
    pub color: Rgba,
    pub start_pos: Option<Point>,
    pub end_pos: Option<Point>,
    pub tracks: Vec<Option<Point>>,
    pub number: u32,
    pub text_editing: Option<TextEditState>,
}

/// What a `ToolInfo` holds, with its sequences as `Seq`.
pub struct ToolState {
    pub tool: Tool,
    pub stroke_width: StrokeWidth,
    pub color: Rgba,
    pub start_pos: Option<Point>,
    pub end_pos: Option<Point>,
    pub tracks: Seq<Option<Point>>,
    pub number: u32,
    pub text_editing: Option<(Point, Seq<char>)>,
}

impl View for ToolInfo {
    type V = ToolState;

    open spec fn view(&self) -> ToolState {
        ToolState {
            tool: self.tool,
            stroke_width: self.stroke_width,
            color: self.color,
            start_pos: self.start_pos,
            end_pos: self.end_pos,
            tracks: self.tracks@,
            number: self.number,
            text_editing: match self.text_editing {
                Some(t) => Some((t.pos, t.content@)),
                None => None,
            },
        }
    }
}

/// The point, or the origin where there is none.
pub open spec fn point_or_origin(p: Option<Point>) -> Point {
    match p {
        Some(q) => q,
        None => Point { x: 0, y: 0 },
    }
}

/// The image points of the first `k` entries of a track, in order; entries
/// without a position are left out.
pub open spec fn traced(tracks: Seq<Option<Point>>, helper: AppHelper, origin: Point, k: int) -> Seq<
    Point,
>
    decreases k,
{
    if k <= 0 {
        Seq::empty()
    } else {
        let rest = traced(tracks, helper, origin, k - 1);
        match tracks[k - 1] {
            Some(p) => rest.push(helper.to_image_from(origin, p)),
            None => rest,
        }
    }
}

/// The view of an operator that may be absent.
pub open spec fn view_of(r: Option<Operator>) -> Option<OperatorView> {
    match r {
        Some(op) => Some(op@),
        None => None,
    }
}

/// The radius of a numbered marker: ten pixels and five stroke widths.
pub open spec fn marker_radius(stroke: StrokeWidth) -> int {
    10 * UNIT + 5 * stroke.units()
}

/// The rectangle with two opposite corners at `start` and `end`.
pub open spec fn rectangle_between(start: Point, end: Point) -> Shape {
    Shape::Rectangle {
        min: Point {
            x: min_int(start.x as int, end.x as int) as i64,
            y: min_int(start.y as int, end.y as int) as i64,
        },
        max: Point {
            x: max_int(start.x as int, end.x as int) as i64,
            y: max_int(start.y as int, end.y as int) as i64,
        },
    }
}

/// The ellipse inscribed in the rectangle between `start` and `end`: its
/// centre is their midpoint, its radii half their distance along each axis,
/// all rounded down.
pub open spec fn ellipse_between(start: Point, end: Point) -> Shape {
    Shape::Ellipse {
        center: Point { x: ((start.x + end.x) / 2) as i64, y: ((start.y + end.y) / 2) as i64 },
        radius_x: (abs_int(end.x - start.x) / 2) as i64,
        radius_y: (abs_int(end.y - start.y) / 2) as i64,
    }
}

/// A shape with the stroke and colour of the tool.
pub open spec fn styled(geometry: Shape, width: StrokeWidth, color: Rgba, filled: bool) -> OperatorView {
    OperatorView {
        geometry,
        stroke_width: width,
        stroke_color: color,
        fill_color: if filled {
            Some(color)
        } else {
            None
        },
    }
}

fn rectangle_tool(start: Point, end: Point) -> (r: ToolType)
    requires
        start.wf(),
        end.wf(),
    ensures
        r@ == rectangle_between(start, end),
        r.wf(),
{
    let min: Point = Point {
        x: if start.x <= end.x { start.x } else { end.x },
        y: if start.y <= end.y { start.y } else { end.y },
    };
    let max: Point = Point {
        x: if start.x >= end.x { start.x } else { end.x },
        y: if start.y >= end.y { start.y } else { end.y },
    };
    ToolType::Rectangle { min, max }
}

fn ellipse_tool(start: Point, end: Point) -> (r: ToolType)
    requires
        start.wf(),
        end.wf(),
    ensures
        r@ == ellipse_between(start, end),
        r.wf(),
{
    let span_x: i64 = if end.x >= start.x { end.x - start.x } else { start.x - end.x };
    let span_y: i64 = if end.y >= start.y { end.y - start.y } else { start.y - end.y };
    let cx: i128 = floor_div((start.x + end.x) as i128, 2);
    let cy: i128 = floor_div((start.y + end.y) as i128, 2);
    proof {
        lemma_floor_bounds(start.x + end.x, 2);
        lemma_floor_bounds(start.y + end.y, 2);
    }
    let center: Point = Point { x: cx as i64, y: cy as i64 };
    ToolType::Ellipse { center, radius_x: span_x / 2, radius_y: span_y / 2 }
}

fn with_style(geometry: ToolType, width: StrokeWidth, color: Rgba, filled: bool) -> (op: Operator)
    ensures
        op@ == styled(geometry@, width, color, filled),
        op.geometry == geometry,
{
    Operator::new(geometry, width, color, if filled { Some(color) } else { None })
}

impl ToolState {
    /// The operator that the gesture yields if it ends at `end_pos`: the
    /// tool's shape between the image points of the gesture's start and of
    /// `end_pos`, with the current stroke and colour.
    pub open spec fn operator(self, helper: AppHelper, end_pos: Option<Point>) -> Option<
        OperatorView,
    > {
        let origin = helper.image_rect_min;
        let start = helper.to_image_from(origin, point_or_origin(self.start_pos));
        let end = helper.to_image_from(origin, point_or_origin(end_pos));
        let width = self.stroke_width;
        let color = self.color;
        match self.tool {
            Tool::Rectangle => Some(styled(rectangle_between(start, end), width, color, false)),
            Tool::Circle => Some(styled(ellipse_between(start, end), width, color, false)),
            Tool::Arrow => Some(
                styled(
                    Shape::Polyline { points: arrow_spec(start, end, width), closed: true },
                    width,
                    color,
                    true,
                ),
            ),
            Tool::Line => Some(styled(Shape::Line { start, end }, width, color, false)),
            Tool::Pencil => {
                let points = traced(self.tracks, helper, origin, self.tracks.len() as int);
                if points.len() == 0 {
                    None
                } else {
                    Some(styled(Shape::Polyline { points, closed: false }, width, color, false))
                }
            },
            Tool::Number => Some(
                styled(
                    Shape::Marker {
                        center: start,
                        radius: marker_radius(width) as i64,
                        label_index: self.number,
                    },
                    width,
                    color,
                    true,
                ),
            ),
            _ => None,
        }
    }

    /// The tool is one that drags a shape from a start to an end.
    pub open spec fn drags(self) -> bool {
        self.tool == Tool::Rectangle || self.tool == Tool::Circle || self.tool == Tool::Line
            || self.tool == Tool::Arrow
    }

    /// The state once the start of a drag has been noted.
    pub open spec fn pressed(self, ev: PointerEvent) -> ToolState {
        if ev.drag_started && ev.press_origin.is_some() {
            ToolState { start_pos: ev.press_origin, ..self }
        } else {
            self
        }
    }

    /// The track of a freehand stroke once the frame's movement has been
    /// added to it.
    pub open spec fn followed(self, ev: PointerEvent) -> Seq<Option<Point>> {
        let begun = if ev.drag_started && ev.press_origin.is_some() {
            self.tracks.push(ev.press_origin)
        } else {
            self.tracks
        };
        if ev.dragged {
            begun.push(ev.pointer_pos)
        } else {
            begun
        }
    }

    /// Whether the event completes a numbered marker.
    pub open spec fn numbers(self, ev: PointerEvent) -> bool {
        ev.clicked && ev.pointer_pos.is_some() && self.number < u32::MAX
    }

    /// The operator that the event completes, if it completes one.
    pub open spec fn produced(self, helper: AppHelper, ev: PointerEvent) -> Option<OperatorView> {
        if self.drags() {
            let s = self.pressed(ev);
            if ev.drag_stopped && s.start_pos.is_some() && ev.pointer_pos.is_some() {
                s.operator(helper, ev.pointer_pos)
            } else {
                None
            }
        } else if self.tool == Tool::Pencil {
            if ev.drag_stopped {
                (ToolState { tracks: self.followed(ev).push(ev.pointer_pos), ..self }).operator(
                    helper,
                    self.end_pos,
                )
            } else {
                None
            }
        } else if self.tool == Tool::Number {
            if self.numbers(ev) {
                (ToolState { start_pos: ev.pointer_pos, ..self }).operator(helper, None)
            } else {
                None
            }
        } else {
            None
        }
    }

    /// The state after the event.
    pub open spec fn after(self, helper: AppHelper, ev: PointerEvent) -> ToolState {
        if self.drags() {
            let s = self.pressed(ev);
            if ev.drag_stopped {
                if s.start_pos.is_some() && ev.pointer_pos.is_some() {
                    ToolState { start_pos: None, end_pos: None, ..s }
                } else {
                    ToolState { end_pos: ev.pointer_pos, ..s }
                }
            } else {
                s
            }
        } else if self.tool == Tool::Pencil {
            if ev.drag_stopped {
                ToolState { tracks: Seq::empty(), ..self }
            } else {
                ToolState { tracks: self.followed(ev), ..self }
            }
        } else if self.tool == Tool::Number {
            if self.numbers(ev) {
                ToolState { start_pos: None, number: (self.number + 1) as u32, ..self }
            } else {
                self
            }
        } else if self.tool == Tool::Text {
            if self.text_editing.is_none() && ev.clicked && ev.pointer_pos.is_some() {
                ToolState {
                    text_editing: Some((helper.to_image(ev.pointer_pos.unwrap()), Seq::empty())),
                    ..self
                }
            } else {
                self
            }
        } else {
            self
        }
    }

    /// The operator to show while the gesture is in progress.
    pub open spec fn preview(self, helper: AppHelper, ev: PointerEvent) -> Option<OperatorView> {
        if self.drags() {
            if self.start_pos.is_some() && ev.pointer_pos.is_some() {
                self.operator(helper, ev.pointer_pos)
            } else {
                None
            }
        } else if self.tool == Tool::Pencil {
            if ev.pointer_pos.is_some() {
                self.operator(helper, ev.pointer_pos)
            } else {
                None
            }
        } else if self.tool == Tool::Number {
            if self.start_pos.is_some() {
                self.operator(helper, None)
            } else {
                None
            }
        } else {
            None
        }
    }

    /// The text operator that finishing the entry yields: none without an
    /// entry, and none for an empty one.
    pub open spec fn text_operator(self) -> Option<OperatorView> {
        match self.text_editing {
            Some(t) => if t.1.len() > 0 {
                Some(
                    styled(
                        Shape::Text { position: point_at(t.0.x as int, t.0.y as int), content: t.1 },
                        self.stroke_width,
                        self.color,
                        false,
                    ),
                )
            } else {
                None
            },
            None => None,
        }
    }
}

impl ToolInfo {
    /// The select tool with the default stroke, in `color`, and no gesture
    /// in progress.
    pub fn new(color: Rgba) -> (t: ToolInfo)
        ensures
            t@ == (ToolState {
                tool: Tool::Select,
                stroke_width: StrokeWidth::THREE,
                color,
                start_pos: None,
                end_pos: None,
                tracks: Seq::empty(),
                number: 0,
                text_editing: None,
            }),
    {
        ToolInfo {
            tool: Tool::Select,
            stroke_width: StrokeWidth::THREE,
            color,
            start_pos: None,
            end_pos: None,
            tracks: Vec::new(),
            number: 0,
            text_editing: None,
        }
    }

    fn traced_points(&self, helper: &AppHelper, origin: Point) -> (points: Vec<Point>)
        requires
            helper.wf(),
        ensures
            points@ == traced(self.tracks@, *helper, origin, self.tracks@.len() as int),
            all_wf(points@),
    {
        let mut points: Vec<Point> = Vec::new();
        let mut k: usize = 0;
        while k < self.tracks.len()
            invariant
                k <= self.tracks@.len(),
                helper.wf(),
                points@ == traced(self.tracks@, *helper, origin, k as int),
                all_wf(points@),
            decreases self.tracks@.len() - k,
        {
            match self.tracks[k] {
                Some(p) => {
                    let q: Point = helper.screen_to_image(p, Some(Rect { min: origin, max: origin }));
                    points.push(q);
                },
                None => {},
            }
            k += 1;
        }
        points
    }

    /// The operator that the gesture yields if it ends at `end_pos`.
    pub fn get_operator(&self, helper: &AppHelper, end_pos: Option<Point>) -> (r: Option<Operator>)
        requires
            helper.wf(),
        ensures
            view_of(r) == self@.operator(*helper, end_pos),
            r.is_some() ==> r.unwrap().wf(),
    {
        let image_rect: Option<Rect> = Some(helper.get_image_rect());
        let origin: Point = helper.image_rect_min;
        let zero: Point = Point { x: 0, y: 0 };
        let from: Point = match self.start_pos {
            Some(p) => p,
            None => zero,
        };
        let to: Point = match end_pos {
            Some(p) => p,
            None => zero,
        };
        let start: Point = helper.screen_to_image(from, image_rect);
        let end: Point = helper.screen_to_image(to, image_rect);
        let width: StrokeWidth = self.stroke_width;
        let color: Rgba = self.color;
        match self.tool {
            Tool::Rectangle => Some(with_style(rectangle_tool(start, end), width, color, false)),
            Tool::Circle => Some(with_style(ellipse_tool(start, end), width, color, false)),
            Tool::Arrow => {
                let points: Vec<Point> = arrow_points(start, end, width);
                Some(with_style(ToolType::Polyline { points, closed: true }, width, color, true))
            },
            Tool::Line => Some(with_style(ToolType::Line { start, end }, width, color, false)),
            Tool::Pencil => {
                let points: Vec<Point> = self.traced_points(helper, origin);
                if points.len() == 0 {
                    None
                } else {
                    Some(
                        with_style(ToolType::Polyline { points, closed: false }, width, color, false),
                    )
                }
            },
            Tool::Number => {
                let radius: i64 = 10 * UNIT + 5 * width.value();
                Some(
                    with_style(
                        ToolType::Marker { center: start, radius, label_index: self.number },
                        width,
                        color,
                        true,
                    ),
                )
            },
            _ => None,
        }
    }

    /// Takes in one frame's pointer input: notes where a gesture starts,
    /// follows it, and hands out the operator when it completes.
    pub fn input_event(&mut self, helper: &AppHelper, ev: &PointerEvent) -> (r: Option<Operator>)
        requires
            helper.wf(),
        ensures
            final(self)@ == old(self)@.after(*helper, *ev),
            view_of(r) == old(self)@.produced(*helper, *ev),
            r.is_some() ==> r.unwrap().wf(),
    {
        match self.tool {
            Tool::Rectangle | Tool::Circle | Tool::Line | Tool::Arrow => {
                if ev.drag_started {
                    match ev.press_origin {
                        Some(origin) => {
                            self.start_pos = Some(origin);
                        },
                        None => {},
                    }
                }
                if ev.drag_stopped {
                    self.end_pos = ev.pointer_pos;
                    if self.start_pos.is_some() && self.end_pos.is_some() {
                        let opt: Option<Operator> = self.get_operator(helper, self.end_pos);
                        self.start_pos = None;
                        self.end_pos = None;
                        return opt;
                    }
                }
                None
            },
            Tool::Pencil => {
                if ev.drag_started {
                    match ev.press_origin {
                        Some(origin) => {
                            self.tracks.push(Some(origin));
                        },
                        None => {},
                    }
                }
                if ev.dragged {
                    self.tracks.push(ev.pointer_pos);
                }
                if ev.drag_stopped {
                    self.tracks.push(ev.pointer_pos);
                    let opt: Option<Operator> = self.get_operator(helper, self.end_pos);
                    self.tracks.clear();
                    assert(self@ =~= old(self)@.after(*helper, *ev));
                    return opt;
                }
                assert(self@ =~= old(self)@.after(*helper, *ev));
                None
            },
            Tool::Number => {
                if ev.clicked && self.number < u32::MAX {
                    match ev.pointer_pos {
                        Some(point) => {
                            self.start_pos = Some(point);
                            let opt: Option<Operator> = self.get_operator(helper, None);
                            self.start_pos = None;
                            self.number = self.number + 1;
                            return opt;
                        },
                        None => {},
                    }
                }
                None
            },
            Tool::Text => {
                if self.text_editing.is_none() && ev.clicked {
                    match ev.pointer_pos {
                        Some(point) => {
                            let pos: Point = helper.screen_to_image(point, None);
                            self.text_editing = Some(TextEditState { pos, content: String::new() });
                            assert(self@ =~= old(self)@.after(*helper, *ev));
                        },
                        None => {},
                    }
                }
                None
            },
            _ => None,
        }
    }

    /// The operator to show while the gesture is in progress: what the
    /// gesture would yield if it ended where the pointer is.
    pub fn input_event_process(&self, helper: &AppHelper, ev: &PointerEvent) -> (r: Option<Operator>)
        requires
            helper.wf(),
        ensures
            view_of(r) == self@.preview(*helper, *ev),
            r.is_some() ==> r.unwrap().wf(),
    {
        match self.tool {
            Tool::Rectangle | Tool::Circle | Tool::Line | Tool::Arrow => {
                if self.start_pos.is_some() && ev.pointer_pos.is_some() {
                    self.get_operator(helper, ev.pointer_pos)
                } else {
                    None
                }
            },
            Tool::Pencil => {
                if ev.pointer_pos.is_some() {
                    self.get_operator(helper, ev.pointer_pos)
                } else {
                    None
                }
            },
            Tool::Number => {
                if self.start_pos.is_some() {
                    self.get_operator(helper, None)
                } else {
                    None
                }
            },
            _ => None,
        }
    }

    /// Selects a tool.  A text entry that is pending and a gesture that is
    /// in progress are discarded.
    pub fn select_tool(&mut self, tool: Tool)
        ensures
            final(self)@ == (ToolState {
                tool,
                start_pos: None,
                end_pos: None,
                tracks: Seq::empty(),
                text_editing: None,
                ..old(self)@
            }),
    {
        self.tool = tool;
        self.start_pos = None;
        self.end_pos = None;
        self.tracks.clear();
        self.text_editing = None;
        assert(self@ =~= (ToolState {
            tool,
            start_pos: None,
            end_pos: None,
            tracks: Seq::empty(),
            text_editing: None,
            ..old(self)@
        }));
    }

    /// Replaces what has been typed so far.  Without a pending entry
    /// nothing changes.
    pub fn set_text(&mut self, content: String)
        ensures
            final(self)@ == (ToolState {
                text_editing: match old(self)@.text_editing {
                    Some(t) => Some((t.0, content@)),
                    None => None,
                },
                ..old(self)@
            }),
    {
        let pos: Option<Point> = match &self.text_editing {
            Some(t) => Some(t.pos),
            None => None,
        };
        match pos {
            Some(p) => {
                self.text_editing = Some(TextEditState { pos: p, content });
            },
            None => {},
        }
    }

    /// Abandons the pending text entry.
    pub fn cancel_text(&mut self)
        ensures
            final(self)@ == (ToolState { text_editing: None, ..old(self)@ }),
    {
        self.text_editing = None;
    }

    /// Finishes the pending text entry and hands out its operator: none
    /// without an entry, and none for an empty one.
    pub fn commit_text(&mut self) -> (r: Option<Operator>)
        ensures
            final(self)@ == (ToolState { text_editing: None, ..old(self)@ }),
            view_of(r) == old(self)@.text_operator(),
            r.is_some() ==> r.unwrap().wf(),
    {
        let mut pending: Option<TextEditState> = None;
        core::mem::swap(&mut self.text_editing, &mut pending);
        match pending {
            Some(t) => {
                if t.content.as_str().unicode_len() > 0 {
                    let position: Point = Point::new(t.pos.x, t.pos.y);
                    Some(
                        with_style(
                            ToolType::Text { position, content: t.content },
                            self.stroke_width,
                            self.color,
                            false,
                        ),
                    )
                } else {
                    None
                }
            },
            None => None,
        }
    }
}

/// An arrow without length has no outline.
pub proof fn lemma_arrow_without_length(start: Point, stroke: StrokeWidth)
    ensures
        arrow_spec(start, start, stroke) == Seq::<Point>::empty(),
{
}

/// What is shown while a shape is dragged is what letting go would commit:
/// for the tools that drag a shape from a start to an end, the operator
/// shown with the pointer at a point is the operator that a release at that
/// point yields.
pub proof fn lemma_preview_is_what_commit_makes(
    s: ToolState,
    helper: AppHelper,
    shown: PointerEvent,
    released: PointerEvent,
)
    requires
        s.drags(),
        s.start_pos.is_some(),
        shown.pointer_pos.is_some(),
        released.pointer_pos == shown.pointer_pos,
        released.drag_stopped,
        !released.drag_started,
    ensures
        s.preview(helper, shown) == s.produced(helper, released),
{
}

/// A length laid along a component is right to half a unit: `len` times
/// it differs from the exact numerator by at most half of `len`.
pub proof fn lemma_along_is_nearest(d: int, k: int, len: int)
    requires
        len > 0,
    ensures
        -len <= 2 * ((d * k) * LENGTH_SCALE) - 2 * (len * along(d, k, len)) < len,
{
    let n = 2 * ((d * k) * LENGTH_SCALE) + len;
    lemma_floor_bounds(n, 2 * len);
    let q = along(d, k, len);
    assert((2 * len) * q == 2 * (len * q)) by (nonlinear_arith);
}

/// A whole vector `(gx, gy)` that differs from the vector of length `k`
/// along `(ex, ey)` by at most `r` halves of a unit in each coordinate is
/// `k` long to within `r` units.  `len` is the scaled length of `(ex, ey)`.
pub proof fn lemma_rounded_length(ex: int, ey: int, k: int, len: int, gx: int, gy: int, r: int)
    requires
        len == scaled_length(ex, ey),
        ex != 0 || ey != 0,
        0 <= k,
        4 * k <= len,
        r >= 1,
        -(r * len) <= 2 * ((ex * k) * LENGTH_SCALE) - 2 * (len * gx) <= r * len,
        -(r * len) <= 2 * ((ey * k) * LENGTH_SCALE) - 2 * (len * gy) <= r * len,
    ensures
        gx * gx + gy * gy <= (k + r) * (k + r),
        k >= r ==> gx * gx + gy * gy > (k - r) * (k - r),
{
    let s = LENGTH_SCALE as int;
    let len2 = ex * ex + ey * ey;
    assert(len2 > 0) by (nonlinear_arith)
        requires
            len2 == ex * ex + ey * ey,
            ex != 0 || ey != 0,
    ;
    let scaled = len2 * (s * s);
    assert(scaled >= 1) by (nonlinear_arith)
        requires
            scaled == len2 * (s * s),
            len2 > 0,
            s == 1_073_741_824,
    ;
    lemma_sqrt_floor(scaled as nat);
    assert(len * len <= scaled < (len + 1) * (len + 1));
    assert(len > 0) by (nonlinear_arith)
        requires
            scaled >= 1,
            scaled < (len + 1) * (len + 1),
            len >= 0,
    ;
    // The exact vector, the rounded one and their difference, all times
    // four times the scaled length.
    let ux = 4 * ((ex * k) * s);
    let uy = 4 * ((ey * k) * s);
    let vx = 4 * (len * gx);
    let vy = 4 * (len * gy);
    let dx = vx - ux;
    let dy = vy - uy;
    let rl = r * len;
    assert(rl > 0) by (nonlinear_arith)
        requires
            rl == r * len,
            r >= 1,
            len > 0,
    ;
    assert(-2 * rl <= dx <= 2 * rl && -2 * rl <= dy <= 2 * rl);
    assert(dx * dx <= 4 * (rl * rl)) by (nonlinear_arith)
        requires
            -2 * rl <= dx <= 2 * rl,
    ;
    assert(dy * dy <= 4 * (rl * rl)) by (nonlinear_arith)
        requires
            -2 * rl <= dy <= 2 * rl,
    ;
    let b = 3 * rl;
    assert(b * b == 9 * (rl * rl)) by (nonlinear_arith)
        requires
            b == 3 * rl,
    ;
    assert(rl * rl >= 0) by (nonlinear_arith);
    assert(dx * dx + dy * dy <= b * b);
    assert((-dx) * (-dx) + (-dy) * (-dy) == dx * dx + dy * dy) by (nonlinear_arith);
    // The length of the exact vector.
    let u2 = ux * ux + uy * uy;
    assert(u2 == (16 * (k * k)) * scaled) by (nonlinear_arith)
        requires
            u2 == ux * ux + uy * uy,
            ux == 4 * ((ex * k) * s),
            uy == 4 * ((ey * k) * s),
            scaled == (ex * ex + ey * ey) * (s * s),
    ;
    let kk = 16 * (k * k);
    assert(kk >= 0) by (nonlinear_arith)
        requires
            kk == 16 * (k * k),
    ;
    assert(kk * (len * len) <= kk * scaled <= kk * ((len + 1) * (len + 1))) by (nonlinear_arith)
        requires
            kk >= 0,
            len * len <= scaled < (len + 1) * (len + 1),
    ;
    let top = 4 * k * (len + 1);
    let low = 4 * k * len;
    assert(top * top == kk * ((len + 1) * (len + 1))) by (nonlinear_arith)
        requires
            top == 4 * k * (len + 1),
            kk == 16 * (k * k),
    ;
    assert(low * low == kk * (len * len)) by (nonlinear_arith)
        requires
            low == 4 * k * len,
            kk == 16 * (k * k),
    ;
    assert(top >= 0 && low >= 0) by (nonlinear_arith)
        requires
            top == 4 * k * (len + 1),
            low == 4 * k * len,
            k >= 0,
            len > 0,
    ;
    let g2 = gx * gx + gy * gy;
    let v2 = vx * vx + vy * vy;
    assert(v2 == (16 * (len * len)) * g2) by (nonlinear_arith)
        requires
            v2 == vx * vx + vy * vy,
            vx == 4 * (len * gx),
            vy == 4 * (len * gy),
            g2 == gx * gx + gy * gy,
    ;
    let ll = 16 * (len * len);
    assert(ll > 0) by (nonlinear_arith)
        requires
            ll == 16 * (len * len),
            len > 0,
    ;
    // Upwards: the rounded vector is the exact one plus the difference.
    crate::raster::lemma_triangle(ux, uy, dx, dy, top, b);
    assert(ux + dx == vx && uy + dy == vy);
    let most = 4 * len * (k + r);
    assert(0 <= top + b <= most) by (nonlinear_arith)
        requires
            top == 4 * k * (len + 1),
            b == 3 * rl,
            rl == r * len,
            most == 4 * len * (k + r),
            4 * k <= len,
            k >= 0,
            r >= 1,
            len > 0,
    ;
    assert((top + b) * (top + b) <= most * most) by (nonlinear_arith)
        requires
            0 <= top + b <= most,
    ;
    assert(most * most == ll * ((k + r) * (k + r))) by (nonlinear_arith)
        requires
            most == 4 * len * (k + r),
            ll == 16 * (len * len),
    ;
    assert(g2 <= (k + r) * (k + r)) by (nonlinear_arith)
        requires
            ll * g2 <= ll * ((k + r) * (k + r)),
            ll > 0,
    ;
    // Downwards: the exact vector is the rounded one less the difference.
    if k >= r && g2 <= (k - r) * (k - r) {
        let least = 4 * len * (k - r);
        assert(least >= 0) by (nonlinear_arith)
            requires
                least == 4 * len * (k - r),
                k >= r,
                len > 0,
        ;
        assert(least * least == ll * ((k - r) * (k - r))) by (nonlinear_arith)
            requires
                least == 4 * len * (k - r),
                ll == 16 * (len * len),
        ;
        assert(ll * g2 <= ll * ((k - r) * (k - r))) by (nonlinear_arith)
            requires
                g2 <= (k - r) * (k - r),
                ll > 0,
        ;
        crate::raster::lemma_triangle(vx, vy, -dx, -dy, least, b);
        assert(vx + (-dx) == ux && vy + (-dy) == uy);
        assert(0 <= least + b < low) by (nonlinear_arith)
            requires
                least == 4 * len * (k - r),
                b == 3 * rl,
                rl == r * len,
                low == 4 * k * len,
                k >= r,
                r >= 1,
                len > 0,
        ;
        assert((least + b) * (least + b) < low * low) by (nonlinear_arith)
            requires
                0 <= least + b < low,
        ;
        assert(false);
    }
}

/// The vector of length `k` along `(ex, ey)`, rounded to whole units, is
/// `k` long to within a unit.  `len` is the scaled length of `(ex, ey)`.
pub proof fn lemma_laid_length(ex: int, ey: int, k: int, len: int)
    requires
        len == scaled_length(ex, ey),
        ex != 0 || ey != 0,
        0 <= k,
        4 * k <= len,
    ensures
        ({
            let gx = along(ex, k, len);
            let gy = along(ey, k, len);
            &&& gx * gx + gy * gy <= (k + 1) * (k + 1)
            &&& k >= 1 ==> gx * gx + gy * gy > (k - 1) * (k - 1)
        }),
{
    lemma_component_within_length(ex, ey, len);
    lemma_along_is_nearest(ex, k, len);
    lemma_along_is_nearest(ey, k, len);
    assert(1 * len == len);
    lemma_rounded_length(ex, ey, k, len, along(ex, k, len), along(ey, k, len), 1);
}

/// Two sides laid `across` apart have their mean within half a unit of the
/// centre: their sum, times `len`, differs from `twice` by at most `len`.
pub proof fn lemma_sides_centred(twice: int, across: int, len: int)
    requires
        len > 0,
    ensures
        twice - len < (2 * lower_side(twice, across, len) + across) * len <= twice + len,
{
    let low = lower_side(twice, across, len);
    let n = twice + (1 - across) * len;
    lemma_floor_bounds(n, 2 * len);
    assert((2 * low + across) * len == (2 * len) * low + across * len) by (nonlinear_arith);
    assert((1 - across) * len == len - across * len) by (nonlinear_arith);
}

/// A whole vector `(gx, gy)` that differs from the vector of length `k`
/// along `(ex, ey)` by at most `r` halves of a unit in each coordinate
/// points the way of `(ex, ey)`: what of it stands across that direction
/// is less than `r` units long.
pub proof fn lemma_rounded_direction(ex: int, ey: int, k: int, len: int, gx: int, gy: int, r: int)
    requires
        len > 0,
        r >= 1,
        -(r * len) <= 2 * ((ex * k) * LENGTH_SCALE) - 2 * (len * gx) <= r * len,
        -(r * len) <= 2 * ((ey * k) * LENGTH_SCALE) - 2 * (len * gy) <= r * len,
    ensures
        2 * ((gx * ey - gy * ex) * (gx * ey - gy * ex)) <= (r * r) * (ex * ex + ey * ey),
{
    let s = LENGTH_SCALE as int;
    let c = k * s;
    let t1 = (ex * k) * s;
    let t2 = (ey * k) * s;
    let rl = r * len;
    let a = 2 * (len * gx) - 2 * t1;
    let b = 2 * (len * gy) - 2 * t2;
    assert(-rl <= a <= rl && -rl <= b <= rl);
    assert(t1 == ex * c) by (nonlinear_arith)
        requires
            t1 == (ex * k) * s,
            c == k * s,
    ;
    assert(t2 == ey * c) by (nonlinear_arith)
        requires
            t2 == (ey * k) * s,
            c == k * s,
    ;
    assert(t1 * ey - t2 * ex == 0) by (nonlinear_arith)
        requires
            t1 == ex * c,
            t2 == ey * c,
    ;
    let m = gx * ey - gy * ex;
    let p1 = len * gx;
    let p2 = len * gy;
    assert(p1 * ey - p2 * ex == len * m) by (nonlinear_arith)
        requires
            p1 == len * gx,
            p2 == len * gy,
            m == gx * ey - gy * ex,
    ;
    assert(a * ey - b * ex == 2 * (p1 * ey - p2 * ex) - 2 * (t1 * ey - t2 * ex))
        by (nonlinear_arith)
        requires
            a == 2 * p1 - 2 * t1,
            b == 2 * p2 - 2 * t2,
    ;
    assert((2 * len) * m == 2 * (len * m)) by (nonlinear_arith);
    let x = a * ey;
    let y = b * ex;
    assert((2 * len) * m == x - y);
    assert((x - y) * (x - y) <= 2 * (x * x) + 2 * (y * y)) by (nonlinear_arith);
    assert(x * x <= (rl * rl) * (ey * ey)) by (nonlinear_arith)
        requires
            x == a * ey,
            -rl <= a <= rl,
    ;
    assert(y * y <= (rl * rl) * (ex * ex)) by (nonlinear_arith)
        requires
            y == b * ex,
            -rl <= b <= rl,
    ;
    let ll = len * len;
    let mm = m * m;
    let rr = r * r;
    assert(((2 * len) * m) * ((2 * len) * m) == 4 * (ll * mm)) by (nonlinear_arith)
        requires
            ll == len * len,
            mm == m * m,
    ;
    assert(rl * rl == ll * rr) by (nonlinear_arith)
        requires
            rl == r * len,
            ll == len * len,
            rr == r * r,
    ;
    let e2 = ex * ex + ey * ey;
    assert(2 * ((ll * rr) * (ey * ey)) + 2 * ((ll * rr) * (ex * ex)) == 2 * (ll * (rr * e2)))
        by (nonlinear_arith)
        requires
            e2 == ex * ex + ey * ey,
    ;
    assert(ll > 0) by (nonlinear_arith)
        requires
            ll == len * len,
            len > 0,
    ;
    assert(2 * mm <= rr * e2) by (nonlinear_arith)
        requires
            4 * (ll * mm) <= 2 * (ll * (rr * e2)),
            ll > 0,
    ;
}

/// A component of a vector, scaled, is at most the scaled length of the
/// vector.
pub proof fn lemma_component_within_length(ex: int, ey: int, len: int)
    requires
        len == scaled_length(ex, ey),
    ensures
        len >= 0,
        -len <= ex * LENGTH_SCALE <= len,
        -len <= ey * LENGTH_SCALE <= len,
        (ex != 0 || ey != 0) ==> len >= LENGTH_SCALE,
{
    let s = LENGTH_SCALE as int;
    let len2 = ex * ex + ey * ey;
    assert(len2 >= 0 && ex * ex >= 0 && ey * ey >= 0) by (nonlinear_arith)
        requires
            len2 == ex * ex + ey * ey,
    ;
    let scaled = len2 * (s * s);
    assert(scaled >= 0) by (nonlinear_arith)
        requires
            scaled == len2 * (s * s),
            len2 >= 0,
    ;
    lemma_sqrt_floor(scaled as nat);
    let a = ex * s;
    let b = ey * s;
    assert(a * a + b * b == scaled) by (nonlinear_arith)
        requires
            a == ex * s,
            b == ey * s,
            scaled == (ex * ex + ey * ey) * (s * s),
    ;
    assert(a * a >= 0 && b * b >= 0) by (nonlinear_arith);
    assert(-len <= a <= len) by (nonlinear_arith)
        requires
            a * a < (len + 1) * (len + 1),
            len >= 0,
    ;
    assert(-len <= b <= len) by (nonlinear_arith)
        requires
            b * b < (len + 1) * (len + 1),
            len >= 0,
    ;
    if ex != 0 || ey != 0 {
        assert(len2 >= 1) by (nonlinear_arith)
            requires
                len2 == ex * ex + ey * ey,
                ex != 0 || ey != 0,
        ;
        assert(scaled >= s * s) by (nonlinear_arith)
            requires
                scaled == len2 * (s * s),
                len2 >= 1,
        ;
        assert(len >= s) by (nonlinear_arith)
            requires
                s * s <= scaled,
                scaled < (len + 1) * (len + 1),
                len >= 0,
                s > 0,
        ;
    }
}

/// The lower of two sides lies near the point that its centre lies behind:
/// no further than the reach, half of what lies across, and a unit.
proof fn lemma_side_near(tip: int, d: int, other: int, reach: int, across: int, len: int)
    requires
        len == scaled_length(d, other) || len == scaled_length(other, d),
        d != 0 || other != 0,
        reach >= 0,
    ensures
        ({
            let low = lower_side(twice_behind(tip, d, reach, len), across, len);
            2 * tip - 2 * reach - 1 < 2 * low + across <= 2 * tip + 2 * reach + 1
        }),
{
    let s = LENGTH_SCALE as int;
    if len == scaled_length(d, other) {
        lemma_component_within_length(d, other, len);
    } else {
        lemma_component_within_length(other, d, len);
    }
    let twice = twice_behind(tip, d, reach, len);
    let low = lower_side(twice, across, len);
    lemma_sides_centred(twice, across, len);
    let ds = d * s;
    assert((d * reach) * s == reach * ds) by (nonlinear_arith)
        requires
            ds == d * s,
    ;
    assert(-(reach * len) <= reach * ds <= reach * len) by (nonlinear_arith)
        requires
            -len <= ds <= len,
            reach >= 0,
    ;
    let sum = 2 * low + across;
    assert(sum * len <= (2 * tip + 2 * reach + 1) * len) by (nonlinear_arith)
        requires
            sum * len <= twice + len,
            twice == 2 * (tip * len) - 2 * (reach * ds),
            -(reach * len) <= reach * ds,
    ;
    assert(sum * len > (2 * tip - 2 * reach - 1) * len) by (nonlinear_arith)
        requires
            sum * len > twice - len,
            twice == 2 * (tip * len) - 2 * (reach * ds),
            reach * ds <= reach * len,
    ;
    assert(sum <= 2 * tip + 2 * reach + 1) by (nonlinear_arith)
        requires
            sum * len <= (2 * tip + 2 * reach + 1) * len,
            len > 0,
    ;
    assert(sum > 2 * tip - 2 * reach - 1) by (nonlinear_arith)
        requires
            sum * len > (2 * tip - 2 * reach - 1) * len,
            len > 0,
    ;
}

/// How far the ends of an arrow have to keep from the edge of the
/// coordinate range for no point of its outline to be confined to it.
pub const ARROW_MARGIN: i64 = 1_048_576;

/// Both ends of the arrow keep `ARROW_MARGIN` from the edge of the
/// coordinate range.
pub open spec fn arrow_in_range(start: Point, end: Point) -> bool {
    let most = COORD_MAX - ARROW_MARGIN;
    &&& -most <= start.x <= most
    &&& -most <= start.y <= most
    &&& -most <= end.x <= most
    &&& -most <= end.y <= most
}

/// The vector `(vx, vy)` is `k` long to within `r` units.
pub open spec fn long_as(vx: int, vy: int, k: int, r: int) -> bool {
    &&& vx * vx + vy * vy <= (k + r) * (k + r)
    &&& k >= r ==> vx * vx + vy * vy > (k - r) * (k - r)
}

/// What of the vector `(vx, vy)` lies along `(dx, dy)` is less than a unit
/// long: the one stands at a right angle to the other.
pub open spec fn square_to(vx: int, vy: int, dx: int, dy: int) -> bool {
    2 * ((vx * dx + vy * dy) * (vx * dx + vy * dy)) <= dx * dx + dy * dy
}

/// What of the vector `(vx, vy)` lies across `(dx, dy)` is less than two
/// units long: the one points the way of the other.
pub open spec fn in_line_with(vx: int, vy: int, dx: int, dy: int) -> bool {
    (vx * dy - vy * dx) * (vx * dy - vy * dx) <= 2 * (dx * dx + dy * dy)
}

/// Two sides of an arrow lie where they should.  They are not confined to
/// the coordinate range; they lie `k` apart to within a unit, at a right
/// angle to the arrow; and twice the way from their middle to the tip is
/// twice `reach` long to within two units, in line with the arrow.
pub proof fn lemma_sides_measure(tip: Point, dx: int, dy: int, reach: int, k: int, len: int)
    requires
        len == scaled_length(dx, dy),
        dx != 0 || dy != 0,
        -(COORD_MAX - ARROW_MARGIN) <= tip.x <= COORD_MAX - ARROW_MARGIN,
        -(COORD_MAX - ARROW_MARGIN) <= tip.y <= COORD_MAX - ARROW_MARGIN,
        0 <= reach <= 600_000,
        0 <= k <= 400_000,
    ensures
        ({
            let sides = sides_behind(tip, dx, dy, reach, k, len);
            let cx = 2 * tip.x - (2 * sides.low_x + sides.across_x);
            let cy = 2 * tip.y - (2 * sides.low_y + sides.across_y);
            &&& sides.upper().x == sides.low_x + sides.across_x
            &&& sides.upper().y == sides.low_y + sides.across_y
            &&& sides.lower().x == sides.low_x
            &&& sides.lower().y == sides.low_y
            &&& long_as(sides.across_x, sides.across_y, k, 1)
            &&& square_to(sides.across_x, sides.across_y, dx, dy)
            &&& long_as(cx, cy, 2 * reach, 2)
            &&& in_line_with(cx, cy, dx, dy)
            &&& reach == 0 ==> 0 <= -cx <= 1 && 0 <= -cy <= 1
        }),
{
    let sides = sides_behind(tip, dx, dy, reach, k, len);
    lemma_component_within_length(dx, dy, len);
    assert(len == scaled_length(-dy, dx)) by {
        assert((-dy) * (-dy) + dx * dx == dx * dx + dy * dy) by (nonlinear_arith);
    }
    let fx = sides.across_x;
    let fy = sides.across_y;
    lemma_laid_length(-dy, dx, k, len);
    lemma_along_is_nearest(-dy, k, len);
    lemma_along_is_nearest(dx, k, len);
    assert(1 * len == len);
    lemma_rounded_direction(-dy, dx, k, len, fx, fy, 1);
    let m0 = fx * dx - fy * (-dy);
    let m = fx * dx + fy * dy;
    assert(m0 == m) by (nonlinear_arith)
        requires
            m0 == fx * dx - fy * (-dy),
            m == fx * dx + fy * dy,
    ;
    assert(m0 * m0 == m * m);
    let e2 = (-dy) * (-dy) + dx * dx;
    assert(e2 == dx * dx + dy * dy) by (nonlinear_arith)
        requires
            e2 == (-dy) * (-dy) + dx * dx,
    ;
    assert((1 * 1) * e2 == e2);
    assert(2 * (m * m) <= dx * dx + dy * dy);
    lemma_within(fx, fy, k + 1);
    lemma_side_near(tip.x as int, dx, dy, reach, fx, len);
    lemma_side_near(tip.y as int, dy, dx, reach, fy, len);
    lemma_base_behind(tip.x as int, tip.y as int, dx, dy, reach, fx, fy, len);
    if reach == 0 {
        lemma_sides_centred(twice_behind(tip.x as int, dx, 0, len), fx, len);
        lemma_sides_centred(twice_behind(tip.y as int, dy, 0, len), fy, len);
        lemma_start_is_middle(tip.x as int, dx, fx, len);
        lemma_start_is_middle(tip.y as int, dy, fy, len);
    }
}

/// The measures of an arrow, whatever its length.  Its two sides at the
/// base of the head lie five stroke widths apart, those of the shaft one
/// stroke width, each to within a unit and at a right angle to the arrow.
/// The middle of the base of the head, and the middle of the shaft where it
/// meets the head, lie eight stroke widths behind the tip, to within a
/// unit, in line with the arrow.  The middle of the shaft's end is the
/// start, to within half a unit.
pub proof fn lemma_arrow_measures(start: Point, end: Point, stroke: StrokeWidth)
    requires
        start != end,
        arrow_in_range(start, end),
    ensures
        ({
            let p = arrow_spec(start, end, stroke);
            let w = stroke.units();
            let dx = end.x - start.x;
            let dy = end.y - start.y;
            &&& p.len() == 7
            &&& p[0] == end
            &&& long_as(p[1].x - p[6].x, p[1].y - p[6].y, 5 * w, 1)
            &&& long_as(p[2].x - p[5].x, p[2].y - p[5].y, w, 1)
            &&& p[3].x - p[4].x == p[2].x - p[5].x
            &&& p[3].y - p[4].y == p[2].y - p[5].y
            &&& square_to(p[1].x - p[6].x, p[1].y - p[6].y, dx, dy)
            &&& square_to(p[2].x - p[5].x, p[2].y - p[5].y, dx, dy)
            &&& long_as(2 * end.x - (p[1].x + p[6].x), 2 * end.y - (p[1].y + p[6].y), 16 * w, 2)
            &&& long_as(2 * end.x - (p[2].x + p[5].x), 2 * end.y - (p[2].y + p[5].y), 16 * w, 2)
            &&& in_line_with(
                2 * end.x - (p[1].x + p[6].x),
                2 * end.y - (p[1].y + p[6].y),
                dx,
                dy,
            )
            &&& in_line_with(
                2 * end.x - (p[2].x + p[5].x),
                2 * end.y - (p[2].y + p[5].y),
                dx,
                dy,
            )
            &&& 0 <= p[3].x + p[4].x - 2 * start.x <= 1
            &&& 0 <= p[3].y + p[4].y - 2 * start.y <= 1
        }),
{
    let w = stroke.units();
    let dx = end.x - start.x;
    let dy = end.y - start.y;
    let len = scaled_length(dx, dy);
    lemma_sides_measure(end, dx, dy, 8 * w, 5 * w, len);
    lemma_sides_measure(end, dx, dy, 8 * w, w, len);
    lemma_sides_measure(start, dx, dy, 0, w, len);
}

/// Each coordinate of a vector is at most as long as the vector.
proof fn lemma_within(vx: int, vy: int, m: int)
    requires
        m >= 0,
        vx * vx + vy * vy <= m * m,
    ensures
        -m <= vx <= m,
        -m <= vy <= m,
{
    assert(-m <= vx <= m) by (nonlinear_arith)
        requires
            vx * vx + vy * vy <= m * m,
            m >= 0,
    ;
    assert(-m <= vy <= m) by (nonlinear_arith)
        requires
            vx * vx + vy * vy <= m * m,
            m >= 0,
    ;
}

/// The middle of two sides that are centred `reach` behind a tip lies
/// `reach` behind it, to within a unit, in line with the arrow.
proof fn lemma_base_behind(
    tx: int,
    ty: int,
    dx: int,
    dy: int,
    reach: int,
    fx: int,
    fy: int,
    len: int,
)
    requires
        len == scaled_length(dx, dy),
        dx != 0 || dy != 0,
        0 <= reach,
        8 * reach <= len,
    ensures
        ({
            let cx = 2 * tx - (2 * lower_side(twice_behind(tx, dx, reach, len), fx, len) + fx);
            let cy = 2 * ty - (2 * lower_side(twice_behind(ty, dy, reach, len), fy, len) + fy);
            long_as(cx, cy, 2 * reach, 2) && in_line_with(cx, cy, dx, dy)
        }),
{
    let s = LENGTH_SCALE as int;
    lemma_component_within_length(dx, dy, len);
    let twx = twice_behind(tx, dx, reach, len);
    let twy = twice_behind(ty, dy, reach, len);
    let sx = 2 * lower_side(twx, fx, len) + fx;
    let sy = 2 * lower_side(twy, fy, len) + fy;
    lemma_sides_centred(twx, fx, len);
    lemma_sides_centred(twy, fy, len);
    let cx = 2 * tx - sx;
    let cy = 2 * ty - sy;
    assert(len * cx == 2 * (tx * len) - sx * len) by (nonlinear_arith)
        requires
            cx == 2 * tx - sx,
    ;
    assert(len * cy == 2 * (ty * len) - sy * len) by (nonlinear_arith)
        requires
            cy == 2 * ty - sy,
    ;
    assert((dx * (2 * reach)) * s == 2 * ((dx * reach) * s)) by (nonlinear_arith);
    assert((dy * (2 * reach)) * s == 2 * ((dy * reach) * s)) by (nonlinear_arith);
    assert(2 * len == 2 * len);
    lemma_rounded_length(dx, dy, 2 * reach, len, cx, cy, 2);
    lemma_rounded_direction(dx, dy, 2 * reach, len, cx, cy, 2);
    assert((2 * 2) * (dx * dx + dy * dy) == 4 * (dx * dx + dy * dy));
}

/// The middle of the two sides at the end of the shaft is the start, to
/// within half a unit.
proof fn lemma_start_is_middle(tip: int, d: int, across: int, len: int)
    requires
        len > 0,
        twice_behind(tip, d, 0, len) - len < (2 * lower_side(
            twice_behind(tip, d, 0, len),
            across,
            len,
        ) + across) * len <= twice_behind(tip, d, 0, len) + len,
    ensures
        0 <= 2 * lower_side(twice_behind(tip, d, 0, len), across, len) + across - 2 * tip <= 1,
{
    let s = LENGTH_SCALE as int;
    let tw = twice_behind(tip, d, 0, len);
    assert((d * 0) * s == 0) by (nonlinear_arith);
    assert(tw == 2 * (tip * len));
    let sum = 2 * lower_side(tw, across, len) + across;
    assert(sum - 2 * tip <= 1) by (nonlinear_arith)
        requires
            sum * len <= 2 * (tip * len) + len,
            len > 0,
    ;
    assert(sum - 2 * tip >= 0) by (nonlinear_arith)
        requires
            sum * len > 2 * (tip * len) - len,
            len > 0,
    ;
}

} // verus!
