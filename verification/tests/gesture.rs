use annotator::color::Rgba;
use annotator::document::Annotator;
use annotator::fixed::{SCREEN_PER_UNIT, SCREEN_UNIT, UNIT};
use annotator::geometry::Point;
use annotator::operators::{DrawCommand, Operator, ToolType};
use annotator::toolbar::{
    arrow_points, PointerEvent, StrokeWidth, TextEditState, Tool, ToolInfo,
};
use annotator::utils::{AppHelper, DisplayScale, Rect, ZOOM_ONE};

const RED: Rgba = Rgba { r: 255, g: 0, b: 0, a: 255 };

/// A point of image space, in pixels.
fn px(x: i32, y: i32) -> Point {
    Point::from_pixels(x, y)
}

/// A point of screen space, in pixels.
fn sp(x: i32, y: i32) -> Point {
    Point::from_screen_pixels(x, y)
}

/// The point of screen space that lies as many coordinate units from the
/// corner as a point of image space does at scale one.
fn su(x: i64, y: i64) -> Point {
    Point { x: x * SCREEN_PER_UNIT, y: y * SCREEN_PER_UNIT }
}

fn identity() -> AppHelper {
    AppHelper::new(sp(0, 0), sp(640, 480), ZOOM_ONE, DisplayScale::one())
}

fn quiet() -> PointerEvent {
    PointerEvent {
        drag_started: false,
        dragged: false,
        drag_stopped: false,
        clicked: false,
        press_origin: None,
        pointer_pos: None,
    }
}

fn press(at: Point) -> PointerEvent {
    PointerEvent { drag_started: true, press_origin: Some(at), pointer_pos: Some(at), ..quiet() }
}

fn drag(at: Point) -> PointerEvent {
    PointerEvent { dragged: true, pointer_pos: Some(at), ..quiet() }
}

fn release(at: Point) -> PointerEvent {
    PointerEvent { drag_stopped: true, pointer_pos: Some(at), ..quiet() }
}

fn click(at: Point) -> PointerEvent {
    PointerEvent { clicked: true, pointer_pos: Some(at), ..quiet() }
}

fn with_tool(tool: Tool) -> ToolInfo {
    let mut t = ToolInfo::new(RED);
    t.select_tool(tool);
    t
}

#[test]
fn tools_have_icons_and_tooltips() {
    assert_eq!(Tool::Select.tool_icon(), ("bytes://select_icon.svg", "Select"));
    assert_eq!(Tool::Rectangle.tool_icon(), ("bytes://rect_icon.svg", "Rect"));
    assert_eq!(Tool::Circle.tool_icon(), ("bytes://circle_icon.svg", "Circle"));
    assert_eq!(Tool::Arrow.tool_icon(), ("bytes://arrow_icon.svg", "Arrow"));
    assert_eq!(Tool::Line.tool_icon(), ("bytes://line_icon.svg", "Line"));
    assert_eq!(Tool::Pencil.tool_icon(), ("bytes://pencil_icon.svg", "Pencil"));
    assert_eq!(Tool::Number.tool_icon(), ("bytes://number_icon.svg", "Number"));
    assert_eq!(Tool::Emoji.tool_icon(), ("bytes://emoji_icon.svg", "Emoji"));
    assert_eq!(Tool::Text.tool_icon(), ("bytes://text_icon.svg", "Text"));
    assert_eq!(Tool::Masaic.tool_icon(), ("bytes://mosaic_icon.svg", "Mosaic"));
    assert_eq!(Tool::Pin.tool_icon(), ("bytes://pin_icon.svg", "Pin"));
    assert_eq!(Tool::Copy.tool_icon(), ("bytes://copy_icon.svg", "Copy to Clipboard"));
    assert_eq!(Tool::Save.tool_icon(), ("bytes://save_icon.svg", "Save"));
    assert_eq!(Tool::default(), Tool::Select);
}

#[test]
fn stroke_widths_count_coordinate_units() {
    assert_eq!(StrokeWidth::ONE.value(), 1024);
    assert_eq!(StrokeWidth::THREE.value(), 3072);
    assert_eq!(StrokeWidth::FIVE.value(), 5120);
    assert_eq!(StrokeWidth::Custom(1500).value(), 1500);
    assert_eq!(StrokeWidth::default(), StrokeWidth::THREE);
}

#[test]
fn new_tool_info_is_at_rest() {
    let t = ToolInfo::new(RED);
    assert_eq!(t.tool, Tool::Select);
    assert_eq!(t.stroke_width, StrokeWidth::THREE);
    assert_eq!(t.color, RED);
    assert_eq!(t.start_pos, None);
    assert_eq!(t.end_pos, None);
    assert!(t.tracks.is_empty());
    assert_eq!(t.number, 0);
    assert_eq!(t.text_editing, None);
}

#[test]
fn rectangle_commit_is_normalised() {
    let helper = identity();
    let expected = ToolType::Rectangle { min: px(10, 10), max: px(50, 30) };
    let mut a = Annotator::new(RED);
    a.begin_gesture(Tool::Rectangle, sp(10, 10));
    assert!(a.commit_gesture(&helper, sp(50, 30)));
    assert_eq!(a.operators.len(), 1);
    assert_eq!(a.operators[0].geometry, expected);
    assert_eq!(a.operators[0].stroke_width, StrokeWidth::THREE);
    assert_eq!(a.operators[0].stroke_color, RED);
    assert_eq!(a.operators[0].fill_color, None);

    let mut b = Annotator::new(RED);
    b.begin_gesture(Tool::Rectangle, sp(50, 30));
    assert!(b.commit_gesture(&helper, sp(10, 10)));
    assert_eq!(b.operators[0].geometry, expected);

    let mut c = Annotator::new(RED);
    c.begin_gesture(Tool::Rectangle, sp(50, 10));
    assert!(c.commit_gesture(&helper, sp(10, 30)));
    assert_eq!(c.operators[0].geometry, expected);
}

#[test]
fn circle_tool_inscribes_an_ellipse() {
    let helper = identity();
    let mut t = with_tool(Tool::Circle);
    assert_eq!(t.input_event(&helper, &press(sp(10, 20))), None);
    assert_eq!(t.start_pos, Some(sp(10, 20)));
    let op = t.input_event(&helper, &release(sp(50, 10))).unwrap();
    assert_eq!(
        op.geometry,
        ToolType::Ellipse { center: px(30, 15), radius_x: 20 * UNIT, radius_y: 5 * UNIT }
    );
    assert_eq!(op.fill_color, None);
    assert_eq!(t.start_pos, None);
    assert_eq!(t.end_pos, None);

    // halves are rounded down
    t.start_pos = Some(su(0, 0));
    let odd = t.get_operator(&helper, Some(su(-3, 3))).unwrap();
    assert_eq!(
        odd.geometry,
        ToolType::Ellipse { center: Point { x: -2, y: 1 }, radius_x: 1, radius_y: 1 }
    );
}

#[test]
fn circle_tool_allows_an_ellipse_without_size() {
    let helper = identity();
    let mut t = with_tool(Tool::Circle);
    t.input_event(&helper, &press(sp(10, 20)));
    let op = t.input_event(&helper, &release(sp(10, 20))).unwrap();
    assert_eq!(op.geometry, ToolType::Ellipse { center: px(10, 20), radius_x: 0, radius_y: 0 });
    assert!(op.is_valid());
}

#[test]
fn line_tool_keeps_its_ends() {
    let helper = identity();
    let mut t = with_tool(Tool::Line);
    t.input_event(&helper, &press(sp(50, 30)));
    let op = t.input_event(&helper, &release(sp(10, 10))).unwrap();
    assert_eq!(op.geometry, ToolType::Line { start: px(50, 30), end: px(10, 10) });
}

#[test]
fn drag_without_a_start_yields_nothing() {
    let helper = identity();
    let mut t = with_tool(Tool::Line);
    assert_eq!(t.input_event(&helper, &release(sp(10, 10))), None);
    assert_eq!(t.end_pos, Some(sp(10, 10)));
    let mut u = with_tool(Tool::Line);
    u.input_event(&helper, &press(sp(1, 1)));
    let lost = PointerEvent { drag_stopped: true, ..quiet() };
    assert_eq!(u.input_event(&helper, &lost), None);
    assert_eq!(u.start_pos, Some(sp(1, 1)));
    let nowhere = PointerEvent { drag_started: true, ..quiet() };
    let mut v = with_tool(Tool::Line);
    v.input_event(&helper, &nowhere);
    assert_eq!(v.start_pos, None);
}

#[test]
fn arrow_outline_has_seven_points() {
    let points = arrow_points(px(0, 0), px(100, 0), StrokeWidth::ONE);
    // head 8 long and 2.5 to each side, shaft 0.5 to each side
    assert_eq!(
        points,
        vec![
            px(100, 0),
            Point { x: 92 * UNIT, y: 2560 },
            Point { x: 92 * UNIT, y: 512 },
            Point { x: 0, y: 512 },
            Point { x: 0, y: -512 },
            Point { x: 92 * UNIT, y: -512 },
            Point { x: 92 * UNIT, y: -2560 },
        ]
    );
    let down = arrow_points(px(0, 0), px(0, 50), StrokeWidth::Custom(2048));
    assert_eq!(
        down,
        vec![
            px(0, 50),
            Point { x: -5120, y: 34 * UNIT },
            Point { x: -1024, y: 34 * UNIT },
            Point { x: -1024, y: 0 },
            Point { x: 1024, y: 0 },
            Point { x: 1024, y: 34 * UNIT },
            Point { x: 5120, y: 34 * UNIT },
        ]
    );
    // along the diagonal of a 3-4-5 triangle the direction is exact
    let slanted = arrow_points(Point { x: 0, y: 0 }, Point { x: 3000, y: 4000 }, StrokeWidth::Custom(100));
    assert_eq!(slanted[0], Point { x: 3000, y: 4000 });
    assert_eq!(slanted[1], Point { x: 3000 - 480 - 200, y: 4000 - 640 + 150 });
    assert_eq!(slanted[6], Point { x: 3000 - 480 + 200, y: 4000 - 640 - 150 });
    assert_eq!(slanted[3], Point { x: -40, y: 30 });
    assert_eq!(slanted[4], Point { x: 40, y: -30 });
}

#[test]
fn short_arrow_keeps_its_proportions() {
    // along the diagonal, 8192, 5120 and 1024 units over the root of two
    // are 5792.6, 3620.4 and 724.1
    let points = arrow_points(Point { x: 0, y: 0 }, Point { x: 1, y: 1 }, StrokeWidth::ONE);
    assert_eq!(
        points,
        vec![
            Point { x: 1, y: 1 },
            Point { x: -5792 - 1810, y: -5792 + 1810 },
            Point { x: -5792 - 362, y: -5792 + 362 },
            Point { x: -362, y: 362 },
            Point { x: 362, y: -362 },
            Point { x: -5792 + 362, y: -5792 - 362 },
            Point { x: -5792 + 1810, y: -5792 - 1810 },
        ]
    );
}

#[test]
fn arrow_measures_are_right_to_a_unit() {
    let ends = [
        (1i64, 0i64),
        (0, -1),
        (1, 1),
        (2, -1),
        (-3, 7),
        (17, 5),
        (-40, -9),
        (1000, 1),
        (-1, 100_000),
        (123_456, -654_321),
        (1 << 30, (1 << 30) - 1),
    ];
    let widths = [
        StrokeWidth::ONE,
        StrokeWidth::THREE,
        StrokeWidth::FIVE,
        StrokeWidth::Custom(1),
        StrokeWidth::Custom(1025),
        StrokeWidth::Custom(u16::MAX),
    ];
    let start = Point { x: 11, y: -7 };
    for (dx, dy) in ends {
        let end = Point { x: start.x + dx.min((1 << 30) - 11), y: start.y + dy };
        let (dx, dy) = ((end.x - start.x) as f64, (end.y - start.y) as f64);
        let len = (dx * dx + dy * dy).sqrt();
        let (vx, vy) = (dx / len, dy / len);
        for stroke in widths {
            let w = stroke.value() as f64;
            let p = arrow_points(start, end, stroke);
            assert_eq!(p.len(), 7);
            assert_eq!(p[0], end);
            let at = |i: usize| (p[i].x as f64, p[i].y as f64);
            let apart = |i: usize, j: usize| (at(i).0 - at(j).0, at(i).1 - at(j).1);
            let norm = |v: (f64, f64)| (v.0 * v.0 + v.1 * v.1).sqrt();
            let mid = |i: usize, j: usize| ((at(i).0 + at(j).0) / 2.0, (at(i).1 + at(j).1) / 2.0);
            let base = (end.x as f64 - vx * 8.0 * w, end.y as f64 - vy * 8.0 * w);
            let near = |a: (f64, f64), b: (f64, f64)| norm((a.0 - b.0, a.1 - b.1)) <= 1.0;
            assert!((norm(apart(1, 6)) - 5.0 * w).abs() <= 1.0);
            assert!((norm(apart(2, 5)) - w).abs() <= 1.0);
            assert!((norm(apart(3, 4)) - w).abs() <= 1.0);
            assert_eq!(apart(2, 5), apart(3, 4));
            assert!(near(mid(1, 6), base));
            assert!(near(mid(2, 5), base));
            assert!(near(mid(3, 4), (start.x as f64, start.y as f64)));
            // across the arrow: at a right angle to its direction
            let across = apart(1, 6);
            assert!((across.0 * vx + across.1 * vy).abs() <= 1.0);
            let shaft = apart(3, 4);
            assert!((shaft.0 * vx + shaft.1 * vy).abs() <= 1.0);
        }
    }
}

#[test]
fn arrow_tool_makes_a_filled_outline() {
    let helper = identity();
    let mut t = with_tool(Tool::Arrow);
    t.stroke_width = StrokeWidth::ONE;
    t.input_event(&helper, &press(sp(0, 0)));
    let op = t.input_event(&helper, &release(sp(100, 0))).unwrap();
    assert_eq!(
        op.geometry,
        ToolType::Polyline {
            points: arrow_points(px(0, 0), px(100, 0), StrokeWidth::ONE),
            closed: true
        }
    );
    assert_eq!(op.fill_color, Some(RED));

    t.input_event(&helper, &press(sp(5, 5)));
    let none = t.input_event(&helper, &release(sp(5, 5))).unwrap();
    assert_eq!(none.geometry, ToolType::Polyline { points: Vec::new(), closed: true });
}

#[test]
fn pencil_collects_its_track_in_order() {
    let helper = identity();
    let mut t = with_tool(Tool::Pencil);
    assert_eq!(t.input_event(&helper, &press(sp(1, 1))), None);
    assert_eq!(t.input_event(&helper, &drag(sp(2, 3))), None);
    assert_eq!(t.input_event(&helper, &PointerEvent { dragged: true, ..quiet() }), None);
    assert_eq!(t.input_event(&helper, &drag(sp(4, 4))), None);
    assert_eq!(t.tracks, vec![Some(sp(1, 1)), Some(sp(2, 3)), None, Some(sp(4, 4))]);
    let op = t.input_event(&helper, &release(sp(5, 4))).unwrap();
    assert_eq!(
        op.geometry,
        ToolType::Polyline {
            points: vec![px(1, 1), px(2, 3), px(4, 4), px(5, 4)],
            closed: false
        }
    );
    assert_eq!(op.fill_color, None);
    assert!(t.tracks.is_empty());
}

#[test]
fn pencil_without_samples_yields_nothing() {
    let helper = identity();
    let mut t = with_tool(Tool::Pencil);
    assert_eq!(t.get_operator(&helper, Some(sp(3, 3))), None);
    let lost = PointerEvent { drag_stopped: true, ..quiet() };
    assert_eq!(t.input_event(&helper, &lost), None);
    assert!(t.tracks.is_empty());
}

#[test]
fn number_tool_counts_its_markers() {
    let helper = identity();
    let mut t = with_tool(Tool::Number);
    t.stroke_width = StrokeWidth::ONE;
    let first = t.input_event(&helper, &click(sp(30, 40))).unwrap();
    assert_eq!(
        first.geometry,
        ToolType::Marker { center: px(30, 40), radius: 15 * UNIT, label_index: 0 }
    );
    assert_eq!(first.fill_color, Some(RED));
    assert_eq!(t.number, 1);
    assert_eq!(t.start_pos, None);
    t.stroke_width = StrokeWidth::FIVE;
    let second = t.input_event(&helper, &click(sp(1, 2))).unwrap();
    assert_eq!(
        second.geometry,
        ToolType::Marker { center: px(1, 2), radius: 35 * UNIT, label_index: 1 }
    );
    assert_eq!(t.number, 2);
    assert_eq!(t.input_event(&helper, &PointerEvent { clicked: true, ..quiet() }), None);
    assert_eq!(t.input_event(&helper, &release(sp(1, 2))), None);
    assert_eq!(t.number, 2);
}

#[test]
fn number_tool_stops_when_the_count_is_exhausted() {
    let helper = identity();
    let mut t = with_tool(Tool::Number);
    t.number = u32::MAX;
    assert_eq!(t.input_event(&helper, &click(sp(30, 40))), None);
    assert_eq!(t.number, u32::MAX);
}

#[test]
fn tools_without_a_shape_yield_nothing() {
    let helper = identity();
    for tool in [Tool::Select, Tool::Emoji, Tool::Masaic, Tool::Pin, Tool::Copy, Tool::Save, Tool::Text] {
        let mut t = with_tool(tool);
        t.start_pos = Some(sp(1, 1));
        assert_eq!(t.get_operator(&helper, Some(sp(9, 9))), None);
        assert_eq!(t.input_event(&helper, &press(sp(1, 1))), None);
        assert_eq!(t.input_event(&helper, &release(sp(9, 9))), None);
        assert_eq!(t.input_event_process(&helper, &drag(sp(5, 5))), None);
    }
}

#[test]
fn preview_shows_what_a_commit_would_make() {
    let helper = identity();
    let mut t = with_tool(Tool::Rectangle);
    assert_eq!(t.input_event_process(&helper, &drag(sp(5, 5))), None);
    t.input_event(&helper, &press(sp(20, 20)));
    let shown = t.input_event_process(&helper, &drag(sp(5, 30))).unwrap();
    assert_eq!(shown.geometry, ToolType::Rectangle { min: px(5, 20), max: px(20, 30) });
    assert_eq!(t.input_event_process(&helper, &quiet()), None);
    assert_eq!(t.start_pos, Some(sp(20, 20)));
    let made = t.input_event(&helper, &release(sp(5, 30))).unwrap();
    assert_eq!(made, shown);

    let mut p = with_tool(Tool::Pencil);
    p.input_event(&helper, &press(sp(1, 1)));
    p.input_event(&helper, &drag(sp(2, 2)));
    let stroke = p.input_event_process(&helper, &drag(sp(3, 3))).unwrap();
    assert_eq!(stroke.geometry, ToolType::Polyline { points: vec![px(1, 1), px(2, 2)], closed: false });

    let mut n = with_tool(Tool::Number);
    assert_eq!(n.input_event_process(&helper, &drag(sp(3, 3))), None);
    n.start_pos = Some(sp(7, 7));
    let marker = n.input_event_process(&helper, &quiet()).unwrap();
    assert_eq!(
        marker.geometry,
        ToolType::Marker { center: px(7, 7), radius: 25 * UNIT, label_index: 0 }
    );
}

#[test]
fn gestures_are_taken_in_screen_space() {
    // the image's corner at (100, 50) on the screen, shown at twice its size
    let helper = AppHelper::new(sp(100, 50), sp(640, 480), 2 * ZOOM_ONE, DisplayScale::one());
    let mut a = Annotator::new(RED);
    a.begin_gesture(Tool::Line, sp(120, 70));
    assert!(a.commit_gesture(&helper, sp(300, 250)));
    assert_eq!(a.operators[0].geometry, ToolType::Line { start: px(10, 10), end: px(100, 100) });

    // a picture of 4096 pixels is displayed at half its size
    let half = DisplayScale { num: 2048, den: 4096 };
    let scaled = AppHelper::new(sp(0, 0), sp(2048, 1024), ZOOM_ONE, half);
    let mut b = Annotator::new(RED);
    b.begin_gesture(Tool::Rectangle, sp(10, 10));
    assert!(b.commit_gesture(&scaled, sp(50, 30)));
    assert_eq!(b.operators[0].geometry, ToolType::Rectangle { min: px(20, 20), max: px(100, 60) });
}

#[test]
fn text_entry_is_committed_only_with_content() {
    let helper = AppHelper::new(sp(10, 10), sp(640, 480), ZOOM_ONE, DisplayScale::one());
    let mut t = with_tool(Tool::Text);
    assert_eq!(t.input_event(&helper, &click(sp(30, 40))), None);
    assert_eq!(t.text_editing, Some(TextEditState { pos: px(20, 30), content: String::new() }));
    // a second click while the entry is pending changes nothing
    t.input_event(&helper, &click(sp(90, 90)));
    assert_eq!(t.text_editing.as_ref().unwrap().pos, px(20, 30));
    assert_eq!(t.commit_text(), None);
    assert_eq!(t.text_editing, None);

    t.input_event(&helper, &click(sp(30, 40)));
    t.set_text(String::from("hi"));
    assert_eq!(t.text_editing.as_ref().unwrap().content, "hi");
    let op = t.commit_text().unwrap();
    assert_eq!(
        op,
        Operator::new(
            ToolType::Text { position: px(20, 30), content: String::from("hi") },
            StrokeWidth::THREE,
            RED,
            None
        )
    );
    assert_eq!(t.text_editing, None);
    assert_eq!(t.commit_text(), None);
}

#[test]
fn text_entry_is_discarded_by_cancel_and_by_tool_switch() {
    let helper = identity();
    let mut t = with_tool(Tool::Text);
    t.input_event(&helper, &click(sp(30, 40)));
    t.set_text(String::from("draft"));
    t.cancel_text();
    assert_eq!(t.text_editing, None);
    assert_eq!(t.commit_text(), None);

    t.input_event(&helper, &click(sp(30, 40)));
    t.set_text(String::from("draft"));
    t.select_tool(Tool::Line);
    assert_eq!(t.tool, Tool::Line);
    assert_eq!(t.text_editing, None);
    assert_eq!(t.commit_text(), None);

    // without an entry, typed text goes nowhere
    t.set_text(String::from("lost"));
    assert_eq!(t.text_editing, None);
}

#[test]
fn selecting_a_tool_drops_the_gesture_in_progress() {
    let helper = identity();
    let mut t = with_tool(Tool::Pencil);
    t.input_event(&helper, &press(sp(1, 1)));
    t.start_pos = Some(sp(3, 3));
    t.end_pos = Some(sp(4, 4));
    t.number = 5;
    t.stroke_width = StrokeWidth::FIVE;
    t.select_tool(Tool::Rectangle);
    assert_eq!(t.tool, Tool::Rectangle);
    assert!(t.tracks.is_empty());
    assert_eq!(t.start_pos, None);
    assert_eq!(t.end_pos, None);
    assert_eq!(t.number, 5);
    assert_eq!(t.stroke_width, StrokeWidth::FIVE);
    assert_eq!(t.color, RED);
}

#[test]
fn undo_takes_back_the_last_commit() {
    let helper = identity();
    let mut a = Annotator::new(RED);
    assert_eq!(a.undo(), None);
    a.begin_gesture(Tool::Line, sp(1, 1));
    assert!(a.commit_gesture(&helper, sp(9, 9)));
    let before = a.operators.clone();
    let number = a.tool_info.number;

    a.begin_gesture(Tool::Rectangle, sp(10, 10));
    assert!(a.commit_gesture(&helper, sp(50, 30)));
    assert_eq!(a.operators.len(), 2);
    let undone = a.undo().unwrap();
    assert_eq!(undone.geometry, ToolType::Rectangle { min: px(10, 10), max: px(50, 30) });
    assert_eq!(a.operators, before);
    assert_eq!(a.tool_info.number, number);

    a.begin_gesture(Tool::Number, sp(20, 20));
    assert!(a.commit_gesture(&helper, sp(20, 20)));
    assert_eq!(a.tool_info.number, number + 1);
    assert_eq!(a.operators.len(), 2);
    assert!(a.undo().is_some());
    assert_eq!(a.operators, before);
    assert_eq!(a.tool_info.number, number);
}

#[test]
fn marker_count_follows_mixed_undo() {
    let helper = identity();
    let mut a = Annotator::new(RED);
    a.begin_gesture(Tool::Number, sp(5, 5));
    assert!(a.commit_gesture(&helper, sp(5, 5)));
    a.begin_gesture(Tool::Line, sp(1, 1));
    assert!(a.commit_gesture(&helper, sp(9, 9)));
    a.begin_gesture(Tool::Number, sp(6, 6));
    assert!(a.commit_gesture(&helper, sp(6, 6)));
    assert_eq!(a.tool_info.number, 2);
    assert_eq!(
        a.operators[2].geometry,
        ToolType::Marker { center: px(6, 6), radius: 25 * UNIT, label_index: 1 }
    );
    a.undo();
    assert_eq!(a.tool_info.number, 1);
    a.undo();
    assert_eq!(a.tool_info.number, 1);
    a.undo();
    assert_eq!(a.tool_info.number, 0);
    assert_eq!(a.undo(), None);
    assert_eq!(a.tool_info.number, 0);
    assert!(a.operators.is_empty());
}

#[test]
fn gesture_that_yields_nothing_leaves_the_history() {
    let helper = identity();
    let mut a = Annotator::new(RED);
    a.begin_gesture(Tool::Line, sp(1, 1));
    a.commit_gesture(&helper, sp(9, 9));
    a.begin_gesture(Tool::Select, sp(10, 10));
    assert!(!a.commit_gesture(&helper, sp(50, 30)));
    assert_eq!(a.operators.len(), 1);
    assert!(!a.input_event(&helper, &quiet()));
    assert_eq!(a.operators.len(), 1);
}

#[test]
fn update_follows_the_pointer_without_committing() {
    let helper = identity();
    let mut a = Annotator::new(RED);
    a.begin_gesture(Tool::Rectangle, sp(10, 10));
    let shown = a.update_gesture(&helper, sp(30, 5)).unwrap();
    assert_eq!(shown.geometry, ToolType::Rectangle { min: px(10, 5), max: px(30, 10) });
    assert!(a.operators.is_empty());
    assert_eq!(a.tool_info.start_pos, Some(sp(10, 10)));

    a.begin_gesture(Tool::Pencil, sp(1, 1));
    a.update_gesture(&helper, sp(2, 2));
    let stroke = a.update_gesture(&helper, sp(3, 2)).unwrap();
    assert_eq!(
        stroke.geometry,
        ToolType::Polyline { points: vec![px(1, 1), px(2, 2), px(3, 2)], closed: false }
    );
    assert!(a.operators.is_empty());
    assert!(a.commit_gesture(&helper, sp(4, 2)));
    assert_eq!(
        a.operators[0].geometry,
        ToolType::Polyline { points: vec![px(1, 1), px(2, 2), px(3, 2), px(4, 2)], closed: false }
    );
}

#[test]
fn committed_text_joins_the_history() {
    let helper = identity();
    let mut a = Annotator::new(RED);
    a.begin_gesture(Tool::Text, sp(10, 10));
    assert!(!a.commit_gesture(&helper, sp(10, 10)));
    assert!(a.tool_info.text_editing.is_some());
    assert!(!a.commit_text());
    a.begin_gesture(Tool::Text, sp(10, 10));
    a.commit_gesture(&helper, sp(12, 14));
    a.tool_info.set_text(String::from("note"));
    assert!(a.commit_text());
    assert_eq!(
        a.operators[0].geometry,
        ToolType::Text { position: px(12, 14), content: String::from("note") }
    );
    a.clear();
    assert!(a.operators.is_empty());
    assert_eq!(a.tool_info.number, 0);
}

#[test]
fn beginning_with_another_tool_discards_pending_text() {
    let helper = identity();
    let mut a = Annotator::new(RED);
    a.begin_gesture(Tool::Text, sp(10, 10));
    a.commit_gesture(&helper, sp(10, 10));
    a.tool_info.set_text(String::from("draft"));
    a.begin_gesture(Tool::Text, sp(20, 20));
    assert!(a.tool_info.text_editing.is_some());
    a.begin_gesture(Tool::Line, sp(20, 20));
    assert_eq!(a.tool_info.text_editing, None);
    assert_eq!(a.tool_info.tool, Tool::Line);
}

#[test]
fn live_view_shows_shapes_in_screen_space() {
    let helper = AppHelper::new(sp(100, 50), sp(640, 480), 2 * ZOOM_ONE, DisplayScale::one());
    let op = Operator::new(
        ToolType::Ellipse { center: px(10, 20), radius_x: 5 * UNIT, radius_y: 3 * UNIT },
        StrokeWidth::THREE,
        RED,
        None,
    );
    let kept = op.clone();
    assert_eq!(
        op.draw(&helper),
        DrawCommand {
            geometry: ToolType::Ellipse {
                center: sp(120, 90),
                radius_x: 10 * SCREEN_UNIT,
                radius_y: 6 * SCREEN_UNIT
            },
            stroke_width: 6 * SCREEN_UNIT,
            stroke_color: RED,
            fill_color: None,
        }
    );
    assert_eq!(op, kept);
    assert_eq!(op.draw_process(&helper), op.draw(&helper));
    let path = Operator::new(
        ToolType::Polyline { points: vec![px(0, 0), px(1, 2)], closed: false },
        StrokeWidth::ONE,
        RED,
        Some(RED),
    );
    let cmd = path.draw(&helper);
    assert_eq!(cmd.geometry, ToolType::Polyline { points: vec![sp(100, 50), sp(102, 54)], closed: false });
    assert_eq!(cmd.stroke_width, 2 * SCREEN_UNIT);
    assert_eq!(cmd.fill_color, Some(RED));
    let marker = Operator::new(
        ToolType::Marker { center: px(1, 1), radius: 15 * UNIT, label_index: 4 },
        StrokeWidth::ONE,
        RED,
        Some(RED),
    );
    assert_eq!(
        marker.draw(&helper).geometry,
        ToolType::Marker { center: sp(102, 52), radius: 30 * SCREEN_UNIT, label_index: 4 }
    );
    let text = Operator::new(
        ToolType::Text { position: px(3, 4), content: String::from("a") },
        StrokeWidth::ONE,
        RED,
        None,
    );
    assert_eq!(
        text.draw(&helper).geometry,
        ToolType::Text { position: sp(106, 58), content: String::from("a") }
    );
    let rect = Operator::new(ToolType::Rectangle { min: px(1, 1), max: px(2, 3) }, StrokeWidth::ONE, RED, None);
    assert_eq!(rect.draw(&helper).geometry, ToolType::Rectangle { min: sp(102, 52), max: sp(104, 56) });
    let line = Operator::new(ToolType::Line { start: px(1, 1), end: px(2, 3) }, StrokeWidth::ONE, RED, None);
    assert_eq!(line.draw(&helper).geometry, ToolType::Line { start: sp(102, 52), end: sp(104, 56) });
    let rect_of_view = helper.get_image_rect();
    assert_eq!(rect_of_view, Rect { min: sp(100, 50), max: sp(1380, 1010) });
}

#[test]
fn stroke_width_converts_into_units() {
    let w: i64 = StrokeWidth::FIVE.into();
    assert_eq!(w, 5 * UNIT);
    assert_eq!(i64::from(StrokeWidth::Custom(7)), 7);
}
