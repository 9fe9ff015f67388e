use annotator::canvas::{Canvas, MAX_DIM};
use annotator::color::Rgba;
use annotator::compositor::render;
use annotator::coverage::Stencil;
use annotator::drawable::{
    draw_ellipse_on_image, draw_line_on_image, draw_polyline_on_image, draw_rect_on_image,
    thickness_of, width_of, Draw,
};
use annotator::fixed::UNIT;
use annotator::geometry::Point;
use annotator::operators::{Operator, ToolType};
use annotator::raster::paint;
use annotator::toolbar::{arrow_points, StrokeWidth};

const RED: Rgba = Rgba { r: 255, g: 0, b: 0, a: 255 };
const GREEN: Rgba = Rgba { r: 0, g: 255, b: 0, a: 255 };
const BLUE: Rgba = Rgba { r: 0, g: 0, b: 255, a: 255 };
const BLACK: Rgba = Rgba { r: 0, g: 0, b: 0, a: 255 };

fn blank(w: u32, h: u32) -> Canvas {
    let mut data: Vec<u8> = Vec::new();
    for _ in 0..(w * h) {
        data.extend_from_slice(&[0, 0, 0, 255]);
    }
    Canvas::from_raw(w, h, data).unwrap()
}

fn px(x: i32, y: i32) -> Point {
    Point::from_pixels(x, y)
}

fn stroke(geometry: ToolType, width: StrokeWidth, color: Rgba) -> Operator {
    Operator::new(geometry, width, color, None)
}

fn changed(before: &Canvas, after: &Canvas) -> usize {
    let mut n = 0;
    for y in 0..before.height() {
        for x in 0..before.width() {
            if before.get_pixel(x, y) != after.get_pixel(x, y) {
                n += 1;
            }
        }
    }
    n
}

#[test]
fn canvas_reads_its_bytes_row_by_row() {
    let data: Vec<u8> = (0u8..24).collect();
    let c = Canvas::from_raw(3, 2, data.clone()).unwrap();
    assert_eq!(c.width(), 3);
    assert_eq!(c.height(), 2);
    assert_eq!(c.get_pixel(0, 0), Some(Rgba { r: 0, g: 1, b: 2, a: 3 }));
    assert_eq!(c.get_pixel(2, 0), Some(Rgba { r: 8, g: 9, b: 10, a: 11 }));
    assert_eq!(c.get_pixel(1, 1), Some(Rgba { r: 16, g: 17, b: 18, a: 19 }));
    assert_eq!(c.get_pixel(3, 0), None);
    assert_eq!(c.get_pixel(0, 2), None);
    assert_eq!(c.into_raw(), data);
}

#[test]
fn canvas_refuses_bytes_that_do_not_fit() {
    assert!(Canvas::from_raw(2, 2, vec![0; 15]).is_none());
    assert!(Canvas::from_raw(2, 2, vec![0; 17]).is_none());
    assert!(Canvas::from_raw(2, 2, vec![0; 16]).is_some());
    assert!(Canvas::from_raw(MAX_DIM + 1, 0, Vec::new()).is_none());
    assert!(Canvas::from_raw(0, MAX_DIM + 1, Vec::new()).is_none());
    let empty = Canvas::from_raw(0, 0, Vec::new()).unwrap();
    assert_eq!(empty.width(), 0);
    assert_eq!(empty.get_pixel(0, 0), None);
}

#[test]
fn rectangle_border_is_drawn_in_whole_pixels() {
    let base = blank(40, 30);
    let op = stroke(ToolType::Rectangle { min: px(5, 5), max: px(20, 15) }, StrokeWidth::ONE, RED);
    let out = render(&base, &vec![op], &None);
    assert_eq!(out.get_pixel(5, 5), Some(RED));
    assert_eq!(out.get_pixel(20, 15), Some(RED));
    assert_eq!(out.get_pixel(12, 5), Some(RED));
    assert_eq!(out.get_pixel(12, 15), Some(RED));
    assert_eq!(out.get_pixel(5, 10), Some(RED));
    assert_eq!(out.get_pixel(20, 10), Some(RED));
    assert_eq!(out.get_pixel(12, 6), Some(BLACK));
    assert_eq!(out.get_pixel(12, 4), Some(BLACK));
    assert_eq!(out.get_pixel(21, 10), Some(BLACK));
    assert_eq!(out.get_pixel(4, 10), Some(BLACK));
    // 16 columns by 11 rows, less the 14 by 9 inside
    assert_eq!(changed(&base, &out), 16 * 11 - 14 * 9);
    assert_eq!(base.get_pixel(5, 5), Some(BLACK));
}

#[test]
fn rectangle_border_grows_inwards_with_the_stroke() {
    let base = blank(40, 30);
    let op = stroke(ToolType::Rectangle { min: px(5, 5), max: px(20, 15) }, StrokeWidth::THREE, RED);
    let out = render(&base, &vec![op], &None);
    assert_eq!(thickness_of(StrokeWidth::THREE), 3);
    assert_eq!(out.get_pixel(12, 5), Some(RED));
    assert_eq!(out.get_pixel(12, 7), Some(RED));
    assert_eq!(out.get_pixel(12, 8), Some(BLACK));
    assert_eq!(out.get_pixel(7, 10), Some(RED));
    assert_eq!(out.get_pixel(8, 10), Some(BLACK));
    assert_eq!(out.get_pixel(18, 10), Some(RED));
    assert_eq!(out.get_pixel(17, 10), Some(BLACK));
    assert_eq!(out.get_pixel(12, 13), Some(RED));
    assert_eq!(out.get_pixel(12, 12), Some(BLACK));
}

#[test]
fn rectangle_border_keeps_the_alpha_of_its_colour() {
    let base = blank(10, 10);
    let faint = Rgba { r: 9, g: 8, b: 7, a: 100 };
    let op = stroke(ToolType::Rectangle { min: px(1, 1), max: px(4, 4) }, StrokeWidth::ONE, faint);
    let out = render(&base, &vec![op], &None);
    assert_eq!(out.get_pixel(1, 1), Some(faint));
    assert_eq!(out.get_pixel(2, 2), Some(BLACK));
}

#[test]
fn rectangle_is_clipped_to_the_canvas() {
    let base = blank(10, 10);
    let op = stroke(ToolType::Rectangle { min: px(-5, -5), max: px(4, 4) }, StrokeWidth::ONE, RED);
    let out = render(&base, &vec![op], &None);
    assert_eq!(out.get_pixel(4, 0), Some(RED));
    assert_eq!(out.get_pixel(0, 4), Some(RED));
    assert_eq!(out.get_pixel(0, 0), Some(BLACK));
    assert_eq!(changed(&base, &out), 9);
}

#[test]
fn rectangle_fill_lies_under_the_border() {
    let base = blank(20, 20);
    let op = Operator::new(
        ToolType::Rectangle { min: px(4, 4), max: px(10, 10) },
        StrokeWidth::ONE,
        RED,
        Some(GREEN),
    );
    let out = render(&base, &vec![op], &None);
    assert_eq!(out.get_pixel(4, 4), Some(RED));
    assert_eq!(out.get_pixel(7, 7), Some(GREEN));
    assert_eq!(out.get_pixel(10, 10), Some(RED));
    assert_eq!(out.get_pixel(11, 11), Some(BLACK));
}

#[test]
fn transparent_fill_counts_as_none() {
    let base = blank(20, 20);
    let clear = Rgba { r: 0, g: 255, b: 0, a: 0 };
    let op = Operator::new(
        ToolType::Rectangle { min: px(4, 4), max: px(10, 10) },
        StrokeWidth::ONE,
        RED,
        Some(clear),
    );
    assert_eq!(op.visible_fill(), None);
    let out = render(&base, &vec![op], &None);
    assert_eq!(out.get_pixel(7, 7), Some(BLACK));
}

#[test]
fn line_covers_the_pixels_it_crosses() {
    let base = blank(40, 30);
    let op = stroke(ToolType::Line { start: px(5, 10), end: px(30, 10) }, StrokeWidth::THREE, RED);
    let out = render(&base, &vec![op], &None);
    assert_eq!(width_of(StrokeWidth::THREE), 3072);
    // the stroke reaches from 8.5 to 11.5: rows 9 and 10 are covered in
    // full, rows 8 and 11 by the two samples at 8.75 and 11.25
    assert_eq!(out.get_pixel(15, 10), Some(RED));
    assert_eq!(out.get_pixel(15, 9), Some(RED));
    assert_eq!(out.get_pixel(15, 8), Some(Rgba { r: 127, g: 0, b: 0, a: 255 }));
    assert_eq!(out.get_pixel(15, 11), Some(Rgba { r: 127, g: 0, b: 0, a: 255 }));
    assert_eq!(out.get_pixel(15, 7), Some(BLACK));
    assert_eq!(out.get_pixel(15, 12), Some(BLACK));
    // beyond the ends the stroke is round: 1.5 pixels at most
    assert_eq!(out.get_pixel(32, 10), Some(BLACK));
    assert_eq!(out.get_pixel(2, 10), Some(BLACK));
}

#[test]
fn thin_strokes_are_drawn_one_pixel_wide() {
    assert_eq!(width_of(StrokeWidth::Custom(0)), 1024);
    assert_eq!(width_of(StrokeWidth::Custom(100)), 1024);
    assert_eq!(width_of(StrokeWidth::ONE), 1024);
    assert_eq!(width_of(StrokeWidth::Custom(2049)), 2049);
    assert_eq!(width_of(StrokeWidth::FIVE), 5120);
    assert_eq!(thickness_of(StrokeWidth::Custom(0)), 1);
    assert_eq!(thickness_of(StrokeWidth::Custom(1535)), 1);
    assert_eq!(thickness_of(StrokeWidth::Custom(1536)), 2);
    assert_eq!(thickness_of(StrokeWidth::FIVE), 5);
    let base = blank(20, 20);
    let op = stroke(
        ToolType::Line {
            start: Point { x: 2 * UNIT, y: 5 * UNIT + 512 },
            end: Point { x: 12 * UNIT, y: 5 * UNIT + 512 },
        },
        StrokeWidth::Custom(10),
        RED,
    );
    let out = render(&base, &vec![op], &None);
    // the stroke reaches from 5.0 to 6.0: row 5 holds all four samples
    assert_eq!(out.get_pixel(6, 5), Some(RED));
    assert_eq!(out.get_pixel(6, 4), Some(BLACK));
    assert_eq!(out.get_pixel(6, 6), Some(BLACK));
}

#[test]
fn line_without_length_paints_nothing() {
    let base = blank(20, 20);
    let op = stroke(ToolType::Line { start: px(5, 5), end: px(5, 5) }, StrokeWidth::FIVE, RED);
    let out = render(&base, &vec![op], &None);
    assert_eq!(changed(&base, &out), 0);
}

#[test]
fn slanted_line_is_antialiased() {
    let base = blank(30, 30);
    let op = stroke(ToolType::Line { start: px(5, 5), end: px(25, 15) }, StrokeWidth::THREE, RED);
    let out = render(&base, &vec![op], &None);
    assert_eq!(out.get_pixel(15, 10), Some(RED));
    let mut partial = 0;
    for y in 0..30 {
        for x in 0..30 {
            let p = out.get_pixel(x, y).unwrap();
            assert!(p.r == 0 || p.r == 63 || p.r == 127 || p.r == 191 || p.r == 255);
            assert_eq!((p.g, p.b, p.a), (0, 0, 255));
            if p.r != 0 && p.r != 255 {
                partial += 1;
            }
        }
    }
    assert!(partial > 0);
}

#[test]
fn ellipse_band_lies_between_its_radii() {
    let base = blank(100, 100);
    let op = stroke(
        ToolType::Ellipse { center: px(50, 50), radius_x: 20 * UNIT, radius_y: 20 * UNIT },
        StrokeWidth::THREE,
        RED,
    );
    let out = render(&base, &vec![op], &None);
    let mut full = 0;
    for y in 0..100u32 {
        for x in 0..100u32 {
            let dx = x as f64 + 0.5 - 50.0;
            let dy = y as f64 + 0.5 - 50.0;
            let d = (dx * dx + dy * dy).sqrt();
            let p = out.get_pixel(x, y).unwrap();
            if p == RED {
                full += 1;
                // all four samples lie in the band from 18.5 to 21.5, and
                // each is 0.354 from the centre of the pixel
                assert!(d >= 18.5 - 0.36 && d <= 21.5 + 0.36);
            }
            if d > 22.5 || d < 17.5 {
                assert_eq!(p, BLACK);
            }
        }
    }
    assert!(full > 100);
    assert_eq!(out.get_pixel(70, 50), Some(RED));
    assert_eq!(out.get_pixel(50, 50), Some(BLACK));
}

#[test]
fn ellipse_fill_lies_under_the_band() {
    let base = blank(60, 60);
    let op = Operator::new(
        ToolType::Ellipse { center: px(30, 30), radius_x: 20 * UNIT, radius_y: 10 * UNIT },
        StrokeWidth::ONE,
        RED,
        Some(BLUE),
    );
    let out = render(&base, &vec![op], &None);
    assert_eq!(out.get_pixel(30, 30), Some(BLUE));
    assert_eq!(out.get_pixel(45, 30), Some(BLUE));
    assert_eq!(out.get_pixel(30, 45), Some(BLACK));
    assert_eq!(out.get_pixel(30, 41), Some(BLACK));
    assert_eq!(out.get_pixel(30, 35), Some(BLUE));
}

#[test]
fn ellipse_without_radius_is_a_dot() {
    let base = blank(20, 20);
    let op = Operator::new(
        ToolType::Ellipse { center: px(10, 10), radius_x: 0, radius_y: 0 },
        StrokeWidth::FIVE,
        RED,
        Some(BLUE),
    );
    let out = render(&base, &vec![op], &None);
    // a disc of radius 2.5 round (10, 10)
    assert_eq!(out.get_pixel(10, 10), Some(RED));
    assert_eq!(out.get_pixel(9, 9), Some(RED));
    assert_eq!(out.get_pixel(11, 10), Some(RED));
    assert_eq!(out.get_pixel(13, 10), Some(BLACK));
    assert_eq!(out.get_pixel(10, 6), Some(BLACK));
    let n = changed(&base, &out);
    assert!(n >= 16 && n <= 36);
}

#[test]
fn empty_polyline_paints_nothing() {
    let base = blank(20, 20);
    for closed in [false, true] {
        let op = Operator::new(
            ToolType::Polyline { points: Vec::new(), closed },
            StrokeWidth::FIVE,
            RED,
            Some(RED),
        );
        let out = render(&base, &vec![op], &None);
        assert_eq!(changed(&base, &out), 0);
    }
    let one = Operator::new(
        ToolType::Polyline { points: vec![px(5, 5)], closed: true },
        StrokeWidth::FIVE,
        RED,
        Some(RED),
    );
    assert_eq!(changed(&base, &render(&base, &vec![one], &None)), 0);
}

#[test]
fn degenerate_arrow_has_no_points_and_paints_nothing() {
    let start = px(7, 9);
    let points = arrow_points(start, start, StrokeWidth::THREE);
    assert!(points.is_empty());
    let base = blank(20, 20);
    let op = Operator::new(
        ToolType::Polyline { points, closed: true },
        StrokeWidth::THREE,
        RED,
        Some(RED),
    );
    let out = render(&base, &vec![op], &None);
    assert_eq!(changed(&base, &out), 0);
}

#[test]
fn closed_polyline_is_filled_by_winding() {
    let base = blank(40, 40);
    let square = vec![px(10, 10), px(30, 10), px(30, 30), px(10, 30)];
    let op = Operator::new(
        ToolType::Polyline { points: square, closed: true },
        StrokeWidth::ONE,
        RED,
        Some(GREEN),
    );
    let out = render(&base, &vec![op], &None);
    assert_eq!(out.get_pixel(20, 20), Some(GREEN));
    assert_eq!(out.get_pixel(11, 11), Some(GREEN));
    assert_eq!(out.get_pixel(28, 28), Some(GREEN));
    assert_eq!(out.get_pixel(35, 20), Some(BLACK));
    assert_eq!(out.get_pixel(5, 20), Some(BLACK));
    assert_eq!(out.get_pixel(20, 5), Some(BLACK));
    assert_eq!(out.get_pixel(20, 35), Some(BLACK));
    // the stroke of the edge at x = 10 reaches from 9.5 to 10.5: it holds
    // two samples of column 9 and two of column 10, which is filled
    assert_eq!(out.get_pixel(9, 20), Some(Rgba { r: 127, g: 0, b: 0, a: 255 }));
    assert_eq!(out.get_pixel(10, 20), Some(Rgba { r: 127, g: 128, b: 0, a: 255 }));
}

#[test]
fn outline_traversed_the_other_way_is_filled_too() {
    let base = blank(40, 40);
    let square = vec![px(10, 30), px(30, 30), px(30, 10), px(10, 10)];
    let mut canvas = blank(40, 40);
    paint(&mut canvas, &Stencil::Polygon { points: &square }, GREEN);
    assert_eq!(canvas.get_pixel(20, 20), Some(GREEN));
    assert_eq!(canvas.get_pixel(10, 10), Some(GREEN));
    assert_eq!(canvas.get_pixel(29, 29), Some(GREEN));
    assert_eq!(canvas.get_pixel(30, 30), Some(BLACK));
    assert_eq!(canvas.get_pixel(9, 20), Some(BLACK));
    assert_eq!(changed(&base, &canvas), 400);
}

#[test]
fn open_polyline_strokes_each_segment() {
    let base = blank(40, 40);
    let path = vec![px(5, 5), px(30, 5), px(30, 30)];
    let op = stroke(ToolType::Polyline { points: path, closed: false }, StrokeWidth::THREE, RED);
    let out = render(&base, &vec![op], &None);
    assert_eq!(out.get_pixel(15, 5), Some(RED));
    assert_eq!(out.get_pixel(30, 20), Some(RED));
    assert_eq!(out.get_pixel(29, 20), Some(RED));
    // the way back from the last point to the first is not drawn
    assert_eq!(out.get_pixel(17, 17), Some(BLACK));
    assert_eq!(out.get_pixel(18, 18), Some(BLACK));
}

#[test]
fn arrow_is_filled_in_its_colour() {
    let base = blank(120, 60);
    let points = arrow_points(px(10, 30), px(100, 30), StrokeWidth::THREE);
    assert_eq!(points.len(), 7);
    let op = Operator::new(
        ToolType::Polyline { points, closed: true },
        StrokeWidth::THREE,
        RED,
        Some(RED),
    );
    let out = render(&base, &vec![op], &None);
    // on the shaft, in the head, and beside both
    assert_eq!(out.get_pixel(40, 30), Some(RED));
    assert_eq!(out.get_pixel(85, 30), Some(RED));
    assert_eq!(out.get_pixel(80, 34), Some(RED));
    assert_eq!(out.get_pixel(40, 36), Some(BLACK));
    assert_eq!(out.get_pixel(105, 30), Some(BLACK));
    assert_eq!(out.get_pixel(80, 42), Some(BLACK));
}

#[test]
fn later_operator_lies_on_top() {
    let base = blank(40, 40);
    let a = stroke(ToolType::Line { start: px(5, 20), end: px(35, 20) }, StrokeWidth::FIVE, RED);
    let b = stroke(ToolType::Line { start: px(20, 5), end: px(20, 35) }, StrokeWidth::FIVE, BLUE);
    let ab = render(&base, &vec![a.clone(), b.clone()], &None);
    let ba = render(&base, &vec![b, a], &None);
    assert_eq!(ab.get_pixel(20, 20), Some(BLUE));
    assert_eq!(ab.get_pixel(19, 21), Some(BLUE));
    assert_eq!(ba.get_pixel(20, 20), Some(RED));
    assert_eq!(ab.get_pixel(10, 20), Some(RED));
    assert_eq!(ab.get_pixel(20, 10), Some(BLUE));
    // where the later stroke covers half a pixel it is blended over the
    // earlier one: rows 17 and 22 of the red stroke, column 20 of the blue
    assert_eq!(ba.get_pixel(20, 17), Some(Rgba { r: 127, g: 0, b: 128, a: 255 }));
    assert_eq!(ab.get_pixel(20, 17), Some(BLUE));
}

#[test]
fn later_rectangle_overwrites_earlier_line() {
    let base = blank(40, 40);
    let a = stroke(ToolType::Line { start: px(5, 20), end: px(35, 20) }, StrokeWidth::FIVE, RED);
    let b = stroke(ToolType::Rectangle { min: px(10, 10), max: px(30, 30) }, StrokeWidth::ONE, GREEN);
    let out = render(&base, &vec![a, b], &None);
    assert_eq!(out.get_pixel(10, 20), Some(GREEN));
    assert_eq!(out.get_pixel(30, 20), Some(GREEN));
    assert_eq!(out.get_pixel(20, 20), Some(RED));
}

#[test]
fn malformed_operator_is_skipped() {
    let base = blank(20, 20);
    let bad = stroke(
        ToolType::Ellipse { center: px(10, 10), radius_x: -1, radius_y: 5 * UNIT },
        StrokeWidth::ONE,
        RED,
    );
    assert!(!bad.is_valid());
    let far = stroke(
        ToolType::Line { start: Point { x: i64::MAX, y: 0 }, end: px(10, 10) },
        StrokeWidth::ONE,
        RED,
    );
    assert!(!far.is_valid());
    let good = stroke(ToolType::Line { start: px(2, 5), end: px(18, 5) }, StrokeWidth::THREE, BLUE);
    assert!(good.is_valid());
    let out = render(&base, &vec![bad, good, far], &None);
    assert_eq!(out.get_pixel(10, 5), Some(BLUE));
    assert_eq!(out.get_pixel(10, 10), Some(BLACK));
    assert_eq!(out.get_pixel(10, 15), Some(BLACK));
}

#[test]
fn render_without_operators_copies_the_picture() {
    let data: Vec<u8> = (0u8..48).collect();
    let base = Canvas::from_raw(4, 3, data.clone()).unwrap();
    let out = render(&base, &Vec::new(), &None);
    assert_eq!(out.width(), 4);
    assert_eq!(out.height(), 3);
    assert_eq!(out.into_raw(), data);
}

#[test]
fn shapes_can_be_drawn_one_by_one() {
    let mut canvas = blank(40, 40);
    let style = Operator::new(ToolType::Line { start: px(0, 0), end: px(0, 0) }, StrokeWidth::ONE, RED, None);
    draw_rect_on_image(&style, &mut canvas, px(2, 2), px(6, 6));
    assert_eq!(canvas.get_pixel(2, 4), Some(RED));
    draw_line_on_image(&style, &mut canvas, px(10, 3), px(20, 3));
    assert_eq!(canvas.get_pixel(15, 2), Some(Rgba { r: 127, g: 0, b: 0, a: 255 }));
    assert_eq!(canvas.get_pixel(15, 3), Some(Rgba { r: 127, g: 0, b: 0, a: 255 }));
    draw_ellipse_on_image(&style, &mut canvas, px(20, 20), 5 * UNIT, 5 * UNIT);
    assert_eq!(canvas.get_pixel(20, 20), Some(BLACK));
    assert!(canvas.get_pixel(25, 20) != Some(BLACK) || canvas.get_pixel(24, 20) != Some(BLACK));
    draw_polyline_on_image(&style, &mut canvas, &vec![px(30, 30), px(38, 30)], false);
    assert_eq!(canvas.get_pixel(34, 30), Some(Rgba { r: 127, g: 0, b: 0, a: 255 }));
    let op = stroke(ToolType::Line { start: px(2, 35), end: px(12, 35) }, StrokeWidth::THREE, GREEN);
    Draw::draw_on_image(&op, &mut canvas, &None);
    assert_eq!(canvas.get_pixel(6, 35), Some(GREEN));
}

#[test]
fn stencils_hold_their_points() {
    // radii 90 and 40, ten to each side
    let ring = Stencil::Ring { cx: 0, cy: 0, rx: 90, ry: 40, width: 20 };
    assert!(ring.hit(100, 0));
    assert!(ring.hit(0, 50));
    assert!(ring.hit(80, 0));
    assert!(!ring.hit(79, 0));
    assert!(!ring.hit(101, 0));
    assert!(!ring.hit(0, 0));
    assert!(!ring.hit(100, 50));
    let dot = Stencil::Ring { cx: 0, cy: 0, rx: 0, ry: 0, width: 20 };
    assert!(dot.hit(0, 0));
    assert!(dot.hit(6, 8));
    assert!(!dot.hit(7, 8));
    let oval = Stencil::Oval { cx: 10, cy: 10, rx: 5, ry: 5 };
    assert!(oval.hit(13, 14));
    assert!(!oval.hit(14, 14));
    let capsule = Stencil::Capsule { a: Point { x: 0, y: 0 }, b: Point { x: 100, y: 0 }, width: 20 };
    assert!(capsule.hit(50, 10));
    assert!(!capsule.hit(50, 11));
    assert!(capsule.hit(-10, 0));
    assert!(capsule.hit(-6, 8));
    assert!(!capsule.hit(-7, 8));
    assert!(capsule.hit(106, -8));
    assert!(!capsule.hit(111, 0));
    let slanted = Stencil::Capsule { a: Point { x: 0, y: 0 }, b: Point { x: 30, y: 40 }, width: 10 };
    assert!(slanted.hit(15, 20));
    assert!(slanted.hit(19, 17));
    assert!(!slanted.hit(20, 16));
    let point = Stencil::Capsule { a: Point { x: 3, y: 3 }, b: Point { x: 3, y: 3 }, width: 20 };
    assert!(!point.hit(3, 3));
    // half of an odd width is not rounded: 2.5 to each side
    let odd = Stencil::Capsule { a: Point { x: 0, y: 0 }, b: Point { x: 100, y: 0 }, width: 5 };
    assert!(odd.hit(50, 2));
    assert!(!odd.hit(50, 3));
    assert!(odd.hit(-2, 1));
    assert!(!odd.hit(-2, 2));
    let thin = Stencil::Ring { cx: 0, cy: 0, rx: 10, ry: 10, width: 5 };
    assert!(thin.hit(12, 0));
    assert!(!thin.hit(13, 0));
    assert!(thin.hit(8, 0));
    assert!(!thin.hit(7, 0));
    assert!(thin.hit(6, 5));
    assert!(!thin.hit(5, 5));
    let slab = Stencil::Slab { min: Point { x: 0, y: 0 }, max: Point { x: 4, y: 2 } };
    assert!(slab.hit(4, 2));
    assert!(!slab.hit(5, 2));
    let turned = Stencil::Slab { min: Point { x: 4, y: 2 }, max: Point { x: 0, y: 0 } };
    assert!(!turned.hit(2, 1));
    let twice = vec![
        Point { x: 0, y: 0 },
        Point { x: 10, y: 0 },
        Point { x: 10, y: 10 },
        Point { x: 0, y: 10 },
        Point { x: 0, y: 0 },
        Point { x: 10, y: 0 },
        Point { x: 10, y: 10 },
        Point { x: 0, y: 10 },
    ];
    let wound = Stencil::Polygon { points: &twice };
    assert!(wound.hit(5, 5));
    assert!(!wound.hit(15, 5));
    assert_eq!(capsule.coverage_of(0, 0), 0);
    let wide = Stencil::Slab { min: Point { x: 0, y: 0 }, max: Point { x: 700, y: 2000 } };
    assert_eq!(wide.coverage_of(0, 0), 2);
    assert_eq!(wide.coverage_of(0, 1), 2);
    assert_eq!(wide.coverage_of(0, 2), 0);
    assert_eq!(wide.coverage_of(1, 0), 0);
}

#[test]
fn odd_stroke_width_is_not_rounded() {
    // all four samples of the one pixel lie within 512.5 units of the
    // segment, one of them 512.2 units from it
    let base = blank(1, 1);
    let op = stroke(
        ToolType::Line { start: Point { x: -3062, y: -3997 }, end: Point { x: 2938, y: 4003 } },
        StrokeWidth::Custom(1025),
        Rgba { r: 255, g: 255, b: 255, a: 255 },
    );
    let out = render(&base, &vec![op], &None);
    assert_eq!(out.get_pixel(0, 0), Some(Rgba { r: 255, g: 255, b: 255, a: 255 }));
    // one unit narrower and that sample is left out
    let narrow = stroke(
        ToolType::Line { start: Point { x: -3062, y: -3997 }, end: Point { x: 2938, y: 4003 } },
        StrokeWidth::Custom(1024),
        Rgba { r: 255, g: 255, b: 255, a: 255 },
    );
    let less = render(&base, &vec![narrow], &None);
    assert_eq!(less.get_pixel(0, 0), Some(Rgba { r: 191, g: 191, b: 191, a: 255 }));
}

#[test]
fn rectangle_above_the_picture_stays_off_it() {
    let base = blank(10, 10);
    let op = stroke(
        ToolType::Rectangle { min: Point { x: 0, y: -5 * UNIT }, max: Point { x: 5 * UNIT, y: -512 } },
        StrokeWidth::ONE,
        RED,
    );
    let out = render(&base, &vec![op], &None);
    assert_eq!(changed(&base, &out), 0);
    let left = stroke(
        ToolType::Rectangle { min: Point { x: -5 * UNIT, y: 0 }, max: Point { x: -1, y: 5 * UNIT } },
        StrokeWidth::ONE,
        RED,
    );
    assert_eq!(changed(&base, &render(&base, &vec![left], &None)), 0);
    // an edge inside the first pixel is drawn on it
    let inside = stroke(
        ToolType::Rectangle { min: Point { x: 0, y: -5 * UNIT }, max: Point { x: 5 * UNIT, y: 512 } },
        StrokeWidth::ONE,
        RED,
    );
    let shown = render(&base, &vec![inside], &None);
    assert_eq!(shown.get_pixel(3, 0), Some(RED));
    assert_eq!(changed(&base, &shown), 6);
}
