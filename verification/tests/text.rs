use annotator::canvas::Canvas;
use annotator::color::Rgba;
use annotator::compositor::render;
use annotator::drawable::{contrast, decimal, draw_marker_on_image, draw_text_on_image};
use annotator::fixed::UNIT;
use annotator::font::{measure_text, stamp, text_extent, FontFace, Glyph};
use annotator::geometry::Point;
use annotator::operators::{Operator, ToolType};
use annotator::toolbar::StrokeWidth;

const RED: Rgba = Rgba { r: 255, g: 0, b: 0, a: 255 };
const BLACK: Rgba = Rgba { r: 0, g: 0, b: 0, a: 255 };
const WHITE: Rgba = Rgba { r: 255, g: 255, b: 255, a: 255 };

fn blank(w: u32, h: u32) -> Canvas {
    let mut data: Vec<u8> = Vec::new();
    for _ in 0..(w * h) {
        data.extend_from_slice(&[0, 0, 0, 255]);
    }
    Canvas::from_raw(w, h, data).unwrap()
}

fn px(x: i32, y: i32) -> Point {
    Point::from_pixels(x, y)
}

fn glyph(ch: char, advance_px: u32, left: i32, top: i32, width: u32, coverage: Vec<u8>) -> Glyph {
    let height = if width == 0 { 0 } else { coverage.len() as u32 / width };
    Glyph { ch, advance: advance_px * 1024, left, top, width, height, coverage }
}

fn face() -> FontFace {
    FontFace {
        ascent: 3 * 1024,
        descent: -1024,
        glyphs: vec![
            glyph('a', 3, 0, -2, 2, vec![255, 128, 0, 64]),
            glyph('b', 4, 1, -1, 1, vec![255]),
            glyph(' ', 2, 0, 0, 0, Vec::new()),
            glyph('0', 4, 0, -1, 1, vec![255]),
            glyph('1', 2, 0, -3, 1, vec![255, 255, 255]),
            glyph('a', 9, 0, 0, 1, vec![1]),
        ],
    }
}

fn changed(before: &Canvas, after: &Canvas) -> usize {
    let mut n = 0;
    for y in 0..before.height() {
        for x in 0..before.width() {
            if before.get_pixel(x, y) != after.get_pixel(x, y) {
                n += 1;
            }
        }
    }
    n
}

#[test]
fn text_is_measured_by_advances_and_line_height() {
    let f = face();
    assert!(f.is_valid());
    assert_eq!(measure_text(&f, ""), (0, 4096));
    assert_eq!(measure_text(&f, "a"), (3072, 4096));
    assert_eq!(measure_text(&f, "ab a"), (12 * 1024, 4096));
    // a character without a glyph takes no room
    assert_eq!(measure_text(&f, "a?b"), (7 * 1024, 4096));
    assert_eq!(text_extent(&f, "ab a"), (12 * 1024, 4096));
    assert_eq!(f.find('b'), Some(1));
    assert_eq!(f.find('a'), Some(0));
    assert_eq!(f.find('z'), None);
    assert_eq!(f.advance('1'), 2048);
    assert_eq!(f.advance('z'), 0);
}

#[test]
fn malformed_glyph_is_found_out() {
    let mut f = face();
    assert!(f.glyphs[0].is_valid());
    f.glyphs[1].coverage.push(3);
    assert!(!f.glyphs[1].is_valid());
    assert!(!f.is_valid());
    let empty = FontFace { ascent: 0, descent: 0, glyphs: Vec::new() };
    assert!(empty.is_valid());
}

#[test]
fn glyph_mask_is_blended_where_it_lies() {
    let mut canvas = blank(8, 8);
    let g = glyph('a', 3, 0, 0, 2, vec![255, 128, 0, 64]);
    stamp(&mut canvas, &g, 3, 4, RED);
    assert_eq!(canvas.get_pixel(3, 4), Some(RED));
    assert_eq!(canvas.get_pixel(4, 4), Some(Rgba { r: 128, g: 0, b: 0, a: 255 }));
    assert_eq!(canvas.get_pixel(3, 5), Some(BLACK));
    assert_eq!(canvas.get_pixel(4, 5), Some(Rgba { r: 64, g: 0, b: 0, a: 255 }));
    assert_eq!(changed(&blank(8, 8), &canvas), 3);
}

#[test]
fn glyph_mask_is_clipped_to_the_canvas() {
    let g = glyph('a', 3, 0, 0, 2, vec![255, 128, 0, 64]);
    let mut canvas = blank(4, 4);
    stamp(&mut canvas, &g, -1, -1, RED);
    assert_eq!(canvas.get_pixel(0, 0), Some(Rgba { r: 64, g: 0, b: 0, a: 255 }));
    assert_eq!(changed(&blank(4, 4), &canvas), 1);
    let mut corner = blank(4, 4);
    stamp(&mut corner, &g, 3, 3, RED);
    assert_eq!(corner.get_pixel(3, 3), Some(RED));
    assert_eq!(changed(&blank(4, 4), &corner), 1);
    let mut beside = blank(4, 4);
    stamp(&mut beside, &g, 4, 0, RED);
    stamp(&mut beside, &g, -2, 0, RED);
    stamp(&mut beside, &g, 0, 1 << 100, RED);
    stamp(&mut beside, &g, -(1 << 100), 0, RED);
    assert_eq!(changed(&blank(4, 4), &beside), 0);
}

#[test]
fn text_is_anchored_at_its_top_left_corner() {
    let base = blank(30, 20);
    let op = Operator::new(
        ToolType::Text { position: px(10, 5), content: String::from("ab") },
        StrokeWidth::ONE,
        RED,
        None,
    );
    let out = render(&base, &vec![op], &Some(face()));
    // the baseline lies at 5 + 3 = 8; 'a' reaches two rows above it
    assert_eq!(out.get_pixel(10, 6), Some(RED));
    assert_eq!(out.get_pixel(11, 6), Some(Rgba { r: 128, g: 0, b: 0, a: 255 }));
    assert_eq!(out.get_pixel(11, 7), Some(Rgba { r: 64, g: 0, b: 0, a: 255 }));
    // 'b' begins three pixels on, one to the right of the pen, one row up
    assert_eq!(out.get_pixel(14, 7), Some(RED));
    assert_eq!(changed(&base, &out), 4);
}

#[test]
fn pen_is_laid_at_the_whole_pixel_it_has_reached() {
    let mut f = face();
    f.glyphs[1].advance = 1536;
    let mut canvas = blank(30, 20);
    draw_text_on_image(&mut canvas, &f, "bbb", 512, 1024 + 1023, RED);
    // pens at 0.5, 2.0 and 3.5 pixels: columns 0, 2 and 3, each plus one;
    // the baseline at 1.999 + 3 lies in row 4, the mask one row above
    assert_eq!(canvas.get_pixel(1, 3), Some(RED));
    assert_eq!(canvas.get_pixel(3, 3), Some(RED));
    assert_eq!(canvas.get_pixel(4, 3), Some(RED));
    assert_eq!(changed(&blank(30, 20), &canvas), 3);
}

#[test]
fn text_without_font_is_skipped() {
    let base = blank(30, 20);
    let text = Operator::new(
        ToolType::Text { position: px(10, 5), content: String::from("ab") },
        StrokeWidth::ONE,
        RED,
        None,
    );
    let line = Operator::new(
        ToolType::Line { start: px(2, 15), end: px(20, 15) },
        StrokeWidth::THREE,
        RED,
        None,
    );
    let ops = vec![text, line];
    let out = render(&base, &ops, &None);
    assert_eq!(out.get_pixel(10, 6), Some(BLACK));
    assert_eq!(out.get_pixel(10, 15), Some(RED));
    // a font with a malformed glyph counts as none
    let mut broken = face();
    broken.glyphs[0].coverage.pop();
    let again = render(&base, &ops, &Some(broken));
    assert_eq!(again.into_raw(), out.into_raw());
}

#[test]
fn numbers_are_written_in_decimal() {
    assert_eq!(decimal(0), "0");
    assert_eq!(decimal(7), "7");
    assert_eq!(decimal(10), "10");
    assert_eq!(decimal(1234567890), "1234567890");
    assert_eq!(decimal(u32::MAX), "4294967295");
}

#[test]
fn label_stands_out_against_its_disc() {
    assert_eq!(contrast(RED), WHITE);
    assert_eq!(contrast(BLACK), WHITE);
    assert_eq!(contrast(WHITE), BLACK);
    assert_eq!(contrast(Rgba { r: 255, g: 255, b: 0, a: 255 }), BLACK);
    // luma 127.9.. and 128.0..
    assert_eq!(contrast(Rgba { r: 128, g: 128, b: 127, a: 255 }), WHITE);
    assert_eq!(contrast(Rgba { r: 128, g: 128, b: 128, a: 0 }), BLACK);
}

#[test]
fn marker_is_a_disc_with_its_number_in_the_middle() {
    let base = blank(60, 60);
    let op = Operator::new(
        ToolType::Marker { center: px(30, 30), radius: 15 * UNIT, label_index: 0 },
        StrokeWidth::ONE,
        RED,
        Some(RED),
    );
    let out = render(&base, &vec![op.clone()], &Some(face()));
    // "0" is 4 wide and the line 4 high: its corner lies at (28, 28), its
    // baseline at 31, and the mask of '0' one row above
    assert_eq!(out.get_pixel(28, 30), Some(WHITE));
    assert_eq!(out.get_pixel(29, 30), Some(RED));
    assert_eq!(out.get_pixel(30, 20), Some(RED));
    assert_eq!(out.get_pixel(44, 30), Some(RED));
    assert_eq!(out.get_pixel(46, 30), Some(BLACK));
    assert_eq!(out.get_pixel(30, 47), Some(BLACK));
    let plain = render(&base, &vec![op], &None);
    assert_eq!(plain.get_pixel(28, 30), Some(RED));
    assert_eq!(changed(&plain, &out), 1);
}

#[test]
fn marker_number_has_as_many_digits_as_it_needs() {
    let mut canvas = blank(60, 60);
    let style = Operator::new(
        ToolType::Line { start: px(0, 0), end: px(0, 0) },
        StrokeWidth::ONE,
        RED,
        None,
    );
    draw_marker_on_image(&style, &mut canvas, &Some(face()), px(30, 30), 15 * UNIT, 10);
    // "10" is 6 wide: its corner lies at (27, 28); '1' is three rows high
    // above the baseline at 31, '0' follows two pixels on
    assert_eq!(canvas.get_pixel(27, 28), Some(RED));
    assert_eq!(canvas.get_pixel(27, 29), Some(RED));
    assert_eq!(canvas.get_pixel(27, 30), Some(RED));
    assert_eq!(canvas.get_pixel(29, 30), Some(RED));
    assert_eq!(canvas.get_pixel(27, 31), Some(BLACK));
    assert_eq!(canvas.get_pixel(30, 30), Some(BLACK));
    // the ring of the unfilled disc reaches from 14.5 to 15.5 from the
    // centre: it holds the samples at 44.75 and at 45.25
    assert_eq!(canvas.get_pixel(44, 30), Some(Rgba { r: 127, g: 0, b: 0, a: 255 }));
    assert_eq!(canvas.get_pixel(45, 30), Some(Rgba { r: 127, g: 0, b: 0, a: 255 }));
    assert_eq!(canvas.get_pixel(40, 30), Some(BLACK));
}
