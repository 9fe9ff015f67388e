use annotator::color::{blend_pixel, coverage_to_alpha, Rgba};
use annotator::fixed::{ceil_div, clamp_coord, floor_div, isqrt, COORD_MAX, ROOT_MAX, UNIT};
use annotator::geometry::{all_valid, Point};

#[test]
fn floor_division_rounds_down() {
    assert_eq!(floor_div(7, 2), 3);
    assert_eq!(floor_div(-7, 2), -4);
    assert_eq!(floor_div(-8, 2), -4);
    assert_eq!(floor_div(-1, 1024), -1);
    assert_eq!(floor_div(0, 5), 0);
    assert_eq!(floor_div(i128::MIN, 1), i128::MIN);
}

#[test]
fn ceiling_division_rounds_up() {
    assert_eq!(ceil_div(7, 2), 4);
    assert_eq!(ceil_div(-7, 2), -3);
    assert_eq!(ceil_div(8, 2), 4);
    assert_eq!(ceil_div(1, 1024), 1);
    assert_eq!(ceil_div(0, 5), 0);
}

#[test]
fn integer_square_root_is_the_floor() {
    assert_eq!(isqrt(0), 0);
    assert_eq!(isqrt(1), 1);
    assert_eq!(isqrt(3), 1);
    assert_eq!(isqrt(4), 2);
    assert_eq!(isqrt(24), 4);
    assert_eq!(isqrt(25), 5);
    assert_eq!(isqrt(1 << 62), 1 << 31);
    assert_eq!(isqrt(u64::MAX as u128), 0xFFFF_FFFF);
    // the root of two, thirty bits below the unit
    assert_eq!(isqrt(2 << 60), 1_518_500_249);
    assert_eq!(isqrt(ROOT_MAX), (1 << 63) - 1);
    assert_eq!(isqrt((1 << 124) - 1), (1 << 62) - 1);
}

#[test]
fn coordinates_are_confined_to_their_range() {
    assert_eq!(clamp_coord(5), 5);
    assert_eq!(clamp_coord(COORD_MAX as i128 + 1), COORD_MAX);
    assert_eq!(clamp_coord(-(COORD_MAX as i128) - 7), -COORD_MAX);
    assert_eq!(Point::new(i64::MAX, i64::MIN), Point { x: COORD_MAX, y: -COORD_MAX });
    assert_eq!(Point::from_pixels(3, -2), Point { x: 3 * UNIT, y: -2 * UNIT });
    assert_eq!(Point::from_pixels(i32::MAX, 0), Point { x: COORD_MAX, y: 0 });
    assert!(Point { x: COORD_MAX, y: 0 }.is_valid());
    assert!(!Point { x: COORD_MAX + 1, y: 0 }.is_valid());
    assert!(all_valid(&vec![Point { x: 1, y: 2 }]));
    assert!(!all_valid(&vec![Point { x: 1, y: 2 }, Point { x: 0, y: i64::MIN }]));
    assert!(all_valid(&Vec::new()));
}

#[test]
fn blending_follows_the_alpha_over_rule() {
    let dst = Rgba { r: 10, g: 200, b: 0, a: 7 };
    let src = Rgba { r: 250, g: 100, b: 255, a: 9 };
    assert_eq!(blend_pixel(dst, src, 255), Rgba { r: 250, g: 100, b: 255, a: 255 });
    assert_eq!(blend_pixel(dst, src, 0), Rgba { r: 10, g: 200, b: 0, a: 255 });
    // (250 * 127 + 10 * 128) / 255 = 33030 / 255 = 129.5..
    // (100 * 127 + 200 * 128) / 255 = 38300 / 255 = 150.1..
    // (255 * 127 + 0) / 255 = 127
    assert_eq!(blend_pixel(dst, src, 127), Rgba { r: 129, g: 150, b: 127, a: 255 });
    let white = Rgba::rgb(255, 255, 255);
    assert_eq!(blend_pixel(white, white, 63), white);
}

#[test]
fn coverage_maps_to_quarters_of_full_opacity() {
    assert_eq!(coverage_to_alpha(0), 0);
    assert_eq!(coverage_to_alpha(1), 63);
    assert_eq!(coverage_to_alpha(2), 127);
    assert_eq!(coverage_to_alpha(3), 191);
    assert_eq!(coverage_to_alpha(4), 255);
}

#[test]
fn colours_know_whether_they_show() {
    assert!(Rgba::new(1, 2, 3, 0).is_transparent());
    assert!(!Rgba::new(1, 2, 3, 1).is_transparent());
    assert_eq!(Rgba::rgb(1, 2, 3), Rgba { r: 1, g: 2, b: 3, a: 255 });
}
