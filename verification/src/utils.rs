//! The view transform between image space and screen space.
//!
//! Image space counts coordinate units, 1024 to the pixel.  Screen space
//! counts screen units, 2^30 to the pixel: fine enough for the way from an
//! image point to the screen and back to be exact at every zoom factor and
//! display scale in range.

use crate::fixed::{
    ceil_div, ceil_div_spec, clamp, clamp_coord, clamp_coord_spec, clamp_screen,
    clamp_screen_spec, floor_div, in_coord_range, in_screen_range, lemma_floor_bounds, COORD_MAX,
    SCREEN_PER_UNIT,
};
use crate::geometry::Point;
use vstd::prelude::*;

verus! {

/// The zoom factor one: what is drawn at the size of the display image.
pub const ZOOM_ONE: u32 = 1_000_000;

/// The smallest zoom factor, 0.05.
pub const ZOOM_MIN: u32 = 50_000;

/// The largest zoom factor, 20.
pub const ZOOM_MAX: u32 = 20_000_000;

/// The largest factor by which a picture is shrunk for display: 2^15.
pub const SHRINK_MAX: u32 = 32_768;

/// The factor by which a picture is shrunk for display: `num / den`, at
/// most one and at least one in `SHRINK_MAX`.
#[derive(Clone, Copy, Debug, PartialEq, Eq, Structural)]
pub struct DisplayScale {
    pub num: u32,
    pub den: u32,
}

impl DisplayScale {
    pub open spec fn wf(self) -> bool {
        1 <= self.num <= self.den <= SHRINK_MAX * self.num
    }

    /// The scale one: the picture is displayed as it is.
    pub fn one() -> (s: DisplayScale)
        ensures
            s.wf(),
            s == (DisplayScale { num: 1, den: 1 }),
    {
        DisplayScale { num: 1, den: 1 }
    }

    pub fn is_valid(&self) -> (ok: bool)
        ensures
            ok == self.wf(),
    {
        assert(SHRINK_MAX * self.num <= 32_768 * 0xFFFF_FFFF) by (nonlinear_arith)
            requires
                0 <= self.num <= 0xFFFF_FFFF,
        ;
        let most: u64 = (SHRINK_MAX as u64) * (self.num as u64);
        1 <= self.num && self.num <= self.den && self.den as u64 <= most
    }
}

/// An axis-parallel rectangle between two corners.
#[derive(Clone, Copy, Debug, PartialEq, Eq, Structural)]
pub struct Rect {
    pub min: Point,
    pub max: Point,
}

/// The screen point `(x, y)`, each coordinate confined to the range of
/// screen coordinates.
pub open spec fn screen_point_at(x: int, y: int) -> Point {
    Point { x: clamp_screen_spec(x) as i64, y: clamp_screen_spec(y) as i64 }
}

/// The view of one frame: where the image's top left corner lies on the
/// screen, the size of the display image on the screen at zoom one, the zoom
/// factor in millionths, and the display scale.
#[derive(Debug, Clone, Copy, PartialEq, Eq, Structural)]
pub struct AppHelper {
    pub image_rect_min: Point,
    pub image_size: Point,
    pub zoom: u32,
    pub display_scale: DisplayScale,
}

impl AppHelper {
    /// The zoom factor lies in its range and the display scale in its own.
    pub open spec fn wf(self) -> bool {
        ZOOM_MIN <= self.zoom <= ZOOM_MAX && self.display_scale.wf()
    }

    pub fn is_valid(&self) -> (ok: bool)
        ensures
            ok == self.wf(),
    {
        ZOOM_MIN <= self.zoom && self.zoom <= ZOOM_MAX && self.display_scale.is_valid()
    }

    /// The numerator of the number of screen units to the coordinate unit:
    /// zoom times display scale times `SCREEN_PER_UNIT`.
    pub open spec fn scale_num(self) -> int {
        (self.zoom * self.display_scale.num) * SCREEN_PER_UNIT
    }

    /// The denominator of the number of screen units to the coordinate
    /// unit.
    pub open spec fn scale_den(self) -> int {
        ZOOM_ONE * self.display_scale.den
    }

    /// One screen coordinate of an image coordinate: the origin plus the
    /// coordinate times the effective scale, in screen units, rounded down
    /// and confined to the range of screen coordinates.
    pub open spec fn to_screen_axis(self, origin: int, p: int) -> int {
        clamp_screen_spec(origin + (p * self.scale_num()) / self.scale_den())
    }

    /// One image coordinate of a screen coordinate: its distance from the
    /// origin divided by the effective scale, in coordinate units, rounded
    /// up and confined to the coordinate range.
    pub open spec fn to_image_axis(self, origin: int, s: int) -> int {
        clamp_coord_spec(ceil_div_spec((s - origin) * self.scale_den(), self.scale_num()))
    }

    /// The screen point of an image point.
    pub open spec fn to_screen(self, p: Point) -> Point {
        Point {
            x: self.to_screen_axis(self.image_rect_min.x as int, p.x as int) as i64,
            y: self.to_screen_axis(self.image_rect_min.y as int, p.y as int) as i64,
        }
    }

    /// The image point of a screen point, the image's corner being at
    /// `origin`.
    pub open spec fn to_image_from(self, origin: Point, s: Point) -> Point {
        Point {
            x: self.to_image_axis(origin.x as int, s.x as int) as i64,
            y: self.to_image_axis(origin.y as int, s.y as int) as i64,
        }
    }

    /// The image point of a screen point.
    pub open spec fn to_image(self, s: Point) -> Point {
        self.to_image_from(self.image_rect_min, s)
    }

    /// The corner from which `screen_to_image` measures: that of the
    /// rectangle given, or else the helper's own.
    pub open spec fn origin_of(self, image_rect: Option<Rect>) -> Point {
        match image_rect {
            Some(r) => r.min,
            None => self.image_rect_min,
        }
    }

    /// The size of the display image at the current zoom, in each direction:
    /// rounded down and confined to the range of screen coordinates.
    pub open spec fn zoomed_extent(self, size: int) -> int {
        clamp_screen_spec((size * self.zoom) / (ZOOM_ONE as int))
    }

    /// The rectangle that the image takes up on the screen: from its corner
    /// to its corner plus its size at the current zoom.
    pub open spec fn image_rect(self) -> Rect {
        Rect {
            min: self.image_rect_min,
            max: screen_point_at(
                self.image_rect_min.x + self.zoomed_extent(self.image_size.x as int),
                self.image_rect_min.y + self.zoomed_extent(self.image_size.y as int),
            ),
        }
    }

    pub fn new(image_rect_min: Point, image_size: Point, zoom: u32, display_scale: DisplayScale) -> (h:
        AppHelper)
        ensures
            h == (AppHelper { image_rect_min, image_size, zoom, display_scale }),
    {
        AppHelper { image_rect_min, image_size, zoom, display_scale }
    }

    fn scale(&self) -> (r: (i128, i128))
        requires
            self.wf(),
        ensures
            r.0 == self.scale_num(),
            r.1 == self.scale_den(),
            0 < r.1 <= r.0,
            r.1 <= 1_000_000 * 0xFFFF_FFFF,
            r.0 <= 20_971_520 * r.1,
            r.0 <= (20_000_000 * 0xFFFF_FFFF) * 0x10_0000,
    {
        let z: i128 = self.zoom as i128;
        let n: i128 = self.display_scale.num as i128;
        let d: i128 = self.display_scale.den as i128;
        assert(0 < z * n <= 20_000_000 * 0xFFFF_FFFF) by (nonlinear_arith)
            requires
                50_000 <= z <= 20_000_000,
                1 <= n <= 0xFFFF_FFFF,
        ;
        assert(0 < 1_000_000 * d <= 1_000_000 * 0xFFFF_FFFF) by (nonlinear_arith)
            requires
                1 <= d <= 0xFFFF_FFFF,
        ;
        let zn: i128 = z * n;
        assert(zn <= 20 * (1_000_000 * d)) by (nonlinear_arith)
            requires
                zn == z * n,
                0 <= z <= 20_000_000,
                1 <= n <= d,
        ;
        assert(1_000_000 * d <= zn * 0x10_0000) by (nonlinear_arith)
            requires
                zn == z * n,
                z >= 50_000,
                1 <= n,
                d <= 32_768 * n,
        ;
        assert(zn * 0x10_0000 <= (20_000_000 * 0xFFFF_FFFF) * 0x10_0000) by (nonlinear_arith)
            requires
                zn <= 20_000_000 * 0xFFFF_FFFF,
        ;
        (zn * (SCREEN_PER_UNIT as i128), (ZOOM_ONE as i128) * d)
    }

    /// The rectangle that the image takes up on the screen.
    pub fn get_image_rect(&self) -> (r: Rect)
        requires
            self.wf(),
        ensures
            r == self.image_rect(),
    {
        let z: i128 = self.zoom as i128;
        let sx: i128 = self.image_size.x as i128;
        let sy: i128 = self.image_size.y as i128;
        assert(-0x8000_0000_0000_0000 * 20_000_000 <= sx * z <= 0x8000_0000_0000_0000 * 20_000_000)
            by (nonlinear_arith)
            requires
                -0x8000_0000_0000_0000 <= sx <= 0x8000_0000_0000_0000,
                0 <= z <= 20_000_000,
        ;
        assert(-0x8000_0000_0000_0000 * 20_000_000 <= sy * z <= 0x8000_0000_0000_0000 * 20_000_000)
            by (nonlinear_arith)
            requires
                -0x8000_0000_0000_0000 <= sy <= 0x8000_0000_0000_0000,
                0 <= z <= 20_000_000,
        ;
        let w: i64 = clamp_screen(floor_div(sx * z, ZOOM_ONE as i128));
        let h: i64 = clamp_screen(floor_div(sy * z, ZOOM_ONE as i128));
        Rect {
            min: self.image_rect_min,
            max: Point {
                x: clamp_screen(self.image_rect_min.x as i128 + w as i128),
                y: clamp_screen(self.image_rect_min.y as i128 + h as i128),
            },
        }
    }

    fn axis_to_image(&self, origin: i64, s: i64) -> (p: i64)
        requires
            self.wf(),
        ensures
            p == self.to_image_axis(origin as int, s as int),
            in_coord_range(p as int),
    {
        let sc: (i128, i128) = self.scale();
        let d: i128 = s as i128 - origin as i128;
        assert(-0x1_0000_0000_0000_0000 * (1_000_000 * 0xFFFF_FFFF) <= d * sc.1
            <= 0x1_0000_0000_0000_0000 * (1_000_000 * 0xFFFF_FFFF)) by (nonlinear_arith)
            requires
                -0x1_0000_0000_0000_0000 <= d <= 0x1_0000_0000_0000_0000,
                0 < sc.1 <= 1_000_000 * 0xFFFF_FFFF,
        ;
        clamp_coord(ceil_div(d * sc.1, sc.0))
    }

    /// How far from the corner of the image an image coordinate appears on
    /// the screen.
    fn axis_offset(&self, p: i64) -> (d: i128)
        requires
            self.wf(),
            in_coord_range(p as int),
        ensures
            d == (p * self.scale_num()) / self.scale_den(),
            -20_971_520 * COORD_MAX - 1 <= d <= 20_971_520 * COORD_MAX,
    {
        let sc: (i128, i128) = self.scale();
        let v: i128 = p as i128;
        assert(-0x4000_0000 * ((20_000_000 * 0xFFFF_FFFF) * 0x10_0000) <= v * sc.0 <= 0x4000_0000
            * ((20_000_000 * 0xFFFF_FFFF) * 0x10_0000)) by (nonlinear_arith)
            requires
                -0x4000_0000 <= v <= 0x4000_0000,
                0 < sc.0 <= (20_000_000 * 0xFFFF_FFFF) * 0x10_0000,
        ;
        let q: i128 = floor_div(v * sc.0, sc.1);
        proof {
            lemma_floor_bounds(v * sc.0, sc.1 as int);
            assert(q <= 20_971_520 * 0x4000_0000) by (nonlinear_arith)
                requires
                    sc.1 * q <= v * sc.0,
                    sc.0 <= 20_971_520 * sc.1,
                    sc.0 > 0,
                    sc.1 > 0,
                    v <= 0x4000_0000,
            ;
            assert(q >= -20_971_520 * 0x4000_0000 - 1) by (nonlinear_arith)
                requires
                    v * sc.0 < sc.1 * q + sc.1,
                    sc.0 <= 20_971_520 * sc.1,
                    sc.0 > 0,
                    sc.1 > 0,
                    v >= -0x4000_0000,
            ;
        }
        q
    }

    fn axis_to_screen(&self, origin: i64, p: i64) -> (s: i64)
        requires
            self.wf(),
            in_coord_range(p as int),
        ensures
            s == self.to_screen_axis(origin as int, p as int),
            in_screen_range(s as int),
    {
        let q: i128 = self.axis_offset(p);
        clamp_screen(origin as i128 + q)
    }

    /// The image point under a screen point.  The image's corner is taken
    /// from `image_rect` where one is given.
    pub fn screen_to_image(&self, pos: Point, image_rect: Option<Rect>) -> (p: Point)
        requires
            self.wf(),
        ensures
            p == self.to_image_from(self.origin_of(image_rect), pos),
            p.wf(),
    {
        let origin: Point = match image_rect {
            Some(r) => r.min,
            None => self.image_rect_min,
        };
        Point { x: self.axis_to_image(origin.x, pos.x), y: self.axis_to_image(origin.y, pos.y) }
    }

    /// The screen point of an image point.
    pub fn image_to_screen(&self, pos: Point) -> (s: Point)
        requires
            self.wf(),
            pos.wf(),
        ensures
            s == self.to_screen(pos),
            s.on_screen(),
    {
        Point {
            x: self.axis_to_screen(self.image_rect_min.x, pos.x),
            y: self.axis_to_screen(self.image_rect_min.y, pos.y),
        }
    }

    /// A length of image space as it appears on the screen: times the
    /// effective scale, in screen units, rounded down.
    pub open spec fn to_screen_length(self, len: int) -> int {
        (len * self.scale_num()) / self.scale_den()
    }

    /// A length of image space as it appears on the screen.
    pub fn scale_length(&self, len: i64) -> (out: i64)
        requires
            self.wf(),
            0 <= len <= COORD_MAX,
        ensures
            out == self.to_screen_length(len as int),
            0 <= out <= 20_971_520 * COORD_MAX,
    {
        let q: i128 = self.axis_offset(len);
        proof {
            let n = self.scale_num();
            let d = self.scale_den();
            lemma_unit_shows(*self);
            lemma_floor_bounds(len * n, d);
            assert(q >= 0) by (nonlinear_arith)
                requires
                    len * n < d * q + d,
                    len >= 0,
                    n > 0,
                    d > 0,
            ;
        }
        q as i64
    }
}

/// The zoom factor `zoom` multiplied by `factor`, both in millionths, and
/// confined to the range of zoom factors.
pub open spec fn zoom_times(zoom: u32, factor: u32) -> int {
    clamp((zoom * factor) / (ZOOM_ONE as int), ZOOM_MIN as int, ZOOM_MAX as int)
}

/// The zoom factor `zoom` multiplied by `factor`, confined to the range of
/// zoom factors.
pub fn scaled_zoom(zoom: u32, factor: u32) -> (z: u32)
    ensures
        z == zoom_times(zoom, factor),
        ZOOM_MIN <= z <= ZOOM_MAX,
{
    assert(0 <= zoom * factor <= 0xFFFF_FFFF * 0xFFFF_FFFF) by (nonlinear_arith)
        requires
            0 <= zoom <= 0xFFFF_FFFF,
            0 <= factor <= 0xFFFF_FFFF,
    ;
    let wide: u64 = (zoom as u64) * (factor as u64);
    let q: u64 = wide / (ZOOM_ONE as u64);
    if q < ZOOM_MIN as u64 {
        ZOOM_MIN
    } else if q > ZOOM_MAX as u64 {
        ZOOM_MAX
    } else {
        q as u32
    }
}

impl AppHelper {
    /// Where the image's corner has to lie, along one axis, for the image
    /// coordinate now under the screen coordinate `s` to appear at `s` again
    /// at the zoom factor `zoom`.
    pub open spec fn anchored_axis(self, zoom: u32, origin: int, s: int) -> int {
        clamp_screen_spec(self.anchor_axis(zoom, origin, s))
    }

    /// The same before it is confined to the range of screen coordinates:
    /// the screen coordinate less what the image coordinate under it comes
    /// to at the zoom factor `zoom`.
    pub open spec fn anchor_axis(self, zoom: u32, origin: int, s: int) -> int {
        let p = self.to_image_axis(origin, s);
        s - (p * (AppHelper { zoom, ..self }).scale_num()) / self.scale_den()
    }

    /// The view at the zoom factor `zoom`, with the image point under
    /// `cursor` held in place.
    pub open spec fn zoomed_about(self, cursor: Point, zoom: u32) -> AppHelper {
        AppHelper {
            image_rect_min: Point {
                x: self.anchored_axis(zoom, self.image_rect_min.x as int, cursor.x as int) as i64,
                y: self.anchored_axis(zoom, self.image_rect_min.y as int, cursor.y as int) as i64,
            },
            zoom,
            ..self
        }
    }

    /// The view at the zoom factor `zoom`, with the image point under
    /// `cursor` held in place.
    pub fn zoom_about(&self, cursor: Point, zoom: u32) -> (h: AppHelper)
        requires
            self.wf(),
            ZOOM_MIN <= zoom <= ZOOM_MAX,
        ensures
            h == self.zoomed_about(cursor, zoom),
            h.wf(),
            h.image_rect_min.on_screen(),
    {
        let next = AppHelper { zoom, ..*self };
        let px: i64 = self.axis_to_image(self.image_rect_min.x, cursor.x);
        let py: i64 = self.axis_to_image(self.image_rect_min.y, cursor.y);
        let ox: i128 = next.axis_offset(px);
        let oy: i128 = next.axis_offset(py);
        AppHelper {
            image_rect_min: Point {
                x: clamp_screen(cursor.x as i128 - ox),
                y: clamp_screen(cursor.y as i128 - oy),
            },
            zoom,
            ..*self
        }
    }
}

/// At every zoom factor and display scale in range a coordinate unit of the
/// image is at least a screen unit.
pub proof fn lemma_unit_shows(h: AppHelper)
    requires
        h.wf(),
    ensures
        0 < h.scale_den() <= h.scale_num(),
{
    let z = h.zoom as int;
    let n = h.display_scale.num as int;
    let d = h.display_scale.den as int;
    let zn = z * n;
    assert(0 < 1_000_000 * d) by (nonlinear_arith)
        requires
            d >= 1,
    ;
    assert(1_000_000 * d <= zn * 0x10_0000) by (nonlinear_arith)
        requires
            zn == z * n,
            z >= 50_000,
            1 <= n,
            d <= 32_768 * n,
    ;
}

/// Along one axis, an image coordinate that is carried to the screen and
/// back comes out as it went in.  The screen coordinate must lie in the
/// range of screen coordinates.
pub proof fn lemma_round_trip_axis(h: AppHelper, origin: int, p: int)
    requires
        h.wf(),
        in_coord_range(p),
        in_screen_range(origin + (p * h.scale_num()) / h.scale_den()),
    ensures
        h.to_image_axis(origin, h.to_screen_axis(origin, p)) == p,
{
    let n = h.scale_num();
    let d = h.scale_den();
    lemma_unit_shows(h);
    let f = (p * n) / d;
    lemma_floor_bounds(p * n, d);
    let s = h.to_screen_axis(origin, p);
    assert(s == origin + f);
    let back = (s - origin) * d;
    assert(back == f * d);
    let g = (-back) / n;
    lemma_floor_bounds(-back, n);
    let q0 = ceil_div_spec(back, n);
    assert(q0 == -g);
    assert(q0 <= p) by (nonlinear_arith)
        requires
            -(f * d) < n * g + n,
            q0 == -g,
            d * f <= p * n,
            n > 0,
    ;
    assert((p - q0) * n < d) by (nonlinear_arith)
        requires
            n * g <= -(f * d),
            q0 == -g,
            p * n < d * f + d,
    ;
    assert(q0 == p) by (nonlinear_arith)
        requires
            (p - q0) * n < d,
            n >= d,
            q0 <= p,
            d > 0,
    ;
}

/// An image point that is carried to the screen and back comes out where
/// it went in, at every zoom factor and display scale in range.  The screen
/// point must lie in the range of screen coordinates.
pub proof fn lemma_round_trip(h: AppHelper, p: Point)
    requires
        h.wf(),
        p.wf(),
        in_screen_range(h.image_rect_min.x + (p.x * h.scale_num()) / h.scale_den()),
        in_screen_range(h.image_rect_min.y + (p.y * h.scale_num()) / h.scale_den()),
    ensures
        h.to_image(h.to_screen(p)) == p,
{
    lemma_round_trip_axis(h, h.image_rect_min.x as int, p.x as int);
    lemma_round_trip_axis(h, h.image_rect_min.y as int, p.y as int);
}

/// Zooming about a screen point keeps the image point under it in place:
/// after the zoom that image point appears at the same screen point, and
/// the image point found under the screen point is the same, at every zoom
/// factor in range before and after.  The cursor, and the image's corner
/// after the zoom, must lie in the range of screen coordinates.
pub proof fn lemma_zoom_keeps_anchor(h: AppHelper, cursor: Point, zoom: u32)
    requires
        h.wf(),
        cursor.on_screen(),
        ZOOM_MIN <= zoom <= ZOOM_MAX,
        in_screen_range(h.anchor_axis(zoom, h.image_rect_min.x as int, cursor.x as int)),
        in_screen_range(h.anchor_axis(zoom, h.image_rect_min.y as int, cursor.y as int)),
    ensures
        h.zoomed_about(cursor, zoom).wf(),
        h.zoomed_about(cursor, zoom).to_screen(h.to_image(cursor)) == cursor,
        h.zoomed_about(cursor, zoom).to_image(cursor) == h.to_image(cursor),
{
    let after = h.zoomed_about(cursor, zoom);
    let before = h.to_image(cursor);
    assert(after.scale_num() == (AppHelper { zoom, ..h }).scale_num());
    assert(after.scale_den() == h.scale_den());
    assert(after.to_screen(before) == cursor);
    lemma_round_trip_axis(after, after.image_rect_min.x as int, before.x as int);
    lemma_round_trip_axis(after, after.image_rect_min.y as int, before.y as int);
}

} // verus!
