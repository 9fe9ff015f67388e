//! The state of the view: how far the picture is shrunk for display, the
//! zoom factor, and how far the picture has been moved.

use crate::canvas::Canvas;
use crate::fixed::{
    clamp, clamp_screen, floor_div, in_screen_range, lemma_floor_bounds, max_int, min_int,
};
use crate::geometry::Point;
use crate::utils::{
    scaled_zoom, screen_point_at, zoom_times, AppHelper, DisplayScale, Rect, ZOOM_MAX, ZOOM_MIN,
    ZOOM_ONE,
};
use vstd::prelude::*;

verus! {

/// The largest width and height at which a picture is displayed.
pub const MAX_DISPLAY: u32 = 2048;

/// The scale at which a picture of `width` by `height` pixels is displayed:
/// one, unless a side exceeds `MAX_DISPLAY`; then the scale that brings the
/// longer side down to it.
pub open spec fn display_scale_spec(width: u32, height: u32) -> DisplayScale {
    if width > MAX_DISPLAY || height > MAX_DISPLAY {
        DisplayScale { num: MAX_DISPLAY, den: max_int(width as int, height as int) as u32 }
    } else {
        DisplayScale { num: 1, den: 1 }
    }
}

/// The largest side of a picture whose display scale is in range: 2^26
/// pixels.
pub const SIDE_MAX: u32 = 67_108_864;

/// The scale at which a picture of `width` by `height` pixels is displayed.
/// It is in range for every picture whose sides are at most `SIDE_MAX`.
pub fn display_scale_for(width: u32, height: u32) -> (s: DisplayScale)
    ensures
        s == display_scale_spec(width, height),
        width <= SIDE_MAX && height <= SIDE_MAX ==> s.wf(),
{
    if width > MAX_DISPLAY || height > MAX_DISPLAY {
        DisplayScale { num: MAX_DISPLAY, den: if width >= height { width } else { height } }
    } else {
        DisplayScale { num: 1, den: 1 }
    }
}

/// A side of `len` pixels at the display scale, rounded down.
pub open spec fn display_extent(len: u32, s: DisplayScale) -> int {
    (len * s.num) / (s.den as int)
}

/// A side of `len` pixels at the display scale, rounded down.
pub fn display_side(len: u32, s: DisplayScale) -> (out: u32)
    requires
        s.wf(),
    ensures
        out == display_extent(len, s),
        out <= len,
{
    assert(0 <= len * s.num <= 0xFFFF_FFFF * 0xFFFF_FFFF) by (nonlinear_arith)
        requires
            0 <= len <= 0xFFFF_FFFF,
            0 <= s.num <= 0xFFFF_FFFF,
    ;
    let wide: u64 = (len as u64) * (s.num as u64);
    let q: u64 = wide / (s.den as u64);
    proof {
        lemma_floor_bounds(wide as int, s.den as int);
        assert(q <= len) by (nonlinear_arith)
            requires
                s.den * q <= len * s.num,
                1 <= s.num <= s.den,
                len >= 0,
                q >= 0,
        ;
    }
    q as u32
}

/// The picture as it is displayed, and the scale at which it is: the
/// picture itself at scale one, and else a resampled one whose sides are the
/// picture's at the display scale, rounded down.
pub fn scale_color_image(img: &Canvas) -> (r: (Canvas, DisplayScale))
    requires
        img.wf(),
    ensures
        r.1 == display_scale_spec(img.cols() as u32, img.rows() as u32),
        r.0.wf(),
        r.0.cols() == display_extent(img.cols() as u32, r.1),
        r.0.rows() == display_extent(img.rows() as u32, r.1),
        r.1.num == r.1.den ==> r.0.same_pixels(*img),
{
    let w: u32 = img.width();
    let h: u32 = img.height();
    let scale: DisplayScale = display_scale_for(w, h);
    assert(scale.wf());
    if scale.num < scale.den {
        let nw: u32 = display_side(w, scale);
        let nh: u32 = display_side(h, scale);
        (img.raw_resize(nw, nh), scale)
    } else {
        let copy: Canvas = img.raw_clone();
        assert(w * 1 / 1 == w && h * 1 / 1 == h);
        (copy, scale)
    }
}

/// The state of the view.  Positions and sizes are in screen space.
#[derive(Debug, Clone, Copy, PartialEq, Eq, Structural)]
pub struct Viewport {
    /// The rectangle that the picture took up when it was last laid out.
    pub last_image_rect: Option<Rect>,
    pub display_scale: DisplayScale,
    /// The zoom factor, in millionths.
    pub zoom: u32,
    /// How far the picture's corner lies from the corner of the panel.
    pub pan: Point,
    /// The size of the display image.
    pub image_size: Point,
}

/// Half of what is left when `inner` is taken from `outer`.
pub open spec fn centred(outer: int, inner: int) -> int {
    (outer - inner) / 2
}

impl Viewport {
    /// The zoom factor lies in its range and the display scale is at most
    /// one.
    pub open spec fn wf(self) -> bool {
        ZOOM_MIN <= self.zoom <= ZOOM_MAX && self.display_scale.wf()
    }

    pub fn is_valid(&self) -> (ok: bool)
        ensures
            ok == self.wf(),
    {
        ZOOM_MIN <= self.zoom && self.zoom <= ZOOM_MAX && self.display_scale.is_valid()
    }

    /// The view of a display image of the given size at zoom one, not moved
    /// and not yet laid out.
    pub fn new(image_size: Point, display_scale: DisplayScale) -> (v: Viewport)
        requires
            display_scale.wf(),
        ensures
            v.wf(),
            v == (Viewport {
                last_image_rect: None,
                display_scale,
                zoom: ZOOM_ONE,
                pan: Point { x: 0, y: 0 },
                image_size,
            }),
    {
        Viewport {
            last_image_rect: None,
            display_scale,
            zoom: ZOOM_ONE,
            pan: Point { x: 0, y: 0 },
            image_size,
        }
    }

    /// The corner of the picture as it was last laid out; the origin before
    /// the first layout.
    pub open spec fn origin(self) -> Point {
        match self.last_image_rect {
            Some(r) => r.min,
            None => Point { x: 0, y: 0 },
        }
    }

    /// The transform of the view as it was last laid out.
    pub open spec fn helper(self) -> AppHelper {
        AppHelper {
            image_rect_min: self.origin(),
            image_size: self.image_size,
            zoom: self.zoom,
            display_scale: self.display_scale,
        }
    }

    /// The view after a zoom by `factor`, in millionths, about the screen
    /// point `cursor`: the zoom factor is multiplied and confined to its
    /// range, and the picture is moved as far as its corner has to move to
    /// keep the image point under the cursor in place.
    pub open spec fn zoomed(self, cursor: Point, factor: u32) -> Viewport {
        let zoom = zoom_times(self.zoom, factor) as u32;
        let moved = self.helper().zoomed_about(cursor, zoom).image_rect_min;
        Viewport {
            zoom,
            pan: screen_point_at(
                self.pan.x + (moved.x - self.origin().x),
                self.pan.y + (moved.y - self.origin().y),
            ),
            ..self
        }
    }

    /// The view that shows the whole picture in the middle of a panel of the
    /// given size: the largest zoom factor in range at which the picture
    /// fits, and the picture centred.  A picture without area leaves the
    /// view as it is.
    pub open spec fn fitted(self, panel: Point) -> Viewport {
        if self.image_size.x > 0 && self.image_size.y > 0 {
            let zoom = clamp(
                min_int(
                    (panel.x * ZOOM_ONE) / (self.image_size.x as int),
                    (panel.y * ZOOM_ONE) / (self.image_size.y as int),
                ),
                ZOOM_MIN as int,
                ZOOM_MAX as int,
            );
            Viewport {
                zoom: zoom as u32,
                pan: screen_point_at(
                    centred(panel.x as int, (self.image_size.x * zoom) / (ZOOM_ONE as int)),
                    centred(panel.y as int, (self.image_size.y * zoom) / (ZOOM_ONE as int)),
                ),
                ..self
            }
        } else {
            self
        }
    }

    /// Lays the picture out in a panel whose corner is `available_min` and
    /// hands out the rectangle that it takes up.
    pub fn layout(&mut self, available_min: Point) -> (r: Rect)
        requires
            old(self).wf(),
        ensures
            final(self).last_image_rect == Some(r),
            *final(self) == old(self).laid_out(available_min),
    {
        let min: Point = Point {
            x: clamp_screen(available_min.x as i128 + self.pan.x as i128),
            y: clamp_screen(available_min.y as i128 + self.pan.y as i128),
        };
        let helper = AppHelper {
            image_rect_min: min,
            image_size: self.image_size,
            zoom: self.zoom,
            display_scale: self.display_scale,
        };
        let r: Rect = helper.get_image_rect();
        self.last_image_rect = Some(r);
        r
    }

    /// Zooms by `factor`, in millionths, about the screen point `cursor`.
    pub fn zoom_by(&mut self, cursor: Point, factor: u32)
        requires
            old(self).wf(),
        ensures
            *final(self) == old(self).zoomed(cursor, factor),
            final(self).wf(),
    {
        let helper: AppHelper = AppHelper::from_app(self);
        let zoom: u32 = scaled_zoom(self.zoom, factor);
        let moved: AppHelper = helper.zoom_about(cursor, zoom);
        let dx: i128 = moved.image_rect_min.x as i128 - helper.image_rect_min.x as i128;
        let dy: i128 = moved.image_rect_min.y as i128 - helper.image_rect_min.y as i128;
        self.zoom = zoom;
        self.pan = Point {
            x: clamp_screen(self.pan.x as i128 + dx),
            y: clamp_screen(self.pan.y as i128 + dy),
        };
    }

    /// Moves the picture by `delta`.
    pub fn pan_by(&mut self, delta: Point)
        ensures
            *final(self) == (Viewport {
                pan: screen_point_at(old(self).pan.x + delta.x, old(self).pan.y + delta.y),
                ..*old(self)
            }),
    {
        self.pan = Point {
            x: clamp_screen(self.pan.x as i128 + delta.x as i128),
            y: clamp_screen(self.pan.y as i128 + delta.y as i128),
        };
    }

    /// Shows the whole picture in the middle of a panel of the given size.
    pub fn reset_view(&mut self, panel: Point)
        requires
            old(self).wf(),
        ensures
            *final(self) == old(self).fitted(panel),
            final(self).wf(),
    {
        if self.image_size.x > 0 && self.image_size.y > 0 {
            let zx: i128 = fit_ratio(panel.x, self.image_size.x);
            let zy: i128 = fit_ratio(panel.y, self.image_size.y);
            let least: i128 = if zx <= zy { zx } else { zy };
            let zoom: u32 = if least < ZOOM_MIN as i128 {
                ZOOM_MIN
            } else if least > ZOOM_MAX as i128 {
                ZOOM_MAX
            } else {
                least as u32
            };
            let px: i128 = centre_of(panel.x, self.image_size.x, zoom);
            let py: i128 = centre_of(panel.y, self.image_size.y, zoom);
            self.zoom = zoom;
            self.pan = Point { x: clamp_screen(px), y: clamp_screen(py) };
        }
    }
}

/// The zoom factor, in millionths, at which `size` fills `panel`.
fn fit_ratio(panel: i64, size: i64) -> (z: i128)
    requires
        size > 0,
    ensures
        z == (panel * ZOOM_ONE) / (size as int),
{
    let wide: i128 = panel as i128;
    assert(-0x8000_0000_0000_0000 * 1_000_000 <= wide * 1_000_000 <= 0x8000_0000_0000_0000
        * 1_000_000) by (nonlinear_arith)
        requires
            -0x8000_0000_0000_0000 <= wide <= 0x8000_0000_0000_0000,
    ;
    floor_div(wide * (ZOOM_ONE as i128), size as i128)
}

/// Where `size` at the zoom factor `zoom` begins when it is centred in
/// `panel`.
fn centre_of(panel: i64, size: i64, zoom: u32) -> (c: i128)
    ensures
        c == centred(panel as int, (size * zoom) / (ZOOM_ONE as int)),
{
    assert(-0x8000_0000_0000_0000 * 0xFFFF_FFFF <= size * zoom <= 0x8000_0000_0000_0000
        * 0xFFFF_FFFF) by (nonlinear_arith)
        requires
            -0x8000_0000_0000_0000 <= size <= 0x8000_0000_0000_0000,
            0 <= zoom <= 0xFFFF_FFFF,
    ;
    let shown: i128 = floor_div((size as i128) * (zoom as i128), ZOOM_ONE as i128);
    proof {
        lemma_floor_bounds(size * zoom, ZOOM_ONE as int);
    }
    floor_div(panel as i128 - shown, 2)
}

impl AppHelper {
    /// The transform of a view as it was last laid out.
    pub fn from_app(app: &Viewport) -> (h: AppHelper)
        ensures
            h == app.helper(),
    {
        AppHelper {
            image_rect_min: match app.last_image_rect {
                Some(r) => r.min,
                None => Point { x: 0, y: 0 },
            },
            image_size: app.image_size,
            zoom: app.zoom,
            display_scale: app.display_scale,
        }
    }
}

impl Viewport {
    /// The view as `layout` leaves it in a panel whose corner is
    /// `available_min`.
    pub open spec fn laid_out(self, available_min: Point) -> Viewport {
        Viewport {
            last_image_rect: Some(
                (AppHelper {
                    image_rect_min: screen_point_at(
                        available_min.x + self.pan.x,
                        available_min.y + self.pan.y,
                    ),
                    ..self.helper()
                }).image_rect(),
            ),
            ..self
        }
    }
}

/// A zoom about the cursor keeps the image point under the cursor in place,
/// at every zoom factor in range: once the view has been laid out again in
/// the same panel, the image point found under the cursor is the one that
/// lay there before.  The picture's corner must lie where that panel and
/// the view's pan put it, and the cursor, the corner after the zoom and
/// its distance from the panel's corner must lie in the range of screen
/// coordinates.
pub proof fn lemma_zoom_by_keeps_anchor(
    view: Viewport,
    available_min: Point,
    cursor: Point,
    factor: u32,
)
    requires
        view.wf(),
        cursor.on_screen(),
        view.origin().x == available_min.x + view.pan.x,
        view.origin().y == available_min.y + view.pan.y,
        in_screen_range(
            view.helper().anchor_axis(
                zoom_times(view.zoom, factor) as u32,
                view.origin().x as int,
                cursor.x as int,
            ),
        ),
        in_screen_range(
            view.helper().anchor_axis(
                zoom_times(view.zoom, factor) as u32,
                view.origin().y as int,
                cursor.y as int,
            ),
        ),
        in_screen_range(
            view.helper().anchor_axis(
                zoom_times(view.zoom, factor) as u32,
                view.origin().x as int,
                cursor.x as int,
            ) - available_min.x,
        ),
        in_screen_range(
            view.helper().anchor_axis(
                zoom_times(view.zoom, factor) as u32,
                view.origin().y as int,
                cursor.y as int,
            ) - available_min.y,
        ),
    ensures
        view.zoomed(cursor, factor).laid_out(available_min).helper().to_image(cursor)
            == view.helper().to_image(cursor),
        view.zoomed(cursor, factor).laid_out(available_min).helper().to_screen(
            view.helper().to_image(cursor),
        ) == cursor,
{
    let zoom = zoom_times(view.zoom, factor) as u32;
    let h = view.helper();
    let after = h.zoomed_about(cursor, zoom);
    let next = view.zoomed(cursor, factor).laid_out(available_min).helper();
    let moved = view.zoomed(cursor, factor);
    assert(after.image_rect_min.x == h.anchor_axis(zoom, h.image_rect_min.x as int, cursor.x as int));
    assert(after.image_rect_min.y == h.anchor_axis(zoom, h.image_rect_min.y as int, cursor.y as int));
    assert(moved.pan.x == after.image_rect_min.x - available_min.x);
    assert(moved.pan.y == after.image_rect_min.y - available_min.y);
    assert(next.image_rect_min == after.image_rect_min);
    assert(next == after);
    crate::utils::lemma_zoom_keeps_anchor(h, cursor, zoom);
}

} // verus!
