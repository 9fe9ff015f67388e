//! The pixel buffer that annotations are burnt into.
//!
//! The pixels are held by an `image::RgbaImage`.  Verus sees that buffer only
//! through the functions below whose names begin with `raw_`: their
//! contracts are taken on trust from the `image` and `imageproc` crates.

use crate::color::Rgba;
use crate::fixed::{max_int, min_int};
use vstd::prelude::*;

verus! {

/// Largest width and height of a canvas, in pixels: the coordinate range.
pub const MAX_DIM: u32 = 1_048_576;

/// Largest magnitude of a pixel coordinate handed to the line drawer.
pub const MAX_PIXEL: i32 = 16_777_216;

/// An owned RGBA pixel buffer.  What it holds is known to the proofs as
/// `canvas_rows` and `canvas_width`.
#[verifier::external_body]
pub struct Canvas {
    img: image::RgbaImage,
}

/// The rows of a canvas, top to bottom; each row left to right.
pub uninterp spec fn canvas_rows(c: Canvas) -> Seq<Seq<Rgba>>;

/// The number of pixels in each row of a canvas.
pub uninterp spec fn canvas_width(c: Canvas) -> nat;

/// Whether pixel `(x, y)` lies on the axis-parallel segment between the
/// pixels `(x0, y0)` and `(x1, y1)`.
pub open spec fn on_axis_segment(x: int, y: int, x0: int, y0: int, x1: int, y1: int) -> bool {
    min_int(x0, x1) <= x <= max_int(x0, x1) && min_int(y0, y1) <= y <= max_int(y0, y1)
}

impl Canvas {
    /// The number of columns.
    pub open spec fn cols(self) -> nat {
        canvas_width(self)
    }

    /// The number of rows.
    pub open spec fn rows(self) -> nat {
        canvas_rows(self).len()
    }

    /// The pixel in column `x` of row `y`.
    pub open spec fn px(self, x: int, y: int) -> Rgba {
        canvas_rows(self)[y][x]
    }

    /// Whether `(x, y)` names a pixel of the canvas.
    pub open spec fn contains(self, x: int, y: int) -> bool {
        0 <= x < self.cols() && 0 <= y < self.rows()
    }

    /// Every row has the canvas's width, and neither dimension exceeds
    /// `MAX_DIM`.
    pub open spec fn wf(self) -> bool {
        &&& self.cols() <= MAX_DIM
        &&& self.rows() <= MAX_DIM
        &&& forall|y: int| 0 <= y < self.rows() ==> (#[trigger] canvas_rows(self)[y]).len() == self.cols()
    }

    /// The two canvases have the same dimensions.
    pub open spec fn same_shape(self, other: Canvas) -> bool {
        &&& self.cols() == other.cols()
        &&& self.rows() == other.rows()
        &&& self.wf() == other.wf()
    }

    /// The two canvases have the same dimensions and the same pixels.
    pub open spec fn same_pixels(self, other: Canvas) -> bool {
        &&& self.same_shape(other)
        &&& forall|x: int, y: int|
            self.contains(x, y) ==> #[trigger] self.px(x, y) == other.px(x, y)
    }

    /// `image::ImageBuffer::from_raw` on a byte vector of exactly four
    /// bytes for each of the `width * height` pixels.  Trusted: on such a
    /// vector it succeeds, and the buffer it builds reads `data` row by row,
    /// four bytes (red, green, blue, alpha) to the pixel.
    #[verifier::external_body]
    fn raw_from_vec(width: u32, height: u32, data: Vec<u8>) -> (out: Option<Canvas>)
        requires
            data@.len() == 4 * ((width as int) * (height as int)),
        ensures
            out.is_some(),
            canvas_width(out.unwrap()) == width,
            canvas_rows(out.unwrap()).len() == height,
            forall|y: int|
                0 <= y < height ==> (#[trigger] canvas_rows(out.unwrap())[y]).len() == width,
            forall|x: int, y: int|
                0 <= x < width && 0 <= y < height ==> #[trigger] canvas_rows(out.unwrap())[y][x]
                    == (Rgba {
                    r: data@[4 * (y * width + x)],
                    g: data@[4 * (y * width + x) + 1],
                    b: data@[4 * (y * width + x) + 2],
                    a: data@[4 * (y * width + x) + 3],
                }),
    {
        match image::RgbaImage::from_raw(width, height, data) {
            Some(img) => Some(Canvas { img }),
            None => None,
        }
    }

    /// `image::ImageBuffer::into_raw`.  Trusted: it hands back the buffer
    /// itself, which holds the pixels row by row, four bytes (red, green,
    /// blue, alpha) to the pixel, and nothing more: every canvas is built
    /// on such a buffer, by `raw_from_vec`, by a copy or by `resize`.
    #[verifier::external_body]
    fn raw_into_vec(self) -> (data: Vec<u8>)
        ensures
            data@.len() == 4 * (canvas_width(self) * canvas_rows(self).len()),
            forall|x: int, y: int|
                0 <= x < canvas_width(self) && 0 <= y < canvas_rows(self).len() ==> #[trigger] canvas_rows(
                    self,
                )[y][x] == (Rgba {
                    r: data@[4 * (y * canvas_width(self) + x)],
                    g: data@[4 * (y * canvas_width(self) + x) + 1],
                    b: data@[4 * (y * canvas_width(self) + x) + 2],
                    a: data@[4 * (y * canvas_width(self) + x) + 3],
                }),
    {
        self.img.into_raw()
    }

    /// `image::ImageBuffer::width`.
    #[verifier::external_body]
    fn raw_width(&self) -> (w: u32)
        ensures
            w == canvas_width(*self),
    {
        self.img.width()
    }

    /// `image::ImageBuffer::height`.
    #[verifier::external_body]
    fn raw_height(&self) -> (h: u32)
        ensures
            h == canvas_rows(*self).len(),
    {
        self.img.height()
    }

    /// `image::ImageBuffer::get_pixel`, which panics outside the buffer.
    #[verifier::external_body]
    pub(crate) fn raw_get(&self, x: u32, y: u32) -> (p: Rgba)
        requires
            self.contains(x as int, y as int),
        ensures
            p == canvas_rows(*self)[y as int][x as int],
    {
        let p = self.img.get_pixel(x, y);
        Rgba { r: p.0[0], g: p.0[1], b: p.0[2], a: p.0[3] }
    }

    /// `image::ImageBuffer::put_pixel`, which panics outside the buffer.
    /// Trusted: it replaces the one pixel and nothing else.
    #[verifier::external_body]
    pub(crate) fn raw_put(&mut self, x: u32, y: u32, p: Rgba)
        requires
            old(self).contains(x as int, y as int),
        ensures
            final(self).same_shape(*old(self)),
            final(self).px(x as int, y as int) == p,
            forall|i: int, j: int|
                old(self).contains(i, j) && !(i == x && j == y) ==> #[trigger] final(self).px(i, j)
                    == old(self).px(i, j),
    {
        self.img.put_pixel(x, y, image::Rgba([p.r, p.g, p.b, p.a]));
    }

    /// `Clone::clone` of the image buffer.
    #[verifier::external_body]
    pub(crate) fn raw_clone(&self) -> (copy: Canvas)
        ensures
            copy.same_pixels(*self),
    {
        Canvas { img: self.img.clone() }
    }

    /// `imageproc::drawing::draw_antialiased_line_segment_mut` with
    /// `imageproc::pixelops::interpolate`, on a segment parallel to an axis.
    /// Trusted: on such a segment every pixel of it gets weight one, so each
    /// one inside the canvas becomes exactly `color`, alpha included, and no
    /// other pixel changes.  The bound on the coordinates keeps the
    /// drawer's own arithmetic exact.
    #[verifier::external_body]
    pub(crate) fn raw_axis_segment(&mut self, x0: i32, y0: i32, x1: i32, y1: i32, color: Rgba)
        requires
            x0 == x1 || y0 == y1,
            -MAX_PIXEL <= x0 <= MAX_PIXEL,
            -MAX_PIXEL <= y0 <= MAX_PIXEL,
            -MAX_PIXEL <= x1 <= MAX_PIXEL,
            -MAX_PIXEL <= y1 <= MAX_PIXEL,
            old(self).cols() <= MAX_DIM,
            old(self).rows() <= MAX_DIM,
        ensures
            final(self).same_shape(*old(self)),
            forall|x: int, y: int|
                old(self).contains(x, y) ==> #[trigger] final(self).px(x, y) == (if on_axis_segment(
                    x,
                    y,
                    x0 as int,
                    y0 as int,
                    x1 as int,
                    y1 as int,
                ) {
                    color
                } else {
                    old(self).px(x, y)
                }),
    {
        let c = image::Rgba([color.r, color.g, color.b, color.a]);
        let blend = imageproc::pixelops::interpolate;
        imageproc::drawing::draw_antialiased_line_segment_mut(&mut self.img, (x0, y0), (x1, y1), c, blend);
    }

    /// `image::imageops::resize` with the Lanczos filter of three lobes.
    /// Trusted: the picture it returns has the dimensions asked for, and is
    /// a copy where those are the picture's own.  What the resampled pixels
    /// hold is left open.
    #[verifier::external_body]
    pub(crate) fn raw_resize(&self, width: u32, height: u32) -> (out: Canvas)
        requires
            width <= MAX_DIM,
            height <= MAX_DIM,
        ensures
            canvas_width(out) == width,
            canvas_rows(out).len() == height,
            forall|y: int| 0 <= y < height ==> (#[trigger] canvas_rows(out)[y]).len() == width,
            width == canvas_width(*self) && height == canvas_rows(*self).len() ==> forall|
                x: int,
                y: int,
            |
                0 <= x < width && 0 <= y < height ==> #[trigger] canvas_rows(out)[y][x]
                    == canvas_rows(*self)[y][x],
    {
        let filter = image::imageops::FilterType::Lanczos3;
        Canvas { img: image::imageops::resize(&self.img, width, height, filter) }
    }

    /// A canvas of `width` by `height` pixels read from `data`, four bytes
    /// (red, green, blue, alpha) to the pixel, row by row.  `None` unless
    /// `data` has exactly that many bytes and neither dimension exceeds
    /// `MAX_DIM`.
    pub fn from_raw(width: u32, height: u32, data: Vec<u8>) -> (out: Option<Canvas>)
        ensures
            out.is_some() <==> (width <= MAX_DIM && height <= MAX_DIM && data@.len() == 4 * ((width as int) * (
            height as int))),
            out.is_some() ==> {
                let c = out.unwrap();
                &&& c.wf()
                &&& c.cols() == width
                &&& c.rows() == height
                &&& forall|x: int, y: int|
                    0 <= x < width && 0 <= y < height ==> #[trigger] c.px(x, y) == (Rgba {
                        r: data@[4 * (y * width + x)],
                        g: data@[4 * (y * width + x) + 1],
                        b: data@[4 * (y * width + x) + 2],
                        a: data@[4 * (y * width + x) + 3],
                    })
            },
    {
        if width > MAX_DIM || height > MAX_DIM {
            return None;
        }
        assert((width as int) * (height as int) <= 1_048_576 * 1_048_576) by (nonlinear_arith)
            requires
                0 <= width <= 1_048_576,
                0 <= height <= 1_048_576,
        ;
        let need: u64 = 4 * ((width as u64) * (height as u64));
        if data.len() as u64 != need {
            return None;
        }
        Canvas::raw_from_vec(width, height, data)
    }

    /// The bytes of the canvas, row by row, four bytes to the pixel.
    pub fn into_raw(self) -> (data: Vec<u8>)
        ensures
            data@.len() == 4 * (self.cols() * self.rows()),
            forall|x: int, y: int|
                self.contains(x, y) ==> #[trigger] self.px(x, y) == (Rgba {
                    r: data@[4 * (y * self.cols() + x)],
                    g: data@[4 * (y * self.cols() + x) + 1],
                    b: data@[4 * (y * self.cols() + x) + 2],
                    a: data@[4 * (y * self.cols() + x) + 3],
                }),
    {
        self.raw_into_vec()
    }

    /// The number of columns.
    pub fn width(&self) -> (w: u32)
        ensures
            w == self.cols(),
    {
        self.raw_width()
    }

    /// The number of rows.
    pub fn height(&self) -> (h: u32)
        ensures
            h == self.rows(),
    {
        self.raw_height()
    }

    /// The pixel in column `x` of row `y`, if the canvas has one there.
    pub fn get_pixel(&self, x: u32, y: u32) -> (p: Option<Rgba>)
        ensures
            p == (if self.contains(x as int, y as int) {
                Some(self.px(x as int, y as int))
            } else {
                None
            }),
    {
        if x < self.raw_width() && y < self.raw_height() {
            Some(self.raw_get(x, y))
        } else {
            None
        }
    }
}

} // verus!
