//! The font as the compositor sees it: metrics and one coverage mask to the
//! glyph, rasterised beforehand at the size in which text is drawn.

use crate::canvas::Canvas;
use crate::color::{blend_pixel, blend_spec, Rgba};
use crate::fixed::{clamp, min_int, UNIT};
use vstd::prelude::*;

verus! {

/// One glyph: how far it moves the pen, in coordinate units, and the
/// opacities of its pixels, row by row.  The mask's top left corner lies
/// `left` pixels to the right of the pen and `top` pixels below the
/// baseline (above it where `top` is negative).
#[derive(Clone, Debug, PartialEq, Eq)]
pub struct Glyph {
    pub ch: char,
    pub advance: u32,
    pub left: i32,
    pub top: i32,
    pub width: u32,
    pub height: u32,
    pub coverage: Vec<u8>,
}

/// A font at one size: the height of its line above the baseline (`ascent`)
/// and below it (`descent`, negative), in coordinate units, and its glyphs.
#[derive(Clone, Debug, PartialEq, Eq)]
pub struct FontFace {
    pub ascent: i32,
    pub descent: i32,
    pub glyphs: Vec<Glyph>,
}

impl Glyph {
    /// The mask holds one opacity for each of its pixels.
    pub open spec fn wf(self) -> bool {
        self.coverage@.len() == self.width * self.height
    }

    /// Whether the mask holds one opacity for each of its pixels.
    pub fn is_valid(&self) -> (ok: bool)
        ensures
            ok == self.wf(),
    {
        assert(0 <= self.width * self.height <= 0xFFFF_FFFF * 0xFFFF_FFFF) by (nonlinear_arith)
            requires
                0 <= self.width <= 0xFFFF_FFFF,
                0 <= self.height <= 0xFFFF_FFFF,
        ;
        let need: u64 = (self.width as u64) * (self.height as u64);
        self.coverage.len() as u64 == need
    }
}

/// The index of the first glyph for `c` at or after index `from`.
pub open spec fn first_glyph(glyphs: Seq<Glyph>, c: char, from: int) -> Option<int>
    decreases glyphs.len() - from,
{
    if from < 0 || from >= glyphs.len() {
        None
    } else if glyphs[from].ch == c {
        Some(from)
    } else {
        first_glyph(glyphs, c, from + 1)
    }
}

/// How far `c` moves the pen: the advance of its glyph, or nothing where
/// the font has none for it.
pub open spec fn advance_of(font: FontFace, c: char) -> int {
    match first_glyph(font.glyphs@, c, 0) {
        Some(i) => font.glyphs@[i].advance as int,
        None => 0,
    }
}

/// How far the first `k` characters of `chars` move the pen.
pub open spec fn pen_after(font: FontFace, chars: Seq<char>, k: int) -> int
    decreases k,
{
    if k <= 0 {
        0
    } else {
        pen_after(font, chars, k - 1) + advance_of(font, chars[k - 1])
    }
}

/// The width of a line of text: the sum of its glyphs' advances.
pub open spec fn text_width(font: FontFace, chars: Seq<char>) -> int {
    pen_after(font, chars, chars.len() as int)
}

/// The height of a line of text.
pub open spec fn text_height(font: FontFace) -> int {
    font.ascent - font.descent
}

/// The pen never moves backwards, and no further than the largest advance
/// for each character.
pub proof fn lemma_pen_bounds(font: FontFace, chars: Seq<char>, k: int)
    requires
        0 <= k,
    ensures
        0 <= pen_after(font, chars, k) <= k * 0xFFFF_FFFF,
    decreases k,
{
    if k > 0 {
        lemma_pen_bounds(font, chars, k - 1);
        assert((k - 1) * 0xFFFF_FFFF + 0xFFFF_FFFF == k * 0xFFFF_FFFF) by (nonlinear_arith);
    }
}

impl FontFace {
    /// Every glyph is well formed.
    pub open spec fn wf(self) -> bool {
        forall|i: int| 0 <= i < self.glyphs@.len() ==> (#[trigger] self.glyphs@[i]).wf()
    }

    /// Whether every glyph is well formed.
    pub fn is_valid(&self) -> (ok: bool)
        ensures
            ok == self.wf(),
    {
        let mut i: usize = 0;
        while i < self.glyphs.len()
            invariant
                i <= self.glyphs@.len(),
                forall|j: int| 0 <= j < i ==> (#[trigger] self.glyphs@[j]).wf(),
            decreases self.glyphs@.len() - i,
        {
            if !self.glyphs[i].is_valid() {
                return false;
            }
            i += 1;
        }
        true
    }

    /// The index of the first glyph for `c`.
    pub fn find(&self, c: char) -> (r: Option<usize>)
        ensures
            match r {
                Some(i) => first_glyph(self.glyphs@, c, 0) == Some(i as int) && i
                    < self.glyphs@.len(),
                None => first_glyph(self.glyphs@, c, 0).is_none(),
            },
    {
        let mut i: usize = 0;
        while i < self.glyphs.len()
            invariant
                i <= self.glyphs@.len(),
                first_glyph(self.glyphs@, c, 0) == first_glyph(self.glyphs@, c, i as int),
            decreases self.glyphs@.len() - i,
        {
            if self.glyphs[i].ch == c {
                return Some(i);
            }
            i += 1;
        }
        None
    }

    /// How far `c` moves the pen.
    pub fn advance(&self, c: char) -> (a: u32)
        ensures
            a == advance_of(*self, c),
    {
        match self.find(c) {
            Some(i) => self.glyphs[i].advance,
            None => 0,
        }
    }
}

/// The width and the height of a line of text in coordinate units: the sum
/// of the glyphs' advances, and ascent less descent.
pub fn text_extent(font: &FontFace, text: &str) -> (r: (i128, i64))
    ensures
        r.0 == text_width(*font, text@),
        r.1 == text_height(*font),
        0 <= r.0 <= 0x1_0000_0000_0000_0000 * 0xFFFF_FFFF,
{
    let n: usize = text.unicode_len();
    let mut total: i128 = 0;
    let mut k: usize = 0;
    while k < n
        invariant
            k <= n,
            n == text@.len(),
            total == pen_after(*font, text@, k as int),
        decreases n - k,
    {
        proof {
            lemma_pen_bounds(*font, text@, k as int);
            assert(k * 0xFFFF_FFFF <= 0x1_0000_0000_0000_0000 * 0xFFFF_FFFF) by (nonlinear_arith)
                requires
                    0 <= k <= 0x1_0000_0000_0000_0000,
            ;
        }
        let a: u32 = font.advance(text.get_char(k));
        total = total + a as i128;
        k += 1;
    }
    proof {
        lemma_pen_bounds(*font, text@, n as int);
        assert(n * 0xFFFF_FFFF <= 0x1_0000_0000_0000_0000 * 0xFFFF_FFFF) by (nonlinear_arith)
            requires
                0 <= n <= 0x1_0000_0000_0000_0000,
        ;
    }
    (total, font.ascent as i64 - font.descent as i64)
}

/// The width and the height of a line of text, as `text_extent` gives
/// them.  A width beyond the range of `i64` is reported as the largest
/// `i64`.
pub fn measure_text(font: &FontFace, text: &str) -> (r: (i64, i64))
    ensures
        r.0 == min_int(text_width(*font, text@), i64::MAX as int),
        r.1 == text_height(*font),
{
    let exact: (i128, i64) = text_extent(font, text);
    let width: i64 = if exact.0 > i64::MAX as i128 {
        i64::MAX
    } else {
        exact.0 as i64
    };
    (width, exact.1)
}

/// The opacity that a glyph's mask, its top left corner at pixel
/// `(mx, my)`, has at pixel `(x, y)`: nothing outside the mask.
pub open spec fn stamp_alpha(g: Glyph, mx: int, my: int, x: int, y: int) -> u8 {
    if mx <= x < mx + g.width && my <= y < my + g.height {
        g.coverage@[(y - my) * g.width + (x - mx)]
    } else {
        0
    }
}

/// A pixel after a glyph's mask has been laid over it in `color`.
pub open spec fn stamped(prev: Rgba, g: Glyph, mx: int, my: int, color: Rgba, x: int, y: int) -> Rgba {
    let alpha = stamp_alpha(g, mx, my, x, y);
    if alpha > 0 {
        blend_spec(prev, color, alpha)
    } else {
        prev
    }
}

/// A pixel after the first `k` characters of a line of text have been drawn
/// over it.  The line's top left corner is `(left, top)`, in coordinate
/// units; each glyph is laid at the whole pixel that the pen has reached.
/// A character for which the font has no glyph draws nothing.
pub open spec fn text_px(
    prev: Rgba,
    font: FontFace,
    chars: Seq<char>,
    k: int,
    left: int,
    top: int,
    color: Rgba,
    x: int,
    y: int,
) -> Rgba
    decreases k,
{
    if k <= 0 {
        prev
    } else {
        let below = text_px(prev, font, chars, k - 1, left, top, color, x, y);
        match first_glyph(font.glyphs@, chars[k - 1], 0) {
            Some(i) => {
                let g = font.glyphs@[i];
                stamped(
                    below,
                    g,
                    (left + pen_after(font, chars, k - 1)) / (UNIT as int) + g.left,
                    (top + font.ascent) / (UNIT as int) + g.top,
                    color,
                    x,
                    y,
                )
            },
            None => below,
        }
    }
}

/// The columns (or rows) of a canvas that a mask of `extent` pixels starting
/// at `start` takes up.
fn clip_span(start: i128, extent: u32, limit: u32) -> (r: (u32, u32))
    requires
        -0x4000_0000_0000_0000_0000_0000_0000_0000 <= start
            <= 0x4000_0000_0000_0000_0000_0000_0000_0000,
    ensures
        r.0 <= r.1 <= limit,
        r.0 == clamp(start as int, 0, limit as int),
        r.1 == clamp(start + extent, r.0 as int, limit as int),
{
    let end: i128 = start + extent as i128;
    let lo: u32 = if start <= 0 {
        0
    } else if start >= limit as i128 {
        limit
    } else {
        start as u32
    };
    let hi: u32 = if end <= lo as i128 {
        lo
    } else if end >= limit as i128 {
        limit
    } else {
        end as u32
    };
    (lo, hi)
}

/// Lays a glyph's mask over the canvas, its top left corner at pixel
/// `(mx, my)`.
pub fn stamp(canvas: &mut Canvas, g: &Glyph, mx: i128, my: i128, color: Rgba)
    requires
        old(canvas).wf(),
        g.wf(),
        -0x4000_0000_0000_0000_0000_0000_0000_0000 <= mx
            <= 0x4000_0000_0000_0000_0000_0000_0000_0000,
        -0x4000_0000_0000_0000_0000_0000_0000_0000 <= my
            <= 0x4000_0000_0000_0000_0000_0000_0000_0000,
    ensures
        final(canvas).same_shape(*old(canvas)),
        forall|x: int, y: int|
            old(canvas).contains(x, y) ==> #[trigger] final(canvas).px(x, y) == stamped(
                old(canvas).px(x, y),
                *g,
                mx as int,
                my as int,
                color,
                x,
                y,
            ),
{
    let w: u32 = canvas.width();
    let h: u32 = canvas.height();
    let xs: (u32, u32) = clip_span(mx, g.width, w);
    let ys: (u32, u32) = clip_span(my, g.height, h);
    let ghost before = *canvas;
    let mut y: u32 = ys.0;
    while y < ys.1
        invariant
            ys.0 <= y <= ys.1 <= h,
            xs.0 <= xs.1 <= w,
            w == before.cols(),
            h == before.rows(),
            g.wf(),
            xs.0 == clamp(mx as int, 0, w as int),
            xs.1 == clamp(mx + g.width, xs.0 as int, w as int),
            ys.0 == clamp(my as int, 0, h as int),
            ys.1 == clamp(my + g.height, ys.0 as int, h as int),
            canvas.same_shape(before),
            forall|i: int, j: int|
                before.contains(i, j) ==> #[trigger] canvas.px(i, j) == (if ys.0 <= j < y && xs.0
                    <= i < xs.1 {
                    stamped(before.px(i, j), *g, mx as int, my as int, color, i, j)
                } else {
                    before.px(i, j)
                }),
        decreases ys.1 - y,
    {
        let mut x: u32 = xs.0;
        while x < xs.1
            invariant
                ys.0 <= y < ys.1 <= h,
                xs.0 <= x <= xs.1 <= w,
                w == before.cols(),
                h == before.rows(),
                g.wf(),
                xs.0 == clamp(mx as int, 0, w as int),
                xs.1 == clamp(mx + g.width, xs.0 as int, w as int),
                ys.0 == clamp(my as int, 0, h as int),
                ys.1 == clamp(my + g.height, ys.0 as int, h as int),
                canvas.same_shape(before),
                forall|i: int, j: int|
                    before.contains(i, j) ==> #[trigger] canvas.px(i, j) == (if (ys.0 <= j < y
                        || (j == y && i < x)) && xs.0 <= i < xs.1 {
                        stamped(before.px(i, j), *g, mx as int, my as int, color, i, j)
                    } else {
                        before.px(i, j)
                    }),
            decreases xs.1 - x,
        {
            let ghost mid = *canvas;
            let len: usize = g.coverage.len();
            let row: u64 = (y as i128 - my) as u64;
            let col: u64 = (x as i128 - mx) as u64;
            assert(0 <= row < g.height && 0 <= col < g.width);
            assert(0 <= row * g.width && row * g.width + col < g.width * g.height)
                by (nonlinear_arith)
                requires
                    0 <= row < g.height,
                    0 <= col < g.width,
            ;
            let at: usize = (row * (g.width as u64) + col) as usize;
            let alpha: u8 = g.coverage[at];
            assert(at == (y - my) * g.width + (x - mx));
            assert(alpha == stamp_alpha(*g, mx as int, my as int, x as int, y as int));
            if alpha > 0 {
                let prev: Rgba = canvas.raw_get(x, y);
                canvas.raw_put(x, y, blend_pixel(prev, color, alpha));
            }
            proof {
                assert(mid.contains(x as int, y as int));
                assert(mid.px(x as int, y as int) == before.px(x as int, y as int));
                assert forall|i: int, j: int| before.contains(i, j) implies #[trigger] canvas.px(
                    i,
                    j,
                ) == (if (ys.0 <= j < y || (j == y && i < x + 1)) && xs.0 <= i < xs.1 {
                    stamped(before.px(i, j), *g, mx as int, my as int, color, i, j)
                } else {
                    before.px(i, j)
                }) by {
                    if !(i == x && j == y) {
                        assert(mid.contains(i, j));
                        assert(canvas.px(i, j) == mid.px(i, j));
                    }
                }
            }
            x += 1;
        }
        y += 1;
    }
}

} // verus!
