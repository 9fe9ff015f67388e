//! Colours and the blending rule of the compositor.

use vstd::prelude::*;

verus! {

/// A colour with straight (unmultiplied) alpha.
#[derive(Clone, Copy, Debug, PartialEq, Eq, Structural)]
pub struct Rgba {
    pub r: u8,
    pub g: u8,
    pub b: u8,
    pub a: u8,
}

impl Rgba {
    pub fn new(r: u8, g: u8, b: u8, a: u8) -> (c: Rgba)
        ensures
            c == (Rgba { r, g, b, a }),
    {
        Rgba { r, g, b, a }
    }

    /// An opaque colour.
    pub fn rgb(r: u8, g: u8, b: u8) -> (c: Rgba)
        ensures
            c == (Rgba { r, g, b, a: 255 }),
    {
        Rgba { r, g, b, a: 255 }
    }

    /// Whether the colour is fully transparent.
    pub fn is_transparent(&self) -> (t: bool)
        ensures
            t == (self.a == 0),
    {
        self.a == 0
    }
}

/// One channel of `src` over `dst` at opacity `alpha / 255`, rounded down.
pub open spec fn blend_channel(dst: u8, src: u8, alpha: u8) -> u8 {
    ((src as int * alpha as int + dst as int * (255 - alpha as int)) / 255) as u8
}

/// `src` over `dst` at opacity `alpha / 255`.  The result is opaque; the
/// alpha channels of the two colours play no part.
pub open spec fn blend_spec(dst: Rgba, src: Rgba, alpha: u8) -> Rgba {
    Rgba {
        r: blend_channel(dst.r, src.r, alpha),
        g: blend_channel(dst.g, src.g, alpha),
        b: blend_channel(dst.b, src.b, alpha),
        a: 255,
    }
}

/// The opacity that stands for `hits` covered samples out of four.
pub open spec fn coverage_alpha(hits: int) -> u8 {
    (hits * 255 / 4) as u8
}

/// A blended channel stays between the two channels it mixes.
pub proof fn lemma_blend_channel_between(dst: u8, src: u8, alpha: u8)
    ensures
        (src as int * alpha as int + dst as int * (255 - alpha as int)) / 255 <= 255,
        (src as int * alpha as int + dst as int * (255 - alpha as int)) / 255 >= 0,
        dst <= src ==> dst <= blend_channel(dst, src, alpha) <= src,
        src <= dst ==> src <= blend_channel(dst, src, alpha) <= dst,
        alpha == 255 ==> blend_channel(dst, src, alpha) == src,
        alpha == 0 ==> blend_channel(dst, src, alpha) == dst,
{
    let s: int = src as int;
    let d: int = dst as int;
    let a: int = alpha as int;
    let n: int = s * a + d * (255 - a);
    let lo: int = if s <= d { s } else { d };
    let hi: int = if s <= d { d } else { s };
    assert(lo * 255 <= n <= hi * 255) by (nonlinear_arith)
        requires
            n == s * a + d * (255 - a),
            0 <= a <= 255,
            lo <= s <= hi,
            lo <= d <= hi,
    ;
    crate::fixed::lemma_floor_bounds(n, 255);
    assert(lo <= n / 255 <= hi);
    if a == 255 {
        assert(n == s * 255) by (nonlinear_arith)
            requires
                n == s * a + d * (255 - a),
                a == 255,
        ;
    }
    if a == 0 {
        assert(n == d * 255) by (nonlinear_arith)
            requires
                n == s * a + d * (255 - a),
                a == 0,
        ;
    }
}

fn blend_one(dst: u8, src: u8, alpha: u8) -> (out: u8)
    ensures
        out == blend_channel(dst, src, alpha),
{
    let s: u32 = src as u32;
    let d: u32 = dst as u32;
    let a: u32 = alpha as u32;
    proof {
        lemma_blend_channel_between(dst, src, alpha);
        assert(s * a <= 255 * 255) by (nonlinear_arith)
            requires
                0 <= s <= 255,
                0 <= a <= 255,
        ;
        assert(d * (255 - a) <= 255 * 255) by (nonlinear_arith)
            requires
                0 <= d <= 255,
                0 <= a <= 255,
        ;
    }
    let n: u32 = s * a + d * (255 - a);
    (n / 255) as u8
}

/// Paints `src` over `dst` at opacity `alpha / 255`.
pub fn blend_pixel(dst: Rgba, src: Rgba, alpha: u8) -> (out: Rgba)
    ensures
        out == blend_spec(dst, src, alpha),
{
    Rgba {
        r: blend_one(dst.r, src.r, alpha),
        g: blend_one(dst.g, src.g, alpha),
        b: blend_one(dst.b, src.b, alpha),
        a: 255,
    }
}

/// The opacity of a pixel of which `hits` samples out of four are covered.
pub fn coverage_to_alpha(hits: u8) -> (alpha: u8)
    requires
        hits <= 4,
    ensures
        alpha == coverage_alpha(hits as int),
{
    let n: u32 = (hits as u32) * 255;
    (n / 4) as u8
}

} // verus!
