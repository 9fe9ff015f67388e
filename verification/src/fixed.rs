//! Fixed-point scalars.
//!
//! Every length and coordinate of the library is a whole number of
//! coordinate units; 1024 units make one pixel.  All arithmetic on them is
//! exact integer arithmetic, so a shape rasterises the same way on every
//! machine.

use vstd::arithmetic::div_mod::lemma_fundamental_div_mod_converse;
use vstd::prelude::*;

verus! {

/// One pixel, in coordinate units.
pub const UNIT: i64 = 1024;

/// Largest magnitude of a coordinate: 2^20 pixels.
pub const COORD_MAX: i64 = 1_073_741_824;

/// One pixel, in screen units.  Screen space is held 2^20 times finer than
/// image space, so that at every zoom in range a coordinate unit of the
/// image is more than a screen unit, and no image point is lost on the way
/// to the screen and back.
pub const SCREEN_UNIT: i64 = 1_073_741_824;

/// The number of screen units in a coordinate unit at scale one: 2^20.
pub const SCREEN_PER_UNIT: i64 = 1_048_576;

/// Largest magnitude of a screen coordinate: 2^32 pixels.
pub const SCREEN_MAX: i64 = 4_611_686_018_427_387_904;

/// `v` confined to `lo ..= hi`.
pub open spec fn clamp(v: int, lo: int, hi: int) -> int {
    if v < lo {
        lo
    } else if v > hi {
        hi
    } else {
        v
    }
}

/// `v` confined to the coordinate range.
pub open spec fn clamp_coord_spec(v: int) -> int {
    clamp(v, -(COORD_MAX as int), COORD_MAX as int)
}

/// `v` confined to the range of screen coordinates.
pub open spec fn clamp_screen_spec(v: int) -> int {
    clamp(v, -(SCREEN_MAX as int), SCREEN_MAX as int)
}

/// Whether `v` lies in the range of screen coordinates.
pub open spec fn in_screen_range(v: int) -> bool {
    -(SCREEN_MAX as int) <= v <= SCREEN_MAX as int
}

/// Whether `v` lies in the coordinate range.
pub open spec fn in_coord_range(v: int) -> bool {
    -(COORD_MAX as int) <= v <= COORD_MAX as int
}

pub open spec fn min_int(a: int, b: int) -> int {
    if a <= b {
        a
    } else {
        b
    }
}

pub open spec fn max_int(a: int, b: int) -> int {
    if a >= b {
        a
    } else {
        b
    }
}

pub open spec fn abs_int(a: int) -> int {
    if a >= 0 {
        a
    } else {
        -a
    }
}

/// The quotient of `a` by `b`, rounded towards positive infinity.
pub open spec fn ceil_div_spec(a: int, b: int) -> int {
    -((-a) / b)
}

/// Confines a wide value to the coordinate range.
pub fn clamp_coord(v: i128) -> (r: i64)
    ensures
        r == clamp_coord_spec(v as int),
        in_coord_range(r as int),
{
    if v < -(COORD_MAX as i128) {
        -COORD_MAX
    } else if v > COORD_MAX as i128 {
        COORD_MAX
    } else {
        v as i64
    }
}

/// Confines a wide value to the range of screen coordinates.
pub fn clamp_screen(v: i128) -> (r: i64)
    ensures
        r == clamp_screen_spec(v as int),
        in_screen_range(r as int),
{
    if v < -(SCREEN_MAX as i128) {
        -SCREEN_MAX
    } else if v > SCREEN_MAX as i128 {
        SCREEN_MAX
    } else {
        v as i64
    }
}

/// Division rounding towards negative infinity.
pub fn floor_div(a: i128, b: i128) -> (q: i128)
    requires
        b > 0,
    ensures
        q == a as int / b as int,
{
    if a >= 0 {
        a / b
    } else {
        let m: i128 = -(a + 1);
        let k: i128 = m / b;
        proof {
            let r0: int = m as int % b as int;
            assert(m as int == b as int * (m as int / b as int) + r0) by {
                vstd::arithmetic::div_mod::lemma_fundamental_div_mod(m as int, b as int);
            }
            assert(0 <= r0 < b) by {
                vstd::arithmetic::div_mod::lemma_mod_bound(m as int, b as int);
            }
            assert(k >= 0) by {
                vstd::arithmetic::div_mod::lemma_div_pos_is_pos(m as int, b as int);
            }
            assert(k <= m) by {
                vstd::arithmetic::div_mod::lemma_div_is_ordered_by_denominator(
                    m as int,
                    1,
                    b as int,
                );
            }
            assert(a as int == (-(k as int) - 1) * b as int + (b as int - 1 - r0))
                by (nonlinear_arith)
                requires
                    m as int == b as int * k as int + r0,
                    m as int == -(a as int + 1),
            ;
            lemma_fundamental_div_mod_converse(
                a as int,
                b as int,
                -(k as int) - 1,
                b as int - 1 - r0,
            );
        }
        -k - 1
    }
}

/// Division rounding towards positive infinity.
pub fn ceil_div(a: i128, b: i128) -> (q: i128)
    requires
        b > 0,
        a > i128::MIN,
    ensures
        q == ceil_div_spec(a as int, b as int),
{
    let na: i128 = -a;
    let f: i128 = floor_div(na, b);
    proof {
        lemma_floor_bounds(na as int, b as int);
    }
    -f
}

/// A floor quotient by a positive divisor is no further from zero than the
/// dividend, up to one.
pub proof fn lemma_floor_bounds(a: int, b: int)
    requires
        b > 0,
    ensures
        a >= 0 ==> 0 <= a / b <= a,
        a < 0 ==> a <= a / b < 0,
        b * (a / b) <= a < b * (a / b) + b,
{
    vstd::arithmetic::div_mod::lemma_fundamental_div_mod(a, b);
    vstd::arithmetic::div_mod::lemma_mod_bound(a, b);
    let q: int = a / b;
    let r: int = a % b;
    assert(a == b * q + r);
    if a >= 0 {
        assert(q >= 0) by (nonlinear_arith)
            requires
                a == b * q + r,
                0 <= r < b,
                a >= 0,
                b > 0,
        ;
        assert(q <= a) by (nonlinear_arith)
            requires
                a == b * q + r,
                0 <= r < b,
                q >= 0,
                b > 0,
        ;
    } else {
        assert(q < 0) by (nonlinear_arith)
            requires
                a == b * q + r,
                0 <= r < b,
                a < 0,
                b > 0,
        ;
        assert(q >= a) by (nonlinear_arith)
            requires
                a == b * q + r,
                0 <= r < b,
                q < 0,
                b > 0,
        ;
    }
}

/// The integer square root of `n`: the largest `r` with `r * r <= n`.
pub open spec fn sqrt_floor(n: nat) -> nat
    decreases n,
{
    if n == 0 {
        0
    } else {
        let r = sqrt_floor((n - 1) as nat);
        if (r + 1) * (r + 1) <= n {
            r + 1
        } else {
            r
        }
    }
}

/// `sqrt_floor(n)` is the one number whose square is at most `n` while the
/// square of the next exceeds it.
pub proof fn lemma_sqrt_floor(n: nat)
    ensures
        sqrt_floor(n) * sqrt_floor(n) <= n < (sqrt_floor(n) + 1) * (sqrt_floor(n) + 1),
    decreases n,
{
    let s = sqrt_floor(n);
    if n == 0 {
        assert(s == 0);
        assert(s * s == 0 && (s + 1) * (s + 1) == 1) by (nonlinear_arith)
            requires
                s == 0,
        ;
    } else {
        lemma_sqrt_floor((n - 1) as nat);
        let r = sqrt_floor((n - 1) as nat);
        if (r + 1) * (r + 1) <= n {
            assert(s == r + 1);
            assert(n < (r + 2) * (r + 2)) by (nonlinear_arith)
                requires
                    n - 1 < (r + 1) * (r + 1),
            ;
            assert((s + 1) * (s + 1) == (r + 2) * (r + 2)) by (nonlinear_arith)
                requires
                    s == r + 1,
            ;
            assert(s * s == (r + 1) * (r + 1)) by (nonlinear_arith)
                requires
                    s == r + 1,
            ;
        } else {
            assert(s == r);
        }
    }
}

/// Two numbers that both bracket `n` between their square and the square of
/// their successor are equal.
pub proof fn lemma_sqrt_unique(r: int, s: int, n: int)
    requires
        0 <= r,
        0 <= s,
        r * r <= n < (r + 1) * (r + 1),
        s * s <= n < (s + 1) * (s + 1),
    ensures
        r == s,
{
    if r < s {
        assert((r + 1) * (r + 1) <= s * s) by (nonlinear_arith)
            requires
                0 <= r,
                r + 1 <= s,
        ;
    }
    if s < r {
        assert((s + 1) * (s + 1) <= r * r) by (nonlinear_arith)
            requires
                0 <= s,
                s + 1 <= r,
        ;
    }
}

/// Largest number of which `isqrt` takes the root: 2^126 less one.
pub const ROOT_MAX: u128 = 0x3FFF_FFFF_FFFF_FFFF_FFFF_FFFF_FFFF_FFFF;

/// The integer square root: the largest `r` with `r * r <= n`.
pub fn isqrt(n: u128) -> (r: u128)
    requires
        n <= ROOT_MAX,
    ensures
        r == sqrt_floor(n as nat),
        r * r <= n,
        n < (r + 1) * (r + 1),
        r < 0x8000_0000_0000_0000,
{
    let mut lo: u128 = 0;
    let mut hi: u128 = 0x8000_0000_0000_0000;
    assert(0x8000_0000_0000_0000u128 * 0x8000_0000_0000_0000u128
        == 0x4000_0000_0000_0000_0000_0000_0000_0000);
    while hi - lo > 1
        invariant
            lo < hi <= 0x8000_0000_0000_0000,
            lo * lo <= n,
            n < hi * hi,
        decreases hi - lo,
    {
        let mid: u128 = lo + (hi - lo) / 2;
        assert(mid * mid <= 0x8000_0000_0000_0000 * 0x8000_0000_0000_0000) by (nonlinear_arith)
            requires
                0 <= mid <= 0x8000_0000_0000_0000,
        ;
        if mid * mid <= n {
            lo = mid;
        } else {
            hi = mid;
        }
    }
    proof {
        lemma_sqrt_floor(n as nat);
        lemma_sqrt_unique(lo as int, sqrt_floor(n as nat) as int, n as int);
    }
    lo
}

} // verus!
