//! Color conversion from an 8-bit RGB request to the four channels the
//! hardware expects (red, green, blue, white).
//!
//! The conversion goes through a hue/saturation/value view of the input,
//! reshapes saturation by a square root and value by a square, recomputes the
//! fully saturated color at the original hue, and scales back to 8-bit
//! channels; the white channel carries what the reshaped saturation leaves of
//! the reshaped value. For 8-bit inputs the whole pipeline collapses to
//! closed-form integer expressions: with `mx`/`mn` the largest and smallest
//! input channel, the pure hue vector at a channel with value `c` is
//! `(c - mn) / (mx - mn)`, saturation is `(mx - mn) / mx` and value is
//! `mx / 255`, so each output channel is the floor of an exact algebraic
//! expression in `c`, `mx` and `mn`. The spec functions below state those
//! floors directly, with `sqrt_floor` standing for the square root.

use vstd::prelude::*;

verus! {

/// One frame of the four 8-bit channels the hardware expects.
#[derive(Clone, Copy, PartialEq, Eq, Structural, Debug)]
pub struct Rgbw {
    pub r: u8,
    pub g: u8,
    pub b: u8,
    pub w: u8,
}

/// Largest integer whose square does not exceed `n`.
pub open spec fn sqrt_floor(n: nat) -> nat
    decreases n,
{
    if n == 0 {
        0
    } else {
        let r = sqrt_floor((n - 1) as nat);
        if (r + 1) * (r + 1) <= n {
            r + 1
        } else {
            r
        }
    }
}

pub proof fn lemma_sqrt_floor_bounds(n: nat)
    ensures
        sqrt_floor(n) * sqrt_floor(n) <= n,
        n < (sqrt_floor(n) + 1) * (sqrt_floor(n) + 1),
    decreases n,
{
    if n > 0 {
        let m = (n - 1) as nat;
        lemma_sqrt_floor_bounds(m);
        let r = sqrt_floor(m);
        assert(sqrt_floor(n) == if (r + 1) * (r + 1) <= n {
            r + 1
        } else {
            r
        });
        if (r + 1) * (r + 1) <= n {
            assert(n <= (r + 1) * (r + 1));
            assert((r + 1 + 1) * (r + 1 + 1) > (r + 1) * (r + 1)) by (nonlinear_arith);
            assert(sqrt_floor(n) == r + 1);
            assert(sqrt_floor(n) * sqrt_floor(n) <= n);
            assert(n < (sqrt_floor(n) + 1) * (sqrt_floor(n) + 1));
        } else {
            assert(sqrt_floor(n) == r);
            assert(sqrt_floor(n) * sqrt_floor(n) <= n);
            assert(n < (sqrt_floor(n) + 1) * (sqrt_floor(n) + 1));
        }
    } else {
        assert(sqrt_floor(n) == 0);
        assert((sqrt_floor(n) + 1) * (sqrt_floor(n) + 1) == 1) by (nonlinear_arith)
            requires
                sqrt_floor(n) == 0,
        ;
    }
}

pub proof fn lemma_sqrt_floor_is(n: nat, r: nat)
    requires
        r * r <= n,
        n < (r + 1) * (r + 1),
    ensures
        r == sqrt_floor(n),
{
    lemma_sqrt_floor_bounds(n);
    let s = sqrt_floor(n);
    if r < s {
        assert(false) by (nonlinear_arith)
            requires
                r < s,
                s * s <= n,
                n < (r + 1) * (r + 1),
        ;
    }
    if r > s {
        assert(false) by (nonlinear_arith)
            requires
                r > s,
                r * r <= n,
                n < (s + 1) * (s + 1),
        ;
    }
}

/// The largest of the three input channels.
pub open spec fn max3(r: u8, g: u8, b: u8) -> u8 {
    if r >= g && r >= b {
        r
    } else if g >= b {
        g
    } else {
        b
    }
}

/// The smallest of the three input channels.
pub open spec fn min3(r: u8, g: u8, b: u8) -> u8 {
    if r <= g && r <= b {
        r
    } else if g <= b {
        g
    } else {
        b
    }
}

/// An output color channel: the floor of
/// `255 * pure_hue(c) * sqrt(saturation) * value^2`, written over integers.
/// `pure_hue(c) = (c - mn) / (mx - mn)`, `saturation = (mx - mn) / mx`,
/// `value = mx / 255`; a gray input (zero saturation) contributes nothing to
/// the color channels.
pub open spec fn color_channel(c: int, mx: int, mn: int) -> int
    recommends
        0 <= mn <= c <= mx <= 255,
{
    if mx <= mn {
        0
    } else {
        sqrt_floor(((c - mn) * (c - mn) * mx * mx * (mx - mn) * mx) as nat) as int / ((mx - mn)
            * 255)
    }
}

/// The white channel: the floor of `255 * value^2 * (1 - sqrt(saturation))`,
/// written over integers.
pub open spec fn white_channel(mx: int, mn: int) -> int
    recommends
        0 <= mn <= mx <= 255,
{
    (mx * mx - sqrt_floor(((mx - mn) * mx * mx * mx) as nat)) / 255
}

/// The whole conversion as one frame.
pub open spec fn rgbw_spec(r: u8, g: u8, b: u8) -> Rgbw {
    Rgbw {
        r: color_channel(r as int, max3(r, g, b) as int, min3(r, g, b) as int) as u8,
        g: color_channel(g as int, max3(r, g, b) as int, min3(r, g, b) as int) as u8,
        b: color_channel(b as int, max3(r, g, b) as int, min3(r, g, b) as int) as u8,
        w: white_channel(max3(r, g, b) as int, min3(r, g, b) as int) as u8,
    }
}

/// Every output channel of the conversion lies in `[0, 255]`, for every
/// valid 8-bit input.
pub proof fn lemma_rgbw_in_range(r: u8, g: u8, b: u8)
    ensures
        0 <= color_channel(r as int, max3(r, g, b) as int, min3(r, g, b) as int) <= 255,
        0 <= color_channel(g as int, max3(r, g, b) as int, min3(r, g, b) as int) <= 255,
        0 <= color_channel(b as int, max3(r, g, b) as int, min3(r, g, b) as int) <= 255,
        0 <= white_channel(max3(r, g, b) as int, min3(r, g, b) as int) <= 255,
{
    let mx = max3(r, g, b) as int;
    let mn = min3(r, g, b) as int;
    lemma_color_channel_in_range(r as int, mx, mn);
    lemma_color_channel_in_range(g as int, mx, mn);
    lemma_color_channel_in_range(b as int, mx, mn);
    lemma_white_channel_in_range(mx, mn);
}

pub proof fn lemma_color_channel_in_range(c: int, mx: int, mn: int)
    requires
        0 <= mn <= c <= mx <= 255,
    ensures
        0 <= color_channel(c, mx, mn) <= 255,
{
    if mx > mn {
        let d = mx - mn;
        let rad = ((c - mn) * (c - mn) * mx * mx * d * mx) as nat;
        assert((c - mn) * (c - mn) * mx * mx * d * mx >= 0) by (nonlinear_arith)
            requires
                0 <= mn <= c <= mx,
                d == mx - mn,
        ;
        let t = sqrt_floor(rad);
        lemma_sqrt_floor_bounds(rad);
        assert(rad <= d * d * d * mx * mx * mx) by (nonlinear_arith)
            requires
                0 <= mn <= c <= mx,
                d == mx - mn,
                rad == ((c - mn) * (c - mn) * mx * mx * d * mx) as nat,
        ;
        assert(d * d * d * mx * mx * mx <= (d * 65025) * (d * 65025)) by (nonlinear_arith)
            requires
                0 < d <= 255,
                0 <= mx <= 255,
        ;
        assert(t <= d * 65025) by (nonlinear_arith)
            requires
                t * t <= (d * 65025) * (d * 65025),
                t >= 0,
                d >= 1,
        ;
        assert(t as int / (d * 255) <= 255) by {
            vstd::arithmetic::div_mod::lemma_div_is_ordered(t as int, d * 65025, d * 255);
            assert(d * 65025 == 255 * (d * 255)) by (nonlinear_arith);
            vstd::arithmetic::div_mod::lemma_div_by_multiple(255, d * 255);
        }
        assert(t as int / (d * 255) >= 0) by {
            vstd::arithmetic::div_mod::lemma_div_is_ordered(0, t as int, d * 255);
        }
    }
}

pub proof fn lemma_white_channel_in_range(mx: int, mn: int)
    requires
        0 <= mn <= mx <= 255,
    ensures
        0 <= white_channel(mx, mn) <= 255,
{
    let d = mx - mn;
    let rad = (d * mx * mx * mx) as nat;
    assert(d * mx * mx * mx >= 0) by (nonlinear_arith)
        requires
            0 <= mn <= mx,
            d == mx - mn,
    ;
    let t = sqrt_floor(rad);
    lemma_sqrt_floor_bounds(rad);
    assert(rad <= mx * mx * mx * mx) by (nonlinear_arith)
        requires
            0 <= d <= mx,
            rad == (d * mx * mx * mx) as nat,
    ;
    assert(t <= mx * mx) by (nonlinear_arith)
        requires
            t * t <= mx * mx * mx * mx,
            t >= 0,
            mx >= 0,
    ;
    assert(mx * mx <= 65025) by (nonlinear_arith)
        requires
            0 <= mx <= 255,
    ;
    assert((mx * mx - t) / 255 <= 255) by {
        vstd::arithmetic::div_mod::lemma_div_is_ordered(mx * mx - t, 65025, 255);
    }
    assert((mx * mx - t) / 255 >= 0) by {
        vstd::arithmetic::div_mod::lemma_div_is_ordered(0, mx * mx - t, 255);
    }
}

/// Binary search for the integer square root.
fn isqrt(n: u64) -> (r: u64)
    requires
        n < 0x10000000000000,
    ensures
        r as nat == sqrt_floor(n as nat),
        r * r <= n < (r + 1) * (r + 1),
{
    let mut lo: u64 = 0;
    let mut hi: u64 = 0x4000000;
    while lo + 1 < hi
        invariant
            lo < hi <= 0x4000000,
            lo * lo <= n,
            n < hi * hi,
        decreases hi - lo,
    {
        let mid: u64 = lo + (hi - lo) / 2;
        assert(mid * mid <= 0x4000000u64 * 0x4000000u64) by (nonlinear_arith)
            requires
                mid <= 0x4000000u64,
        ;
        if mid * mid <= n {
            lo = mid;
        } else {
            hi = mid;
        }
    }
    proof {
        lemma_sqrt_floor_is(n as nat, lo as nat);
    }
    lo
}

fn max3_exec(r: u8, g: u8, b: u8) -> (m: u8)
    ensures
        m == max3(r, g, b),
{
    if r >= g && r >= b {
        r
    } else if g >= b {
        g
    } else {
        b
    }
}

fn min3_exec(r: u8, g: u8, b: u8) -> (m: u8)
    ensures
        m == min3(r, g, b),
{
    if r <= g && r <= b {
        r
    } else if g <= b {
        g
    } else {
        b
    }
}

/// One output color channel, computed exactly as `color_channel` states.
fn channel_value(c: u8, mx: u64, mn: u64) -> (v: u8)
    requires
        mn <= c as u64,
        c as u64 <= mx,
        mx <= 255,
        mn < mx,
    ensures
        v as int == color_channel(c as int, mx as int, mn as int),
{
    let d: u64 = mx - mn;
    let dc: u64 = c as u64 - mn;
    assert(dc * dc <= 65025) by (nonlinear_arith)
        requires
            dc <= 255,
    ;
    let p1: u64 = dc * dc;
    assert(p1 * mx <= 65025 * 255) by (nonlinear_arith)
        requires
            p1 <= 65025,
            mx <= 255,
    ;
    let p2: u64 = p1 * mx;
    assert(p2 * mx <= 65025 * 65025) by (nonlinear_arith)
        requires
            p2 <= 65025 * 255,
            mx <= 255,
    ;
    let p3: u64 = p2 * mx;
    assert(p3 * d <= 65025 * 65025 * 255) by (nonlinear_arith)
        requires
            p3 <= 65025 * 65025,
            d <= 255,
    ;
    let p4: u64 = p3 * d;
    assert(p4 * mx <= 65025 * 65025 * 65025) by (nonlinear_arith)
        requires
            p4 <= 65025 * 65025 * 255,
            mx <= 255,
    ;
    let rad: u64 = p4 * mx;
    let t: u64 = isqrt(rad);
    let denom: u64 = d * 255;
    proof {
        lemma_color_channel_in_range(c as int, mx as int, mn as int);
    }
    let v: u64 = t / denom;
    v as u8
}

/// Converts an 8-bit RGB request to the RGBW frame sent to the hardware.
///
/// The result is a pure function of the three inputs; each output channel is
/// pinned to the closed-form integer expression of its spec function.
pub fn rgb_to_rgbw(r: u8, g: u8, b: u8) -> (out: Rgbw)
    ensures
        out.r as int == color_channel(r as int, max3(r, g, b) as int, min3(r, g, b) as int),
        out.g as int == color_channel(g as int, max3(r, g, b) as int, min3(r, g, b) as int),
        out.b as int == color_channel(b as int, max3(r, g, b) as int, min3(r, g, b) as int),
        out.w as int == white_channel(max3(r, g, b) as int, min3(r, g, b) as int),
        out == rgbw_spec(r, g, b),
{
    proof {
        lemma_rgbw_in_range(r, g, b);
    }
    let mx: u64 = max3_exec(r, g, b) as u64;
    let mn: u64 = min3_exec(r, g, b) as u64;
    let d: u64 = mx - mn;
    assert(d * mx <= 65025 && d * mx * mx <= 65025 * 255 && d * mx * mx * mx <= 65025 * 65025)
        by (nonlinear_arith)
        requires
            d <= 255,
            mx <= 255,
    ;
    let wrad: u64 = d * mx * mx * mx;
    let sw: u64 = isqrt(wrad);
    assert(wrad <= mx * mx * mx * mx) by (nonlinear_arith)
        requires
            d <= mx,
            wrad == d * mx * mx * mx,
    ;
    assert(sw <= mx * mx) by (nonlinear_arith)
        requires
            sw * sw <= mx * mx * mx * mx,
    ;
    assert(mx * mx <= 65025) by (nonlinear_arith)
        requires
            mx <= 255,
    ;
    proof {
        lemma_white_channel_in_range(mx as int, mn as int);
    }
    let w: u64 = (mx * mx - sw) / 255;
    if d == 0 {
        Rgbw { r: 0, g: 0, b: 0, w: w as u8 }
    } else {
        Rgbw {
            r: channel_value(r, mx, mn),
            g: channel_value(g, mx, mn),
            b: channel_value(b, mx, mn),
            w: w as u8,
        }
    }
}

/// Black maps to all channels dark: no color and no white.
pub proof fn lemma_black_maps_to_dark()
    ensures
        color_channel(0, 0, 0) == 0,
        white_channel(0, 0) == 0,
{
    assert(sqrt_floor(0) == 0);
}

/// Full white input maps to the white channel alone, fully driven.
pub proof fn lemma_white_maps_to_white_channel()
    ensures
        color_channel(255, 255, 255) == 0,
        white_channel(255, 255) == 255,
{
    assert(sqrt_floor(0) == 0);
}

/// A fully saturated, fully bright primary keeps its own channel at 255 and
/// leaves the white channel dark.
pub proof fn lemma_pure_primary()
    ensures
        color_channel(255, 255, 0) == 255,
        color_channel(0, 255, 0) == 0,
        white_channel(255, 0) == 0,
{
    assert(16581375 * 16581375 == 274941996890625) by (nonlinear_arith);
    assert(16581376 * 16581376 == 274942030053376) by (nonlinear_arith);
    assert(255 * 255 * 255 * 255 * 255 * 255 == 274941996890625) by (nonlinear_arith);
    lemma_sqrt_floor_is(274941996890625nat, 16581375nat);
    assert(65025 * 65025 == 4228250625) by (nonlinear_arith);
    assert(65026 * 65026 == 4228380676) by (nonlinear_arith);
    assert(255 * 255 * 255 * 255 == 4228250625) by (nonlinear_arith);
    lemma_sqrt_floor_is(4228250625nat, 65025nat);
    assert(sqrt_floor(0) == 0);
    assert(color_channel(255, 255, 0) == 16581375 as int / 65025);
    assert(16581375 as int / 65025 == 255) by (nonlinear_arith);
    assert(white_channel(255, 0) == (65025 - 65025) as int / 255);
}

} // verus!
