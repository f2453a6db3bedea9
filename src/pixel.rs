//! The per-pixel luma/chroma to RGB transform, in exact integer arithmetic.
//!
//! Each channel is a fixed-coefficient linear combination of `Y`, `Cb - 128` and
//! `Cr - 128` divided by a power of two. The quotient is rounded to the nearest
//! integer (halves away from zero) and saturated to `0..=255`.

use vstd::prelude::*;

verus! {

/// `n / d` rounded to the nearest integer and saturated to `0..=255`
/// (`d > 0`; values below zero become 0, above 255 become 255).
pub open spec fn clamp_scaled(n: int, d: int) -> int {
    if n < 0 {
        0
    } else if n > 255 * d {
        255
    } else {
        (n + d / 2) / d
    }
}

/// Red, scaled by 32: `32*Y + 45*(Cr - 128)`.
pub open spec fn red_scaled(y: u8, cr: u8) -> int {
    32 * y + 45 * (cr - 128)
}

/// Green, scaled by 32: `32*Y - (11*(Cb - 128) + 23*(Cr - 128))`.
pub open spec fn green_scaled(y: u8, cb: u8, cr: u8) -> int {
    32 * y - (11 * (cb - 128) + 23 * (cr - 128))
}

/// Blue, scaled by 64: `64*Y + 113*(Cb - 128)`.
pub open spec fn blue_scaled(y: u8, cb: u8) -> int {
    64 * y + 113 * (cb - 128)
}

/// The RGB triple of one pixel with luma `y` and chroma pair `(cb, cr)`.
pub open spec fn rgb_of(y: u8, cb: u8, cr: u8) -> (u8, u8, u8) {
    (
        clamp_scaled(red_scaled(y, cr), 32) as u8,
        clamp_scaled(green_scaled(y, cb, cr), 32) as u8,
        clamp_scaled(blue_scaled(y, cb), 64) as u8,
    )
}

/// Every channel of `clamp_scaled` lies in `0..=255`, whatever the numerator.
pub proof fn lemma_clamp_scaled_in_range(n: int, d: int)
    requires
        d == 32 || d == 64,
    ensures
        0 <= clamp_scaled(n, d) <= 255,
{
    if 0 <= n <= 255 * d {
        assert(0 <= (n + d / 2) / d <= 255) by (nonlinear_arith)
            requires
                0 <= n <= 255 * d,
                d == 32 || d == 64,
        ;
    }
}

/// Rounds `n / d` to the nearest integer and saturates it to a byte (`d` is 32 or 64).
pub fn clamp(n: i32, d: i32) -> (r: u8)
    requires
        d == 32 || d == 64,
    ensures
        r as int == clamp_scaled(n as int, d as int),
{
    proof {
        lemma_clamp_scaled_in_range(n as int, d as int);
    }
    if n < 0 {
        0
    } else if n > 255 * d {
        255
    } else {
        ((n + d / 2) / d) as u8
    }
}

/// Converts one pixel's luma `y` and shared chroma pair `(cb, cr)` to `(R, G, B)`.
pub fn ycbcr_to_rgb(y: u8, cb: u8, cr: u8) -> (r: (u8, u8, u8))
    ensures
        r == rgb_of(y, cb, cr),
{
    let cb_c: i32 = cb as i32 - 128;
    let cr_c: i32 = cr as i32 - 128;
    let y32: i32 = y as i32 * 32;
    let r = clamp(y32 + 45 * cr_c, 32);
    let g = clamp(y32 - (11 * cb_c + 23 * cr_c), 32);
    let b = clamp(y as i32 * 64 + 113 * cb_c, 64);
    proof {
        lemma_clamp_scaled_in_range(red_scaled(y, cr), 32);
        lemma_clamp_scaled_in_range(green_scaled(y, cb, cr), 32);
        lemma_clamp_scaled_in_range(blue_scaled(y, cb), 64);
    }
    (r, g, b)
}

/// With neutral chroma (`Cb = Cr = 128`) every channel equals the luma.
pub proof fn lemma_neutral_chroma(y: u8)
    ensures
        rgb_of(y, 128, 128) == (y, y, y),
{
    assert((32 * y + 16) / 32 == y as int);
    assert((64 * y + 32) / 64 == y as int);
}

/// No channel escapes the saturating step: each is the saturated, rounded value
/// of its formula, which lies in `0..=255`, for every `Y`, `Cb`, `Cr`.
pub proof fn lemma_channels_saturate(y: u8, cb: u8, cr: u8)
    ensures
        rgb_of(y, cb, cr).0 as int == clamp_scaled(red_scaled(y, cr), 32),
        rgb_of(y, cb, cr).1 as int == clamp_scaled(green_scaled(y, cb, cr), 32),
        rgb_of(y, cb, cr).2 as int == clamp_scaled(blue_scaled(y, cb), 64),
        0 <= clamp_scaled(red_scaled(y, cr), 32) <= 255,
        0 <= clamp_scaled(green_scaled(y, cb, cr), 32) <= 255,
        0 <= clamp_scaled(blue_scaled(y, cb), 64) <= 255,
{
    lemma_clamp_scaled_in_range(red_scaled(y, cr), 32);
    lemma_clamp_scaled_in_range(green_scaled(y, cb, cr), 32);
    lemma_clamp_scaled_in_range(blue_scaled(y, cb), 64);
}

} // verus!
