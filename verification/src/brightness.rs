//! Brightness arithmetic: every value that reaches a pixel is clamped into
//! the 8-bit range, never wrapped.

use vstd::prelude::*;

verus! {

/// Largest brightness a pixel can hold.
pub const MAX_BRIGHTNESS: u8 = 255;

/// `v` clamped into the brightness range `0..=255`.
pub open spec fn clamp_level(v: int) -> int {
    if v < 0 {
        0
    } else if v > 255 {
        255
    } else {
        v
    }
}

/// The contrast-adjusted brightness: the product, clamped.
pub open spec fn contrasted(raw: int, contrast: int) -> int {
    clamp_level(raw * contrast)
}

/// The smoothed escape value: the escape count shifted by the offset and the
/// correction, clamped.
pub open spec fn smoothed(count: int, offset: int, correction: int) -> int {
    clamp_level(count + offset - correction)
}

/// Clamps a wide integer into the brightness range.
pub fn saturate(v: i128) -> (out: u8)
    ensures
        out == clamp_level(v as int),
{
    if v < 0 {
        0
    } else if v > 255 {
        MAX_BRIGHTNESS
    } else {
        v as u8
    }
}

/// Multiplies a raw brightness by the contrast factor and clamps the product
/// to `0..=255`. A contrast of 1 leaves the brightness as it is.
pub fn apply_contrast(raw: u8, contrast: u8) -> (out: u8)
    ensures
        out == contrasted(raw as int, contrast as int),
        contrast == 1 ==> out == raw,
{
    assert(0 <= raw * contrast <= 255 * 255) by (nonlinear_arith)
        requires
            0 <= raw <= 255,
            0 <= contrast <= 255,
    ;
    let product: u16 = (raw as u16) * (contrast as u16);
    saturate(product as i128)
}

/// Corrects an escape count by `offset - correction` and clamps the result
/// to `0..=255`, whatever the size or sign of the two terms.
pub fn smooth(count: u8, offset: i64, correction: i64) -> (out: u8)
    ensures
        out == smoothed(count as int, offset as int, correction as int),
{
    let shifted: i128 = count as i128 + offset as i128 - correction as i128;
    saturate(shifted)
}

/// Contrast scaling never leaves the brightness range and never wraps: the
/// result is the exact product while that is at most 255, and 255 from there
/// on.
pub proof fn lemma_contrast_saturates(raw: u8, contrast: u8)
    ensures
        0 <= contrasted(raw as int, contrast as int) <= 255,
        raw * contrast <= 255 ==> contrasted(raw as int, contrast as int) == raw * contrast,
        raw * contrast > 255 ==> contrasted(raw as int, contrast as int) == 255,
        contrasted(raw as int, 0) == 0,
        contrasted(raw as int, 1) == raw,
{
    assert(0 <= raw * contrast) by (nonlinear_arith)
        requires
            0 <= raw,
            0 <= contrast,
    ;
}

/// The smoothed escape value never leaves the brightness range, so the
/// subtraction of the correction cannot underflow and the offset cannot
/// overflow.
pub proof fn lemma_smoothed_in_range(count: int, offset: int, correction: int)
    ensures
        0 <= smoothed(count, offset, correction) <= 255,
        0 <= count + offset - correction <= 255 ==> smoothed(count, offset, correction) == count
            + offset - correction,
        count + offset < correction ==> smoothed(count, offset, correction) == 0,
{
}

} // verus!
