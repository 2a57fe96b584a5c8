//! Fixed-point lengths with sixteen fractional bits: `ONE` is one pixel.

use vstd::prelude::*;

verus! {

/// One pixel, and the unit factor.
pub const ONE: i64 = 65536;

/// The length of `count` whole pixels.
pub open spec fn pixels(count: int) -> int {
    count * ONE
}

/// The number of whole pixels in `length`: negative lengths count as none,
/// and the count stops at the largest `u32`.
pub open spec fn whole_pixels(length: int) -> int {
    if length <= 0 {
        0
    } else if length / (ONE as int) >= u32::MAX {
        u32::MAX as int
    } else {
        length / (ONE as int)
    }
}

/// `length * factor`, rounded toward zero.
pub open spec fn scaled(length: int, factor: int) -> int {
    let product = length * factor;
    if product >= 0 {
        product / (ONE as int)
    } else {
        -((-product) / (ONE as int))
    }
}

/// The fraction `part / whole` as a factor, rounded down.
pub open spec fn ratio(part: int, whole: int) -> int {
    part * ONE / whole
}

/// The size of `length` without its sign.
pub open spec fn magnitude(length: int) -> int {
    if length >= 0 {
        length
    } else {
        -length
    }
}

/// The number is one that the machine can hold as a length.
pub open spec fn fits(value: int) -> bool {
    i64::MIN <= value <= i64::MAX
}

/// `|length| <= limit`.
pub open spec fn within(length: int, limit: int) -> bool {
    -limit <= length <= limit
}

/// The length of `count` whole pixels.
pub fn from_pixels(count: u32) -> (length: i64)
    ensures
        length == pixels(count as int),
{
    count as i64 * ONE
}

/// The number of whole pixels in `length`.
pub fn to_whole_pixels(length: i64) -> (count: u32)
    ensures
        count == whole_pixels(length as int),
{
    if length <= 0 {
        0
    } else if length / ONE >= u32::MAX as i64 {
        u32::MAX
    } else {
        (length / ONE) as u32
    }
}

/// Multiplies a length by a factor.
pub fn scale(length: i64, factor: i64) -> (product: i64)
    requires
        fits(scaled(length as int, factor as int)),
    ensures
        product == scaled(length as int, factor as int),
{
    assert(-0x4000_0000_0000_0000_0000_0000_0000_0000 <= length * factor
        <= 0x4000_0000_0000_0000_0000_0000_0000_0000) by (nonlinear_arith)
        requires
            -0x8000_0000_0000_0000 <= length <= 0x8000_0000_0000_0000,
            -0x8000_0000_0000_0000 <= factor <= 0x8000_0000_0000_0000,
    ;
    let wide: i128 = length as i128 * factor as i128;
    (wide / ONE as i128) as i64
}

/// A factor of magnitude at most one never lengthens what it scales.
pub proof fn lemma_scaled_bounds(length: int, factor: int)
    requires
        within(factor, ONE as int),
    ensures
        within(length * factor, magnitude(length) * ONE),
        within(scaled(length, factor), magnitude(length)),
{
    let size = magnitude(length);
    assert(within(length * factor, size * ONE)) by (nonlinear_arith)
        requires
            -ONE <= factor <= ONE,
            size == if length >= 0 { length } else { -length },
    ;
}

/// The fraction of `whole` that `part` is.
pub fn fraction(part: i64, whole: u32) -> (factor: i64)
    requires
        0 <= part <= whole,
        whole > 0,
    ensures
        factor == ratio(part as int, whole as int),
        0 <= factor <= ONE,
{
    assert(0 <= part * ONE / (whole as int) <= ONE) by (nonlinear_arith)
        requires
            0 <= part <= whole,
            whole > 0,
            ONE == 65536,
    ;
    (part * ONE) / whole as i64
}

} // verus!
