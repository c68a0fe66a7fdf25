//! Fixed-point units.
//!
//! Every length, angle and fraction in this library is a whole number of
//! millionths: of a pixel, of a degree, or of one.

use vstd::prelude::*;

verus! {

/// One pixel, in the unit of lengths.
pub const PIXEL: i64 = 1_000_000;

/// One degree of hue, in the unit of angles.
pub const DEGREE: i64 = 1_000_000;

/// The fraction 1.0.
pub const WHOLE: i64 = 1_000_000;

/// `value` moved to the nearest point of `[low, high]`.
pub open spec fn clamped(value: int, low: int, high: int) -> int {
    if value < low {
        low
    } else if value > high {
        high
    } else {
        value
    }
}

/// `num::clamp` on `i64`. The outside function returns `low` for a value under
/// it, `high` for a value over it and the value itself otherwise; a debug build
/// of it panics when `low > high`, so callers must order the bounds.
#[verifier::external_body]
pub(crate) fn clamp(value: i64, low: i64, high: i64) -> (r: i64)
    requires
        low <= high,
    ensures
        r == clamped(value as int, low as int, high as int),
{
    num::clamp(value, low, high)
}

} // verus!
