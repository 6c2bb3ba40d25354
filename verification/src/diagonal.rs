//! Diagonal compensation: when both axes move at once, each axis is slowed
//! to roughly `1/sqrt(2)` of its speed, so that the pointer crosses the
//! screen diagonally no faster than it does along an axis.

use vstd::prelude::*;

verus! {

/// A magnitude scaled by 181/256 (which stands for `1/sqrt(2)`) and rounded
/// down, but never below 1.
pub open spec fn compensated(magnitude: int) -> int {
    let scaled = magnitude * 181 / 256;
    if scaled < 1 {
        1
    } else {
        scaled
    }
}

/// Compensation never yields less than 1, and never raises a magnitude of at
/// least 1.
pub proof fn compensated_bounds(magnitude: int)
    ensures
        compensated(magnitude) >= 1,
        magnitude >= 1 ==> compensated(magnitude) <= magnitude,
{
}

/// Compensation keeps the order of magnitudes.
pub proof fn compensated_monotone(a: int, b: int)
    requires
        a <= b,
    ensures
        compensated(a) <= compensated(b),
{
}

/// Scales `magnitude` for simultaneous motion on both axes.
pub fn compensate(magnitude: i32) -> (scaled: i32)
    ensures
        scaled == compensated(magnitude as int),
{
    if magnitude <= 1 {
        return 1;
    }
    let wide: u64 = magnitude as u64;
    let scaled: u64 = wide * 181 / 256;
    scaled as i32
}

} // verus!
