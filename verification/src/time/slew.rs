//! Limits on the corrections handed to the system clock.
use vstd::prelude::*;

verus! {

/// Largest offset correction, in microseconds either way.
pub const MAX_OFFSET_US: i64 = 500_000;

/// Largest frequency correction either way, in units of 2^-16 ppm.
pub const MAX_FREQ: i64 = 512_000;

/// One correction of the system clock.
#[derive(Clone, Copy, Debug, PartialEq, Eq, Structural)]
pub struct Correction {
    /// Phase correction in microseconds.
    pub offset_us: i64,
    /// Frequency correction in units of 2^-16 ppm.
    pub freq: i64,
}

/// `x`, limited to `-bound ..= bound`.
pub open spec fn limited(x: int, bound: int) -> int {
    if x < -bound {
        -bound
    } else if x > bound {
        bound
    } else {
        x
    }
}

fn limit(x: i64, bound: i64) -> (y: i64)
    requires
        0 <= bound,
    ensures
        y == limited(x as int, bound as int),
{
    if x < -bound {
        -bound
    } else if x > bound {
        bound
    } else {
        x
    }
}

/// The correction for a measured offset and drift, each limited to what one step may apply.
pub fn correction(offset_us: i64, freq: i64) -> (c: Correction)
    ensures
        c.offset_us == limited(offset_us as int, MAX_OFFSET_US as int),
        c.freq == limited(freq as int, MAX_FREQ as int),
{
    Correction { offset_us: limit(offset_us, MAX_OFFSET_US), freq: limit(freq, MAX_FREQ) }
}

/// A correction never exceeds its bound, never changes direction and never overshoots the
/// measured value.
pub proof fn law_correction_is_bounded(x: int, bound: int)
    requires
        bound >= 0,
    ensures
        -bound <= limited(x, bound) <= bound,
        x >= 0 ==> 0 <= limited(x, bound) <= x,
        x <= 0 ==> x <= limited(x, bound) <= 0,
{
}

/// What lies within the bound is applied as it is, and what lies beyond it up to the bound.
pub proof fn law_corrections_within_bounds_are_applied(x: int, bound: int)
    requires
        bound >= 0,
    ensures
        -bound <= x <= bound ==> limited(x, bound) == x,
        x > bound ==> limited(x, bound) == bound,
        x < -bound ==> limited(x, bound) == -bound,
{
}

} // verus!
