//! Lengths and offsets along the scrolling axis.
//!
//! All geometry is carried in whole layout units as `i64`. Every single
//! length that enters the engine is kept within `MAX_EXTENT`, which leaves
//! enough headroom for the sums that a measurement pass forms.

use vstd::prelude::*;

verus! {

/// Largest length, padding, spacing or scroll distance the engine accepts.
pub const MAX_EXTENT: i64 = 0x100_0000_0000;

/// A length: between zero and `MAX_EXTENT`.
pub open spec fn is_extent(x: int) -> bool {
    0 <= x <= MAX_EXTENT
}

/// A signed distance: at most `MAX_EXTENT` in either direction.
pub open spec fn is_distance(x: int) -> bool {
    -MAX_EXTENT <= x <= MAX_EXTENT
}

/// The distance nearest to `x`.
pub open spec fn clamp_distance(x: int) -> int {
    if x < -MAX_EXTENT {
        -MAX_EXTENT as int
    } else if x > MAX_EXTENT {
        MAX_EXTENT as int
    } else {
        x
    }
}

/// The smaller of two integers.
pub open spec fn min_int(a: int, b: int) -> int {
    if a <= b {
        a
    } else {
        b
    }
}

/// The larger of two integers.
pub open spec fn max_int(a: int, b: int) -> int {
    if a >= b {
        a
    } else {
        b
    }
}

/// Whether `x` is a length.
pub fn check_extent(x: i64) -> (ok: bool)
    ensures
        ok == is_extent(x as int),
{
    0 <= x && x <= MAX_EXTENT
}

/// The sum of two distances, held within `MAX_EXTENT` in either direction.
pub fn add_distances(a: i64, b: i64) -> (sum: i64)
    requires
        is_distance(a as int),
    ensures
        sum == clamp_distance(a + clamp_distance(b as int)),
{
    let step: i64 = if b < -MAX_EXTENT {
        -MAX_EXTENT
    } else if b > MAX_EXTENT {
        MAX_EXTENT
    } else {
        b
    };
    let raw: i64 = a + step;
    if raw < -MAX_EXTENT {
        -MAX_EXTENT
    } else if raw > MAX_EXTENT {
        MAX_EXTENT
    } else {
        raw
    }
}

} // verus!
