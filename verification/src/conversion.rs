//! Unit conversion between configured speeds (miles per hour) and the
//! canonical velocity unit (metres per second).
//!
//! One mile per hour is 1/2.237 metres per second; the conversion rounds to
//! the nearest whole metre per second, as block speed limits are stored
//! pre-converted in whole canonical units.

use vstd::prelude::*;

verus! {

/// `mph` miles per hour in metres per second, rounded to nearest: the
/// rational `mph * 1000 / 2237` rounded half away from zero (a tie cannot
/// occur, as the denominator is odd).
pub open spec fn mph_to_mps(mph: int) -> int {
    (mph * 2000 + 2237) / 4474
}

/// Converts a speed in miles per hour to whole metres per second, rounded
/// to nearest.
pub fn convert_to_mps(mph: u32) -> (r: u32)
    ensures
        r == mph_to_mps(mph as int),
{
    (((mph as u64) * 2000 + 2237) / 4474) as u32
}

} // verus!
