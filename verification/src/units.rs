//! Units: how decimal quantities, instants and durations are held.

use vstd::prelude::*;

verus! {

/// A decimal quantity (milliseconds, percent, dBm, Mbps, bytes per second, ...) in
/// billionths of its unit: 12.5 ms is `12_500_000_000`.
pub type Reading = i64;

/// An instant: nanoseconds since the Unix epoch, UTC.
pub type Timestamp = i64;

/// A signed length of time in nanoseconds.
pub type Span = i64;

/// One whole unit of a [`Reading`].
pub const UNIT: i64 = 1_000_000_000;

/// One second, as a [`Span`].
pub const SECOND: i64 = 1_000_000_000;

/// One millisecond, as a [`Span`].
pub const MILLISECOND: i64 = 1_000_000;

/// One minute, as a [`Span`].
pub const MINUTE: i64 = 60_000_000_000;

/// `v` held to the range of a [`Reading`].
pub open spec fn clamped(v: int) -> int {
    if v > i64::MAX {
        i64::MAX as int
    } else if v < i64::MIN {
        i64::MIN as int
    } else {
        v
    }
}

/// The difference of two readings, held to the range of a reading.
pub fn difference(a: Reading, b: Reading) -> (d: Reading)
    ensures
        d == clamped(a - b),
{
    let wide: i128 = a as i128 - b as i128;
    if wide > i64::MAX as i128 {
        i64::MAX
    } else if wide < i64::MIN as i128 {
        i64::MIN
    } else {
        wide as i64
    }
}

} // verus!
