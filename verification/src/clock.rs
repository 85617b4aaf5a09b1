//! Time is modelled with plain integers: a timestamp is a number of
//! microseconds since the Unix epoch, and a calendar day is the number of
//! whole days since the epoch.  All aggregation is done per calendar day
//! in UTC.

use vstd::prelude::*;

verus! {

/// Microseconds in one second.
pub const MICROS_PER_SEC: u64 = 1_000_000;

/// Microseconds in one calendar day.
pub const MICROS_PER_DAY: u64 = 86_400_000_000;

/// Largest timestamp the engine works with (about the year 3100).
/// Keeping timestamps under this bound makes every `now + interval`
/// computation fit in a `u64`.
pub const MAX_TIMESTAMP_MICROS: u64 = 0x7F_FFFF_FFFF_FFFF;

/// Largest check interval, in seconds (more than a century).
pub const MAX_INTERVAL_SECS: u64 = 0xFFFF_FFFF;

/// The calendar day that a timestamp falls on.
pub open spec fn day_of(t: u64) -> u64 {
    t / MICROS_PER_DAY
}

/// Computes the calendar day of a timestamp.
pub fn day_of_micros(t: u64) -> (d: u64)
    ensures
        d == day_of(t),
{
    t / MICROS_PER_DAY
}

} // verus!
