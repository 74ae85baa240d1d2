//! Calendar dates of timestamps. A timestamp is a count of nanoseconds since
//! the Unix epoch; its date is the UTC calendar day it falls on, counted in
//! days since 1970-01-01.

use vstd::prelude::*;
use vstd::arithmetic::div_mod::lemma_div_is_ordered;

verus! {

/// Nanoseconds in one calendar day.
pub const NANOS_PER_DAY: i64 = 86_400_000_000_000;

/// The day a timestamp falls on: the timestamp divided by the length of a
/// day, rounded down, so that the instants before the epoch fall on negative
/// days.
pub open spec fn day_number(dt: i64) -> int {
    dt as int / 86_400_000_000_000
}

/// Calls chrono: `DateTime::from_timestamp_nanos`, then `date_naive`, then
/// `NaiveDate::to_epoch_days`. The first splits the nanoseconds into whole
/// seconds and a non-negative rest and the seconds into whole days and a
/// non-negative rest, both rounding down, and never fails on an `i64`; the
/// last counts the days of that date from 1970-01-01. Together they give the
/// timestamp divided by the nanoseconds of a day, rounded down.
#[verifier::external_body]
fn epoch_day(dt: i64) -> (day: i32)
    ensures
        day as int == day_number(dt),
{
    chrono::DateTime::from_timestamp_nanos(dt).date_naive().to_epoch_days()
}

/// The calendar day of a timestamp, in days since 1970-01-01.
pub fn calendar_day(dt: i64) -> (day: i32)
    ensures
        day as int == day_number(dt),
        -106_752 <= day <= 106_751,
{
    let day: i32 = epoch_day(dt);
    proof {
        lemma_day_number_bounds(dt);
    }
    day
}

/// Every timestamp falls on a day between -106752 and 106751.
pub proof fn lemma_day_number_bounds(dt: i64)
    ensures
        -106_752 <= day_number(dt) <= 106_751,
{
    let day = day_number(dt);
    assert(day * 86_400_000_000_000 <= dt < day * 86_400_000_000_000 + 86_400_000_000_000) by {
        vstd::arithmetic::div_mod::lemma_fundamental_div_mod(dt as int, 86_400_000_000_000);
        vstd::arithmetic::div_mod::lemma_mod_bound(dt as int, 86_400_000_000_000);
    }
}

/// A later timestamp never falls on an earlier day.
pub proof fn lemma_day_number_monotonic(earlier: i64, later: i64)
    requires
        earlier <= later,
    ensures
        day_number(earlier) <= day_number(later),
{
    lemma_div_is_ordered(earlier as int, later as int, 86_400_000_000_000);
}

/// The unit in which a table counts its timestamps.
#[derive(Debug, Clone, Copy, PartialEq, Eq, Structural)]
pub enum StampUnit {
    Nanoseconds,
    Microseconds,
    Milliseconds,
}

impl StampUnit {
    /// The nanoseconds in one unit.
    pub open spec fn nanos(self) -> int {
        match self {
            StampUnit::Nanoseconds => 1,
            StampUnit::Microseconds => 1_000,
            StampUnit::Milliseconds => 1_000_000,
        }
    }
}

/// A timestamp counted in `unit`, in nanoseconds; `None` when the
/// nanoseconds do not fit.
pub fn to_nanoseconds(stamp: i64, unit: StampUnit) -> (nanos: Option<i64>)
    ensures
        match nanos {
            Some(n) => n == stamp * unit.nanos(),
            None => stamp * unit.nanos() < i64::MIN || stamp * unit.nanos() > i64::MAX,
        },
{
    let scale: i64 = match unit {
        StampUnit::Nanoseconds => 1,
        StampUnit::Microseconds => 1_000,
        StampUnit::Milliseconds => 1_000_000,
    };
    stamp.checked_mul(scale)
}

} // verus!
