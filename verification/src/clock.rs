//! The local clock.

use vstd::prelude::*;
use chrono::{Datelike, Timelike};
use crate::timestamp::ClockReading;

verus! {

impl ClockReading {
    /// What every reading of the clock satisfies: each field but the year
    /// lies within its range on the calendar or the clock.
    pub open spec fn plausible(self) -> bool {
        &&& 1 <= self.month <= 12
        &&& 1 <= self.day <= 31
        &&& self.hour <= 23
        &&& self.minute <= 59
        &&& self.second <= 59
    }
}

/// Reads the system clock with `chrono::Local::now` and hands out the
/// calendar fields of the local time, as the accessors of chrono's
/// `Datelike` and `Timelike` give them. The contract claims the ranges
/// that chrono documents for those accessors: months from 1 to 12, days
/// from 1 to 31, hours from 0 to 23, minutes and seconds from 0 to 59.
/// Nothing is claimed of the year. chrono itself panics where the system
/// clock stands before 1970 or no local time type can be selected.
#[verifier::external_body]
pub(crate) fn local_now() -> (clock: ClockReading)
    ensures
        clock.plausible(),
{
    let now = chrono::Local::now();
    ClockReading {
        year: now.year(),
        month: now.month(),
        day: now.day(),
        hour: now.hour(),
        minute: now.minute(),
        second: now.second(),
    }
}

} // verus!
