#![verifier::loop_isolation(false)]
//! Wake scheduling arithmetic: how long the device sleeps until the next
//! refresh, from a plain wall-clock reading.
//!
//! The display refreshes at one minute past each hour during the day and
//! sleeps through the night until six in the morning.

use vstd::prelude::*;

use crate::weather::LocalTime;

verus! {

/// A wall-clock reading within a day.
#[derive(Clone, Copy, PartialEq, Eq, Structural, Debug)]
pub struct ClockTime {
    pub hour: u8,
    pub minute: u8,
    pub second: u8,
}

impl ClockTime {
    pub open spec fn wf(self) -> bool {
        self.hour < 24 && self.minute < 60 && self.second < 60
    }

    /// Seconds since midnight.
    pub open spec fn seconds_of_day(self) -> int {
        3600 * self.hour + 60 * self.minute + self.second
    }
}

/// Seconds until one minute past the next full hour, the daytime wake-up
/// offset that leaves the server a minute to publish the new image.
pub open spec fn spec_until_next_hour(t: ClockTime) -> int {
    3660 - 60 * t.minute - t.second
}

/// Seconds until the next six in the morning.
pub open spec fn spec_until_6am(t: ClockTime) -> int {
    if t.seconds_of_day() < 21600 {
        21600 - t.seconds_of_day()
    } else {
        21600 + 86400 - t.seconds_of_day()
    }
}

/// Seconds from `t` until one minute past the next full hour.
pub fn time_until_next_hour(t: ClockTime) -> (r: u32)
    requires
        t.wf(),
    ensures
        r as int == spec_until_next_hour(t),
        1 <= r <= 3660,
{
    3660 - 60 * (t.minute as u32) - (t.second as u32)
}

/// Seconds from `t` until the next six in the morning.
pub fn time_until_6am(t: ClockTime) -> (r: u32)
    requires
        t.wf(),
    ensures
        r as int == spec_until_6am(t),
        1 <= r <= 86400,
{
    let sod: u32 = 3600 * (t.hour as u32) + 60 * (t.minute as u32) + (t.second as u32);
    if sod < 21600 {
        21600 - sod
    } else {
        21600 + 86400 - sod
    }
}

/// How long to sleep before the next refresh: until a minute past the next
/// hour during the day, and until six in the morning through the night.
pub fn get_sleep_time(t: ClockTime) -> (r: u32)
    requires
        t.wf(),
    ensures
        r as int == if 6 <= t.hour <= 22 {
            spec_until_next_hour(t)
        } else {
            spec_until_6am(t)
        },
        1 <= r <= 86400,
{
    if 6 <= t.hour && t.hour <= 22 {
        time_until_next_hour(t)
    } else {
        time_until_6am(t)
    }
}

/// The hour shown in the header clock: past half past, the display already
/// names the coming hour, wrapping to 0 at midnight.
pub open spec fn spec_display_hour(t: LocalTime) -> int {
    if t.minute > 30 {
        (t.hour + 1) % 24
    } else {
        t.hour as int
    }
}

/// Rounds the clock reading to the hour the header shows.
pub fn round_display_hour(t: LocalTime) -> (r: u8)
    requires
        t.hour < 24,
    ensures
        r as int == spec_display_hour(t),
{
    if t.minute > 30 {
        (t.hour + 1) % 24
    } else {
        t.hour
    }
}

} // verus!
