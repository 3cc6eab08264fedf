use chrono::{Datelike, Timelike};
use vstd::prelude::*;

verus! {

/// Seconds in a UTC day.
pub const SECONDS_PER_DAY: u32 = 86400;

/// Bound on the sub-second field: values from one billion up represent a leap second.
pub const NANOS_BOUND: u32 = 2_000_000_000;

/// A UTC instant as a calendar day number, the second of that day and the
/// nanoseconds within that second.
#[derive(Clone, Copy, Debug, PartialEq, Eq, Structural)]
pub struct Timestamp {
    pub day: i64,
    pub second: u32,
    pub nano: u32,
}

impl Timestamp {
    /// The fields are in range, and the day number fits the calendar's 32-bit day count.
    pub open spec fn wf(self) -> bool {
        &&& self.second < SECONDS_PER_DAY
        &&& self.nano < NANOS_BOUND
        &&& i32::MIN <= self.day <= i32::MAX
    }

    /// `self` is strictly earlier than `other`: days, then seconds, then nanoseconds.
    pub open spec fn precedes(self, other: Timestamp) -> bool {
        ||| self.day < other.day
        ||| (self.day == other.day && self.second < other.second)
        ||| (self.day == other.day && self.second == other.second && self.nano < other.nano)
    }

    /// Whether `self` is strictly earlier than `other`.
    pub fn is_before(&self, other: &Timestamp) -> (r: bool)
        ensures
            r == self.precedes(*other),
    {
        self.day < other.day || (self.day == other.day && self.second < other.second) || (
        self.day == other.day && self.second == other.second && self.nano < other.nano)
    }
}

/// The second of the day at which `hour:minute:00` falls.
pub open spec fn cutoff_second(hour: u8, minute: u8) -> int {
    hour as int * 3600 + minute as int * 60
}

/// The time of day of `now` lies strictly after the cutoff `hour:minute:00`.
pub open spec fn past_cutoff(now: Timestamp, hour: u8, minute: u8) -> bool {
    let c = cutoff_second(hour, minute);
    now.second > c || (now.second == c && now.nano > 0)
}

/// The expiry of an entry authorized at `now`: the cutoff time on the day
/// `days` days later, or on the day after that when the cutoff has already
/// passed at `now`'s time of day.
pub open spec fn expiry_of(now: Timestamp, days: u32, hour: u8, minute: u8) -> Timestamp {
    Timestamp {
        day: (now.day + days + if past_cutoff(now, hour, minute) {
            1int
        } else {
            0int
        }) as i64,
        second: cutoff_second(hour, minute) as u32,
        nano: 0,
    }
}

/// Computes the expiry of an entry authorized at `now`, aligned to the daily
/// cutoff `hour:minute:00`, at least `days` calendar days later.
pub fn expiry(now: Timestamp, days: u32, hour: u8, minute: u8) -> (r: Timestamp)
    requires
        now.wf(),
        hour <= 23,
        minute <= 59,
    ensures
        r == expiry_of(now, days, hour, minute),
        r.second < SECONDS_PER_DAY,
        r.nano == 0,
        now.precedes(r) || (days == 0 && r == now),
{
    let cutoff: u32 = hour as u32 * 3600 + minute as u32 * 60;
    let past = now.second > cutoff || (now.second == cutoff && now.nano > 0);
    let extra: i64 = if past {
        1
    } else {
        0
    };
    Timestamp { day: now.day + days as i64 + extra, second: cutoff, nano: 0 }
}

/// The current UTC instant, or `None` when the system clock reads before
/// 1970 or outside the calendar's range.
///
/// Relies on std's `SystemTime::now` and `duration_since` for the clock, on
/// chrono's `DateTime::from_timestamp` (`None` out of range, no panic), and on
/// its `num_days_from_ce`, `num_seconds_from_midnight` (below 86400) and
/// `nanosecond` (below two billion, leap seconds included) to read the
/// instant's parts.
#[verifier::external_body]
pub(crate) fn now() -> (r: Option<Timestamp>)
    ensures
        r matches Some(t) ==> t.wf(),
{
    let elapsed = std::time::SystemTime::now().duration_since(std::time::UNIX_EPOCH).ok()?;
    let secs = i64::try_from(elapsed.as_secs()).ok()?;
    let t = chrono::DateTime::from_timestamp(secs, elapsed.subsec_nanos())?;
    Some(Timestamp {
        day: i64::from(t.num_days_from_ce()),
        second: t.num_seconds_from_midnight(),
        nano: t.nanosecond(),
    })
}

} // verus!
