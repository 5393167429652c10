//! Time as the reminder rules see it: instants on the UTC time line, readings
//! of the local wall clock, the times of day that reminders are set to, and
//! the RFC 3339 time stamps that records carry.
//!
//! Calendar work is chrono's. Each call into it stands in a private function
//! of this module whose contract is taken on trust; everything else here is
//! proved.

use chrono::Datelike;
use chrono::Timelike;
use vstd::prelude::*;

verus! {

pub const NANOS_PER_SECOND: u64 = 1_000_000_000;

pub const SECONDS_PER_MINUTE: u64 = 60;

pub const SECONDS_PER_HOUR: u64 = 3_600;

pub const NANOS_PER_DAY: u64 = 86_400_000_000_000;

/// A point on the UTC time line.
#[derive(Clone, Copy, Debug, PartialEq, Eq, Structural)]
pub struct Instant {
    /// Whole seconds since 1970-01-01T00:00:00Z, negative before it.
    pub secs: i64,
    /// Nanoseconds past that second.
    pub nanos: u32,
}

/// A time of day to the minute, as a reminder is set to.
#[derive(Clone, Copy, Debug, PartialEq, Eq, Structural)]
pub struct ClockTime {
    pub hour: u32,
    pub minute: u32,
}

/// One reading of the local wall clock.
#[derive(Clone, Copy, Debug, PartialEq, Eq, Structural)]
pub struct Moment {
    /// The same point on the UTC time line.
    pub instant: Instant,
    /// The local calendar date, as days counted from 0001-01-01 = 1.
    pub day: i32,
    /// The local time of day: whole seconds after midnight.
    pub secs_of_day: u32,
    /// Nanoseconds into that second; 1_000_000_000 and more in a leap second.
    pub frac: u32,
    /// The local day of the week, 0 for Sunday to 6 for Saturday.
    pub weekday: u8,
}

/// A time stamp as read on this machine: the instant it names and the local
/// calendar date on which that instant falls.
#[derive(Clone, Copy, Debug, PartialEq, Eq, Structural)]
pub struct LocalStamp {
    pub instant: Instant,
    /// Days counted from 0001-01-01 = 1, in the machine's time zone.
    pub day: i32,
}

/// What `chrono::NaiveTime::parse_from_str` with the format `%H:%M` makes of
/// a text: the hour and the minute, or `None` where it rejects the text.
pub uninterp spec fn clock_reading(text: Seq<char>) -> Option<(u32, u32)>;

/// What `chrono::DateTime::parse_from_rfc3339` makes of a text: the seconds
/// since 1970-01-01T00:00:00Z and the nanoseconds past them, or `None` where
/// it rejects the text.
pub uninterp spec fn rfc3339_reading(text: Seq<char>) -> Option<(i64, u32)>;

/// What `chrono::DateTime::to_rfc3339` writes for the UTC instant of the given
/// seconds and nanoseconds, or `None` where chrono has no such instant.
pub uninterp spec fn rfc3339_writing(secs: i64, nanos: u32) -> Option<Seq<char>>;

impl Instant {
    /// Nanoseconds since 1970-01-01T00:00:00Z.
    pub open spec fn since_epoch(self) -> int {
        self.secs * NANOS_PER_SECOND + self.nanos
    }

    /// The instant `minutes` minutes after this one, where its seconds still
    /// fit the field.
    pub open spec fn spec_plus_minutes(self, minutes: int) -> Option<Instant> {
        let secs = self.secs + minutes * SECONDS_PER_MINUTE;
        if i64::MIN <= secs <= i64::MAX {
            Some((Instant { secs: secs as i64, nanos: self.nanos }))
        } else {
            None
        }
    }

    /// Whole days from `self` to `later`, counted towards zero: 0 while less
    /// than a day lies between them in either direction, negative once
    /// `later` is a day or more before `self`.
    pub open spec fn whole_days_until(self, later: Instant) -> int {
        let elapsed = later.since_epoch() - self.since_epoch();
        if elapsed >= 0 {
            elapsed / (NANOS_PER_DAY as int)
        } else {
            -((-elapsed) / (NANOS_PER_DAY as int))
        }
    }

    /// The text that stands for this instant in a record, if it has one.
    pub open spec fn spec_stamp(self) -> Option<Seq<char>> {
        rfc3339_writing(self.secs, self.nanos)
    }

    pub fn plus_minutes(&self, minutes: i64) -> (moved: Option<Instant>)
        ensures
            moved == self.spec_plus_minutes(minutes as int),
    {
        let shift: i128 = (minutes as i128) * 60;
        let secs: i128 = (self.secs as i128) + shift;
        if secs < (i64::MIN as i128) || secs > (i64::MAX as i128) {
            None
        } else {
            Some(Instant { secs: secs as i64, nanos: self.nanos })
        }
    }

    pub fn days_until(&self, later: &Instant) -> (days: i64)
        ensures
            days == self.whole_days_until(*later),
    {
        let from: i128 = (self.secs as i128) * 1_000_000_000 + (self.nanos as i128);
        let to: i128 = (later.secs as i128) * 1_000_000_000 + (later.nanos as i128);
        let elapsed: i128 = to - from;
        if elapsed >= 0 {
            let days: i128 = elapsed / 86_400_000_000_000;
            days as i64
        } else {
            let back: i128 = -elapsed;
            let days: i128 = back / 86_400_000_000_000;
            (-days) as i64
        }
    }

}

impl ClockTime {
    /// The time of day that a text of the form HH:MM names.
    pub open spec fn spec_parse(text: Seq<char>) -> Option<ClockTime> {
        match clock_reading(text) {
            Some((hour, minute)) => Some((ClockTime { hour, minute })),
            None => None,
        }
    }

    /// Seconds from midnight to this time of day.
    pub open spec fn seconds(self) -> int {
        self.hour * SECONDS_PER_HOUR + self.minute * SECONDS_PER_MINUTE
    }
}

/// `chrono::Utc::now`, as seconds and nanoseconds since 1970-01-01T00:00:00Z.
/// The contract claims that the reading has a time stamp: chrono makes the
/// value of `now` with `DateTime::from_timestamp`, from which `write_stamp`
/// starts again with the seconds and nanoseconds that this value gives
/// back. Nothing else is claimed of the reading. chrono stops the program
/// where the system clock stands before 1970.
#[verifier::external_body]
pub(crate) fn read_utc_clock() -> (now: Instant)
    ensures
        rfc3339_writing(now.secs, now.nanos) is Some,
{
    let now = chrono::Utc::now();
    Instant { secs: now.timestamp(), nanos: now.timestamp_subsec_nanos() }
}

/// `chrono::Local::now`, taken apart with chrono's own accessors: the UNIX
/// time stamp, the local date's day number, the local time of day and the
/// local day of the week. Nothing is claimed of the reading. chrono stops the
/// program where the system clock stands before 1970.
#[verifier::external_body]
pub(crate) fn read_local_clock() -> (now: Moment) {
    let now = chrono::Local::now();
    Moment {
        instant: Instant { secs: now.timestamp(), nanos: now.timestamp_subsec_nanos() },
        day: now.date_naive().num_days_from_ce(),
        secs_of_day: now.time().num_seconds_from_midnight(),
        frac: now.time().nanosecond(),
        weekday: now.weekday().num_days_from_sunday() as u8,
    }
}

/// `chrono::NaiveTime::parse_from_str` with the format `%H:%M`. The contract
/// claims only that the outcome is a function of the text: `clock_reading`.
#[verifier::external_body]
pub(crate) fn parse_clock_time(text: &str) -> (time: Option<ClockTime>)
    ensures
        time is Some <==> clock_reading(text@) is Some,
        time matches Some(t) ==> clock_reading(text@) == Some((t.hour, t.minute)),
{
    match chrono::NaiveTime::parse_from_str(text, "%H:%M") {
        Ok(time) => Some(ClockTime { hour: time.hour(), minute: time.minute() }),
        Err(_) => None,
    }
}

/// `chrono::DateTime::parse_from_rfc3339`, then `with_timezone` to
/// `chrono::Local` for the calendar date. The contract claims that success
/// and the instant are a function of the text, `rfc3339_reading`, and nothing
/// of the date, which goes by the machine's time zone.
#[verifier::external_body]
pub(crate) fn read_stamp(text: &str) -> (stamp: Option<LocalStamp>)
    ensures
        stamp is Some <==> rfc3339_reading(text@) is Some,
        stamp matches Some(s) ==> rfc3339_reading(text@) == Some((s.instant.secs, s.instant.nanos)),
{
    match chrono::DateTime::parse_from_rfc3339(text) {
        Ok(parsed) => {
            let local = parsed.with_timezone(&chrono::Local);
            Some(LocalStamp {
                instant: Instant { secs: local.timestamp(), nanos: local.timestamp_subsec_nanos() },
                day: local.date_naive().num_days_from_ce(),
            })
        },
        Err(_) => None,
    }
}

/// `chrono::DateTime::from_timestamp`, then `to_rfc3339` on the UTC value.
/// The contract claims only that the outcome is a function of the seconds
/// and nanoseconds: `rfc3339_writing`.
#[verifier::external_body]
pub(crate) fn write_stamp(at: &Instant) -> (text: Option<String>)
    ensures
        text is Some <==> rfc3339_writing(at.secs, at.nanos) is Some,
        text matches Some(t) ==> rfc3339_writing(at.secs, at.nanos) == Some(t@),
{
    match chrono::DateTime::from_timestamp(at.secs, at.nanos) {
        Some(utc) => Some(utc.to_rfc3339()),
        None => None,
    }
}

} // verus!
