//! Points in time of the UTC calendar, as far as `chrono` represents them.

use chrono::{DateTime, Duration, TimeZone, Utc};
use vstd::prelude::*;

verus! {

/// The first second of the calendar: midnight of January 1, -262143.
pub const FIRST_SECOND: i64 = -8_334_601_228_800;

/// The last second of the calendar: the last one of December 31, 262142.
pub const LAST_SECOND: i64 = 8_210_266_876_799;

/// A point in time: seconds since the start of 1970 without leap seconds, and the nanoseconds
/// since that second began. In a leap second the nanoseconds run on past a billion.
pub struct Moment {
    pub seconds: int,
    pub nanos: int,
}

impl Moment {
    /// Whether the calendar has this point.
    pub open spec fn representable(self) -> bool {
        &&& FIRST_SECOND <= self.seconds <= LAST_SECOND
        &&& 0 <= self.nanos < 2_000_000_000
        &&& self.nanos >= 1_000_000_000 ==> self.seconds % 60 == 59
    }

    /// Whether this point comes before `other`.
    pub open spec fn before(self, other: Moment) -> bool {
        self.seconds < other.seconds || (self.seconds == other.seconds && self.nanos < other.nanos)
    }

    /// The minute that this point lies in, counted from the start of 1970.
    pub open spec fn minute(self) -> int {
        self.seconds / 60
    }

    /// The nanoseconds outside a leap second.
    pub open spec fn common_nanos(self) -> int {
        if self.nanos >= 1_000_000_000 {
            self.nanos - 1_000_000_000
        } else {
            self.nanos
        }
    }

    /// The point `n` seconds later, for a positive `n`.
    pub open spec fn later(self, n: int) -> Moment {
        Moment { seconds: self.seconds + n, nanos: self.common_nanos() }
    }

    /// The point `n` seconds earlier, for a positive `n`. From within a leap second, the count
    /// goes back from the second that follows it.
    pub open spec fn earlier(self, n: int) -> Moment {
        Moment {
            seconds: self.seconds - n + (if self.nanos >= 1_000_000_000 { 1int } else { 0int }),
            nanos: self.common_nanos(),
        }
    }

    /// The nanoseconds from `start` to this point. A leap second at the earlier time of day
    /// counts.
    pub open spec fn nanos_since(self, start: Moment) -> int {
        let day = 86_400int;
        let leap = if self.seconds % day > start.seconds % day && start.nanos >= 1_000_000_000 {
            1int
        } else if self.seconds % day < start.seconds % day && self.nanos >= 1_000_000_000 {
            -1int
        } else {
            0int
        };
        (self.seconds - start.seconds + leap) * 1_000_000_000 + self.nanos - start.nanos
    }
}

/// `Utc.timestamp_opt` of `chrono`: there is a single date and time for the given seconds and
/// nanoseconds exactly when the calendar represents them.
#[verifier::external_body]
fn calendar_has(seconds: i64, nanos: u32) -> (r: bool)
    ensures
        r == (Moment { seconds: seconds as int, nanos: nanos as int }).representable(),
{
    Utc.timestamp_opt(seconds, nanos).single().is_some()
}

/// `+` of `chrono` on a date and time and a number of seconds.
#[verifier::external_body]
fn calendar_plus_seconds(seconds: i64, nanos: u32, n: u32) -> (r: (i64, u32))
    requires
        n > 0,
        (Moment { seconds: seconds as int, nanos: nanos as int }).representable(),
        (Moment { seconds: seconds as int, nanos: nanos as int }).later(n as int).representable(),
    ensures
        (Moment { seconds: r.0 as int, nanos: r.1 as int }) == (Moment {
            seconds: seconds as int,
            nanos: nanos as int,
        }).later(n as int),
{
    let moved: DateTime<Utc> = DateTime::from_timestamp(seconds, nanos).unwrap()
        + Duration::seconds(n as i64);
    (moved.timestamp(), moved.timestamp_subsec_nanos())
}

/// `-` of `chrono` on a date and time and a number of hours.
#[verifier::external_body]
fn calendar_minus_hours(seconds: i64, nanos: u32, hours: u32) -> (r: (i64, u32))
    requires
        hours > 0,
        (Moment { seconds: seconds as int, nanos: nanos as int }).representable(),
        (Moment { seconds: seconds as int, nanos: nanos as int }).earlier(
            3600 * hours as int,
        ).representable(),
    ensures
        (Moment { seconds: r.0 as int, nanos: r.1 as int }) == (Moment {
            seconds: seconds as int,
            nanos: nanos as int,
        }).earlier(3600 * hours as int),
{
    let moved: DateTime<Utc> = DateTime::from_timestamp(seconds, nanos).unwrap()
        - Duration::hours(hours as i64);
    (moved.timestamp(), moved.timestamp_subsec_nanos())
}

/// `-` of `chrono` on two dates and times: the duration from `start` to `end`, as whole seconds
/// and a rest of nanoseconds of the same sign.
#[verifier::external_body]
fn calendar_difference(end: (i64, u32), start: (i64, u32)) -> (r: (i64, i32))
    requires
        (Moment { seconds: end.0 as int, nanos: end.1 as int }).representable(),
        (Moment { seconds: start.0 as int, nanos: start.1 as int }).representable(),
    ensures
        r.0 * 1_000_000_000 + r.1 == (Moment {
            seconds: end.0 as int,
            nanos: end.1 as int,
        }).nanos_since(Moment { seconds: start.0 as int, nanos: start.1 as int }),
        -1_000_000_000 < r.1 < 1_000_000_000,
        r.0 > 0 ==> r.1 >= 0,
        r.0 < 0 ==> r.1 <= 0,
{
    let span: Duration = DateTime::<Utc>::from_timestamp(end.0, end.1).unwrap() - DateTime::<
        Utc,
    >::from_timestamp(start.0, start.1).unwrap();
    (span.num_seconds(), span.subsec_nanos())
}

/// A point in time that the calendar has.
#[derive(Clone, Copy, Debug, PartialEq, Eq)]
pub struct Timestamp {
    seconds: i64,
    nanos: u32,
}

impl View for Timestamp {
    type V = Moment;

    closed spec fn view(&self) -> Moment {
        Moment { seconds: self.seconds as int, nanos: self.nanos as int }
    }
}

impl Timestamp {
    /// Every timestamp is a point that the calendar has.
    #[verifier::type_invariant]
    pub open spec fn in_calendar(self) -> bool {
        self@.representable()
    }

    /// The point `nanos` nanoseconds into second `seconds`, where the calendar has it.
    pub fn new(seconds: i64, nanos: u32) -> (r: Option<Timestamp>)
        ensures
            r is Some == (Moment { seconds: seconds as int, nanos: nanos as int }).representable(),
            r matches Some(t) ==> t@ == (Moment { seconds: seconds as int, nanos: nanos as int }),
    {
        if calendar_has(seconds, nanos) {
            Some(Timestamp { seconds, nanos })
        } else {
            None
        }
    }

    /// The seconds since the start of 1970, leap seconds not counted.
    pub fn seconds(&self) -> (r: i64)
        ensures
            r == self@.seconds,
    {
        self.seconds
    }

    /// The nanoseconds since that second began.
    pub fn nanos(&self) -> (r: u32)
        ensures
            r == self@.nanos,
    {
        self.nanos
    }

    /// The minute that this point lies in.
    pub fn minute(&self) -> (r: i64)
        ensures
            r == self@.minute(),
            FIRST_SECOND <= 60 * r,
            60 * r <= LAST_SECOND,
    {
        proof {
            use_type_invariant(*self);
        }
        let s: i64 = self.seconds;
        if s >= 0 {
            s / 60
        } else {
            -((59 - s) / 60)
        }
    }

    /// Whether this point comes before `other`.
    pub fn is_before(&self, other: &Timestamp) -> (r: bool)
        ensures
            r == self@.before(other@),
    {
        self.seconds < other.seconds || (self.seconds == other.seconds && self.nanos
            < other.nanos)
    }

    /// The point `n` seconds later.
    pub fn plus_seconds(&self, n: u32) -> (r: Timestamp)
        requires
            n > 0,
            self@.later(n as int).representable(),
        ensures
            r@ == self@.later(n as int),
    {
        proof {
            use_type_invariant(*self);
        }
        let (seconds, nanos): (i64, u32) = calendar_plus_seconds(self.seconds, self.nanos, n);
        Timestamp { seconds, nanos }
    }

    /// The point `hours` hours earlier.
    pub fn minus_hours(&self, hours: u32) -> (r: Timestamp)
        requires
            hours > 0,
            self@.earlier(3600 * hours as int).representable(),
        ensures
            r@ == self@.earlier(3600 * hours as int),
    {
        proof {
            use_type_invariant(*self);
        }
        let (seconds, nanos): (i64, u32) = calendar_minus_hours(self.seconds, self.nanos, hours);
        Timestamp { seconds, nanos }
    }

    /// Whether more than `days` days passed from `start` to this point.
    pub fn exceeds_days_since(&self, start: &Timestamp, days: u32) -> (r: bool)
        ensures
            r == (self@.nanos_since(start@) > days * 86_400_000_000_000),
    {
        proof {
            use_type_invariant(*self);
            use_type_invariant(*start);
        }
        let (seconds, nanos): (i64, i32) = calendar_difference(
            (self.seconds, self.nanos),
            (start.seconds, start.nanos),
        );
        let limit: i64 = days as i64 * 86_400;
        seconds > limit || (seconds == limit && nanos > 0)
    }
}

} // verus!
