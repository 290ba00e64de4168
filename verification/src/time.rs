//! Points in time, as the clock reports them in UTC.
use chrono::Datelike;
use vstd::prelude::*;

verus! {

/// Whether `chrono` has a UTC date-time for `secs` seconds since the epoch
/// and `nanos` nanoseconds (`DateTime::from_timestamp(secs, nanos)` is
/// `Some`).
pub uninterp spec fn utc_valid(secs: i64, nanos: u32) -> bool;

/// `DateTime::to_rfc3339` of that date-time (offset written `+00:00`).
pub uninterp spec fn rfc3339_offset(secs: i64, nanos: u32) -> Seq<char>;

/// The RFC 3339 text that `chrono` serializes that date-time as (offset
/// written `Z`).
pub uninterp spec fn rfc3339_z(secs: i64, nanos: u32) -> Seq<char>;

/// The UTC calendar date (year, month, day) of that date-time
/// (`Datelike::year`, `month`, `day`).
pub uninterp spec fn utc_date(secs: i64, nanos: u32) -> (i32, u32, u32);

/// Whether `y` is a leap year of the proleptic Gregorian calendar.
pub open spec fn is_leap_year(y: int) -> bool {
    (y % 4 == 0 && y % 100 != 0) || y % 400 == 0
}

/// The number of days in month `m` (1 to 12) of year `y`.
pub open spec fn days_in_month(y: int, m: int) -> int {
    if m == 2 {
        if is_leap_year(y) {
            29
        } else {
            28
        }
    } else if m == 4 || m == 6 || m == 9 || m == 11 {
        30
    } else {
        31
    }
}

/// A calendar date: a month from 1 to 12 and a day that the month has.
pub open spec fn valid_date(y: int, m: int, d: int) -> bool {
    1 <= m <= 12 && 1 <= d <= days_in_month(y, m)
}

/// A UTC instant that `chrono` can represent: whole seconds since the Unix
/// epoch and the nanoseconds past that second.
#[derive(Debug, Clone, Copy, PartialEq, Eq, Structural)]
pub struct Timestamp {
    pub(crate) secs: i64,
    pub(crate) nanos: u32,
}

impl View for Timestamp {
    /// Seconds since the epoch and nanoseconds past the second.
    type V = (i64, u32);

    closed spec fn view(&self) -> (i64, u32) {
        (self.secs, self.nanos)
    }
}

/// `a` is strictly earlier than `b`.
pub open spec fn ts_before(a: Timestamp, b: Timestamp) -> bool {
    a@.0 < b@.0 || (a@.0 == b@.0 && a@.1 < b@.1)
}

/// `DateTime::from_timestamp(secs, nanos).is_some()`.
#[verifier::external_body]
fn chrono_accepts(secs: i64, nanos: u32) -> (b: bool)
    ensures
        b == utc_valid(secs, nanos),
{
    chrono::DateTime::from_timestamp(secs, nanos).is_some()
}

/// `chrono::Utc::now()`, kept as seconds and nanoseconds; chrono's own
/// documentation shows that these give the same date-time back.
#[verifier::external_body]
fn chrono_now() -> (t: (i64, u32))
    ensures
        utc_valid(t.0, t.1),
{
    let now = chrono::Utc::now();
    (now.timestamp(), now.timestamp_subsec_nanos())
}

/// `DateTime::to_rfc3339` of a representable instant.
#[verifier::external_body]
fn chrono_rfc3339(secs: i64, nanos: u32) -> (s: String)
    requires
        utc_valid(secs, nanos),
    ensures
        s@ == rfc3339_offset(secs, nanos),
{
    chrono::DateTime::from_timestamp(secs, nanos).unwrap().to_rfc3339()
}

/// The RFC 3339 text chrono's `Serialize` writes for a representable
/// instant (`SecondsFormat::AutoSi`, `Z` for UTC).
#[verifier::external_body]
fn chrono_rfc3339_z(secs: i64, nanos: u32) -> (s: String)
    requires
        utc_valid(secs, nanos),
    ensures
        s@ == rfc3339_z(secs, nanos),
{
    chrono::DateTime::from_timestamp(secs, nanos).unwrap().to_rfc3339_opts(
        chrono::SecondsFormat::AutoSi,
        true,
    )
}

/// The UTC date of a representable instant: chrono's `year()`,
/// `month()` and `day()`, which name a date of the calendar.
#[verifier::external_body]
fn chrono_date(secs: i64, nanos: u32) -> (d: (i32, u32, u32))
    requires
        utc_valid(secs, nanos),
    ensures
        d == utc_date(secs, nanos),
        valid_date(d.0 as int, d.1 as int, d.2 as int),
{
    let t = chrono::DateTime::from_timestamp(secs, nanos).unwrap();
    (t.year(), t.month(), t.day())
}

impl Timestamp {
    #[verifier::type_invariant]
    spec fn inv(self) -> bool {
        utc_valid(self.secs, self.nanos)
    }

    /// The instant `secs` seconds and `nanos` nanoseconds after the epoch,
    /// if chrono can represent it.
    pub fn from_parts(secs: i64, nanos: u32) -> (r: Option<Timestamp>)
        ensures
            r is Some <==> utc_valid(secs, nanos),
            r matches Some(t) ==> t@ == (secs, nanos),
    {
        if chrono_accepts(secs, nanos) {
            Some(Timestamp { secs, nanos })
        } else {
            None
        }
    }

    /// The current time.
    pub fn now() -> (t: Timestamp) {
        let (secs, nanos) = chrono_now();
        Timestamp { secs, nanos }
    }

    /// Whole seconds since the epoch (chrono's `DateTime::timestamp`).
    pub fn timestamp(&self) -> (s: i64)
        ensures
            s == self@.0,
    {
        self.secs
    }

    /// Nanoseconds past the second.
    pub fn subsec_nanos(&self) -> (n: u32)
        ensures
            n == self@.1,
    {
        self.nanos
    }

    /// The UTC calendar date of this instant.
    pub open spec fn date_spec(&self) -> (i32, u32, u32) {
        utc_date(self@.0, self@.1)
    }

    /// The UTC calendar date: year, month (1 to 12) and day.
    pub fn date(&self) -> (d: (i32, u32, u32))
        ensures
            d == utc_date(self@.0, self@.1),
            valid_date(d.0 as int, d.1 as int, d.2 as int),
    {
        proof {
            use_type_invariant(self);
        }
        chrono_date(self.secs, self.nanos)
    }

    /// The instant `days` whole days later, if it can be represented.
    pub fn plus_days(&self, days: u64) -> (r: Option<Timestamp>)
        ensures
            ({
                let s = self@.0 + 86400 * days;
                &&& r is Some <==> 86400 * days <= i64::MAX && s <= i64::MAX && utc_valid(
                    s as i64,
                    self@.1,
                )
                &&& r matches Some(t) ==> t@ == (s as i64, self@.1)
            }),
    {
        if days > 106751991167300 {
            return None;
        }
        let d: i64 = (days as i64) * 86400;
        if self.secs > i64::MAX - d {
            return None;
        }
        Timestamp::from_parts(self.secs + d, self.nanos)
    }

    /// Whether `self` is strictly earlier than `other`.
    pub fn before(&self, other: &Timestamp) -> (b: bool)
        ensures
            b == ts_before(*self, *other),
    {
        self.secs < other.secs || (self.secs == other.secs && self.nanos < other.nanos)
    }

    /// RFC 3339 text with a `+00:00` offset (`DateTime::to_rfc3339`).
    pub fn to_rfc3339(&self) -> (s: String)
        ensures
            s@ == rfc3339_offset(self@.0, self@.1),
    {
        proof {
            use_type_invariant(self);
        }
        chrono_rfc3339(self.secs, self.nanos)
    }

    /// RFC 3339 text with a `Z` offset, as the instant is serialized.
    pub fn to_rfc3339_z(&self) -> (s: String)
        ensures
            s@ == rfc3339_z(self@.0, self@.1),
    {
        proof {
            use_type_invariant(self);
        }
        chrono_rfc3339_z(self.secs, self.nanos)
    }
}

} // verus!
