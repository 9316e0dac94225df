//! Instants, and their RFC 3339 text.
//!
//! An [`Instant`] is a plain pair of numbers. The clock is std's, and
//! reading it never fails. Turning an instant into text and back is the
//! work of `chrono`; comparing instants and adding a time to live is done
//! here.

use vstd::prelude::*;

verus! {

/// A point in time: whole seconds since the Unix epoch, and the nanoseconds
/// into that second.
#[derive(Debug, Clone, Copy, PartialEq, Eq, Structural)]
pub struct Instant {
    pub secs: i64,
    pub nanos: u32,
}

impl Instant {
    /// `self` is strictly later than `other`.
    pub open spec fn is_after(self, other: Instant) -> bool {
        self.secs > other.secs || (self.secs == other.secs && self.nanos > other.nanos)
    }

    /// Whether `self` is strictly later than `other`.
    pub fn after(&self, other: &Instant) -> (r: bool)
        ensures
            r == self.is_after(*other),
    {
        self.secs > other.secs || (self.secs == other.secs && self.nanos > other.nanos)
    }

    /// The instant `secs` seconds after `self`, where the count of seconds
    /// still fits.
    pub open spec fn plus_secs(self, secs: u64) -> Option<Instant> {
        if self.secs + secs <= i64::MAX {
            Some(Instant { secs: (self.secs + secs) as i64, nanos: self.nanos })
        } else {
            None
        }
    }

    /// The instant `secs` seconds after `self`; `None` where the count of
    /// seconds would not fit.
    pub fn checked_add_secs(&self, secs: u64) -> (r: Option<Instant>)
        ensures
            r == self.plus_secs(secs),
    {
        let sum: i128 = self.secs as i128 + secs as i128;
        if sum > 0x7fff_ffff_ffff_ffff {
            None
        } else {
            Some(Instant { secs: sum as i64, nanos: self.nanos })
        }
    }
}

/// The RFC 3339 text that `chrono` writes for the UTC instant with the
/// given timestamp, or `None` where `chrono` has no date for it.
pub uninterp spec fn rfc3339_text(secs: i64, nanos: u32) -> Option<Seq<char>>;

/// The instant that `chrono` reads from an RFC 3339 text, or `None` where it
/// rejects the text.
pub uninterp spec fn rfc3339_instant(text: Seq<char>) -> Option<Instant>;

/// The first second for which `chrono` has a date: the start of the first
/// day of the year -262143.
pub const FIRST_SECOND: i64 = -8_334_601_228_800;

/// The last second for which `chrono` has a date: the end of the last day
/// of the year 262142.
pub const LAST_SECOND: i64 = 8_210_266_876_799;

/// The instants for which `chrono` has a date: those from the first to the
/// last second of its years, with nanoseconds of less than a second, or of
/// less than two in the last second of a minute, which is how it writes a
/// leap second.
pub open spec fn has_date(at: Instant) -> bool {
    &&& FIRST_SECOND <= at.secs <= LAST_SECOND
    &&& (at.nanos < 1_000_000_000 || (at.nanos < 2_000_000_000 && at.secs % 60 == 59))
}

/// What holds of every reading of the clock: it is not before the epoch,
/// and its nanoseconds are less than a second.
pub open spec fn is_clock_reading(at: Instant) -> bool {
    at.secs >= 0 && at.nanos < 1_000_000_000
}

/// `std::time::SystemTime::now`, as the time since the epoch: whole seconds
/// and the nanoseconds into the second, which are less than a second. A
/// clock that stands before the epoch reads as the epoch. Which time it is
/// depends on the clock alone.
#[verifier::external_body]
pub(crate) fn system_now() -> (r: (u64, u32))
    ensures
        r.1 < 1_000_000_000,
{
    let since = std::time::SystemTime::now().duration_since(std::time::UNIX_EPOCH);
    let since = since.unwrap_or_default();
    (since.as_secs(), since.subsec_nanos())
}

/// The current time. A clock that stands before the epoch reads as the
/// epoch, and one that has counted more seconds than an instant holds reads
/// as the last instant; reading the clock never fails.
pub fn now() -> (at: Instant)
    ensures
        is_clock_reading(at),
{
    let (secs, nanos) = system_now();
    let secs: i64 = if secs > 0x7fff_ffff_ffff_ffff {
        0x7fff_ffff_ffff_ffff
    } else {
        secs as i64
    };
    Instant { secs, nanos }
}

/// `chrono::DateTime::to_rfc3339` on the UTC date and time that
/// `DateTime::from_timestamp` makes of `at`. The text depends on `at` alone;
/// there is none where `from_timestamp` returns `None`. It returns a date
/// exactly for the seconds whose day lies in the years of `NaiveDate`, from
/// `MIN_YEAR` to `MAX_YEAR`, with the nanoseconds that
/// `NaiveTime::from_num_seconds_from_midnight_opt` takes.
#[verifier::external_body]
pub(crate) fn to_rfc3339(at: Instant) -> (r: Option<String>)
    ensures
        match r {
            Some(text) => rfc3339_text(at.secs, at.nanos) == Some(text@),
            None => rfc3339_text(at.secs, at.nanos) is None,
        },
        r is Some <==> has_date(at),
{
    match chrono::DateTime::from_timestamp(at.secs, at.nanos) {
        Some(date_time) => Some(date_time.to_rfc3339()),
        None => None,
    }
}

/// `chrono::DateTime::parse_from_rfc3339`: the instant a text stands for, as
/// its timestamp and nanoseconds, or `None` where the text is rejected. The
/// result depends on the text alone.
#[verifier::external_body]
pub(crate) fn parse_rfc3339(text: &str) -> (r: Option<Instant>)
    ensures
        r == rfc3339_instant(text@),
{
    match chrono::DateTime::parse_from_rfc3339(text) {
        Ok(date_time) => Some(
            Instant { secs: date_time.timestamp(), nanos: date_time.timestamp_subsec_nanos() },
        ),
        Err(_) => None,
    }
}

/// Whether an entry that expires at the instant `expires_at` has expired at
/// `now`. It has once `now` is strictly later; an entry without a readable
/// expiry has always expired.
pub open spec fn expired(expires_at: Option<Instant>, now: Instant) -> bool {
    match expires_at {
        Some(at) => now.is_after(at),
        None => true,
    }
}

/// Whether an entry that expires at `expires_at` has expired at `now`.
pub fn has_expired(expires_at: Option<Instant>, now: Instant) -> (r: bool)
    ensures
        r == expired(expires_at, now),
{
    match expires_at {
        Some(at) => now.after(&at),
        None => true,
    }
}

/// Whether an entry whose expiry is written as `expires_at` has expired at
/// `now`.
pub fn is_expired_at(expires_at: &str, now: Instant) -> (r: bool)
    ensures
        r == expired(rfc3339_instant(expires_at@), now),
{
    has_expired(parse_rfc3339(expires_at), now)
}

/// The RFC 3339 text of the current time, in UTC: the text of some reading
/// of the clock, or none where that reading has no date.
pub fn timestamp() -> (r: Option<String>)
    ensures
        exists|at: Instant|
            is_clock_reading(at) && (r is Some <==> has_date(at)) && (r matches Some(text)
                ==> #[trigger] rfc3339_text(at.secs, at.nanos) == Some(text@)),
{
    let at = now();
    let r = to_rfc3339(at);
    assert(is_clock_reading(at) && (r is Some <==> has_date(at)) && (r matches Some(text)
        ==> rfc3339_text(at.secs, at.nanos) == Some(text@)));
    r
}

} // verus!
