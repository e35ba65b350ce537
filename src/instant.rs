//! The canonical instant: whole seconds since the Unix epoch (UTC) and a
//! nanosecond fraction, with the conversions from and to epoch milliseconds.

use vstd::prelude::*;
use chrono::TimeZone;

verus! {

/// The last whole second since the epoch that the calendar can represent
/// (December 31st of year 262142, 23:59:59 UTC).
pub const MAX_EPOCH_SECS: i64 = 8_210_266_876_799;

/// Nanoseconds in one millisecond.
pub const NANOS_PER_MILLI: u32 = 1_000_000;

/// A point in time, normalized to UTC, with nanosecond precision.
#[derive(Clone, Copy, Debug, PartialEq, Eq, Structural)]
pub struct Instant {
    pub secs: i64,
    pub nanos: u32,
}

/// The calendar's own rendering of a valid instant in RFC 3339 form.
pub uninterp spec fn rfc3339_of(secs: int, nanos: int) -> Seq<char>;

/// Relies on chrono's `Utc.timestamp_opt`: for a non-negative second count and a
/// fraction below one second it yields a single instant exactly when the seconds
/// stay within the calendar's last day.
#[verifier::external_body]
fn calendar_accepts(secs: i64, nanos: u32) -> (r: bool)
    requires
        0 <= secs,
        nanos < 1_000_000_000,
    ensures
        r == (secs <= MAX_EPOCH_SECS),
{
    chrono::Utc.timestamp_opt(secs, nanos).single().is_some()
}

/// Relies on chrono's `DateTime::to_rfc3339`, applied to the instant that
/// `Utc.timestamp_opt` builds from a valid second count and fraction.
#[verifier::external_body]
fn calendar_rfc3339(secs: i64, nanos: u32) -> (r: String)
    requires
        0 <= secs <= MAX_EPOCH_SECS,
        nanos < 1_000_000_000,
    ensures
        r@ == rfc3339_of(secs as int, nanos as int),
{
    chrono::Utc.timestamp_opt(secs, nanos).unwrap().to_rfc3339()
}

/// Epoch milliseconds that denote a representable instant: not before the
/// epoch, and not past the calendar's last second.
pub open spec fn valid_millis(t: int) -> bool {
    0 <= t && t / 1000 <= MAX_EPOCH_SECS
}

/// The instant that `t` epoch milliseconds denote: the seconds are `t / 1000`,
/// the fraction `(t % 1000) * 1_000_000` nanoseconds.
pub open spec fn instant_of_millis(t: int) -> Instant {
    Instant { secs: (t / 1000) as i64, nanos: ((t % 1000) * 1_000_000) as u32 }
}

impl Instant {
    /// A well-formed instant lies within the calendar and has a sub-second fraction.
    pub open spec fn wf(&self) -> bool {
        0 <= self.secs <= MAX_EPOCH_SECS && self.nanos < 1_000_000_000
    }

    /// Epoch milliseconds of the instant, sub-millisecond precision dropped.
    pub open spec fn millis_spec(&self) -> int {
        self.secs * 1000 + self.nanos / 1_000_000
    }

    /// Converts epoch milliseconds into the canonical instant. Fails with
    /// `None` when `t` is negative or past the calendar's range.
    pub fn from_millis(t: i64) -> (r: Option<Instant>)
        ensures
            r == (if valid_millis(t as int) { Some(instant_of_millis(t as int)) } else { None::<Instant> }),
            r matches Some(i) ==> i.wf(),
    {
        if t < 0 {
            return None;
        }
        let secs: i64 = t / 1000;
        let nanos: u32 = ((t % 1000) as u32) * NANOS_PER_MILLI;
        if calendar_accepts(secs, nanos) {
            Some(Instant { secs, nanos })
        } else {
            None
        }
    }

    /// Epoch milliseconds of the instant.
    pub fn to_millis(&self) -> (r: i64)
        requires
            self.wf(),
        ensures
            r == self.millis_spec(),
    {
        self.secs * 1000 + (self.nanos / NANOS_PER_MILLI) as i64
    }

    /// The instant in RFC 3339 interchange form, as the calendar renders it.
    pub fn to_rfc3339(&self) -> (r: String)
        requires
            self.wf(),
        ensures
            r@ == rfc3339_of(self.secs as int, self.nanos as int),
    {
        calendar_rfc3339(self.secs, self.nanos)
    }
}

/// Epoch milliseconds survive the trip through the canonical instant unchanged.
pub proof fn lemma_millis_round_trip(t: int)
    requires
        valid_millis(t),
    ensures
        instant_of_millis(t).wf(),
        instant_of_millis(t).millis_spec() == t,
{
    assert(0 <= t % 1000 < 1000);
    assert((t % 1000) * 1_000_000 / 1_000_000 == t % 1000) by (nonlinear_arith)
        requires 0 <= t % 1000 < 1000;
    assert(t == (t / 1000) * 1000 + t % 1000) by (nonlinear_arith);
}

} // verus!
