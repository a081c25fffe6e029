//! Points in time, as the service stores and compares them.
//!
//! A [`Timestamp`] is a UTC instant given by whole seconds since the Unix epoch and
//! the nanoseconds into that second. The clock reading and the calendar arithmetic
//! come from `chrono`; ordering of instants is decided here.
use vstd::prelude::*;

verus! {

/// The earliest second that a `chrono::DateTime<Utc>` can represent (-262143-01-01T00:00:00Z).
pub const MIN_TIMESTAMP: i64 = -8_334_601_228_800;

/// The latest second that a `chrono::DateTime<Utc>` can represent (+262142-12-31T23:59:59Z).
pub const MAX_TIMESTAMP: i64 = 8_210_266_876_799;

/// Nanoseconds in one second.
pub const NANOS_PER_SECOND: u32 = 1_000_000_000;

/// A UTC instant: `secs` whole seconds after 1970-01-01T00:00:00Z plus `nanos` nanoseconds.
#[derive(Clone, Copy, Debug, PartialEq, Eq, Structural)]
pub struct Timestamp {
    pub secs: i64,
    pub nanos: u32,
}

impl Timestamp {
    /// The instant lies in chrono's range and its sub-second part is below one second.
    pub open spec fn wf(self) -> bool {
        MIN_TIMESTAMP <= self.secs <= MAX_TIMESTAMP && self.nanos < NANOS_PER_SECOND
    }

    /// `self` is the same instant as `other` or an earlier one.
    pub open spec fn at_or_before(self, other: Timestamp) -> bool {
        self.secs < other.secs || (self.secs == other.secs && self.nanos <= other.nanos)
    }

    /// The instant `delta` whole seconds later (earlier for a negative `delta`).
    pub open spec fn plus_seconds(self, delta: int) -> Timestamp {
        Timestamp { secs: (self.secs + delta) as i64, nanos: self.nanos }
    }

    /// Whether the instant lies in chrono's range with a sub-second part below one second.
    pub fn is_in_range(&self) -> (r: bool)
        ensures
            r == self.wf(),
    {
        MIN_TIMESTAMP <= self.secs && self.secs <= MAX_TIMESTAMP && self.nanos < NANOS_PER_SECOND
    }

    /// Whether `self` is the same instant as `other` or an earlier one.
    pub fn is_at_or_before(&self, other: &Timestamp) -> (r: bool)
        ensures
            r == self.at_or_before(*other),
    {
        self.secs < other.secs || (self.secs == other.secs && self.nanos <= other.nanos)
    }
}

/// Integer division rounding toward zero, as Rust's `/` on integers does.
pub open spec fn div_toward_zero(x: int, d: int) -> int
    recommends
        d > 0,
{
    if x >= 0 {
        x / d
    } else {
        -((-x) / d)
    }
}

/// The whole seconds from `earlier` to `later`, rounded toward zero: what chrono's
/// `(later - earlier).num_seconds()` gives for two instants within a second's nanoseconds.
pub open spec fn whole_seconds_between(later: Timestamp, earlier: Timestamp) -> int {
    let total_nanos = (later.secs - earlier.secs) * 1_000_000_000 + (later.nanos - earlier.nanos);
    div_toward_zero(total_nanos, 1_000_000_000)
}

/// The whole days from `earlier` to `later`, rounded toward zero.
pub open spec fn whole_days_between(later: Timestamp, earlier: Timestamp) -> int {
    div_toward_zero(whole_seconds_between(later, earlier), 86_400)
}

/// The current time, from `chrono::Utc::now()`.
///
/// What it returns depends on the system clock; it always lies in chrono's range with a
/// sub-second part below one second, since chrono builds it from `SystemTime` with
/// `DateTime::from_timestamp(secs, subsec_nanos).unwrap()`. (chrono panics if the system
/// clock reads a time before 1970.)
#[verifier::external_body]
pub(crate) fn utc_now() -> (t: Timestamp)
    ensures
        t.wf(),
{
    let now = chrono::Utc::now();
    Timestamp { secs: now.timestamp(), nanos: now.timestamp_subsec_nanos() }
}

/// `t + TimeDelta::seconds(delta)` computed by chrono on `DateTime<Utc>`.
///
/// For an instant without a leap second, chrono moves the whole seconds and keeps the
/// sub-second part; the result is in range by the `requires`, so the addition does not
/// overflow (chrono would panic).
#[verifier::external_body]
pub(crate) fn datetime_plus_seconds(t: Timestamp, delta: i64) -> (r: Timestamp)
    requires
        t.wf(),
        MIN_TIMESTAMP <= t.secs + delta <= MAX_TIMESTAMP,
    ensures
        r == t.plus_seconds(delta as int),
        r.wf(),
{
    let dt = chrono::DateTime::from_timestamp(t.secs, t.nanos).unwrap();
    let moved = dt + chrono::TimeDelta::seconds(delta);
    Timestamp { secs: moved.timestamp(), nanos: moved.timestamp_subsec_nanos() }
}

/// `(later - earlier).num_seconds()` computed by chrono on `DateTime<Utc>`: the signed
/// duration between the instants, in whole seconds rounded toward zero.
#[verifier::external_body]
pub(crate) fn datetime_num_seconds_between(later: Timestamp, earlier: Timestamp) -> (r: i64)
    requires
        later.wf(),
        earlier.wf(),
    ensures
        r == whole_seconds_between(later, earlier),
{
    let a = chrono::DateTime::from_timestamp(later.secs, later.nanos).unwrap();
    let b = chrono::DateTime::from_timestamp(earlier.secs, earlier.nanos).unwrap();
    (a - b).num_seconds()
}

/// `(later - earlier).num_days()` computed by chrono on `DateTime<Utc>`: the whole
/// seconds between the instants divided by 86 400, rounded toward zero.
#[verifier::external_body]
pub(crate) fn datetime_num_days_between(later: Timestamp, earlier: Timestamp) -> (r: i64)
    requires
        later.wf(),
        earlier.wf(),
    ensures
        r == whole_days_between(later, earlier),
{
    let a = chrono::DateTime::from_timestamp(later.secs, later.nanos).unwrap();
    let b = chrono::DateTime::from_timestamp(earlier.secs, earlier.nanos).unwrap();
    (a - b).num_days()
}

} // verus!
