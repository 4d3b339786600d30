//! Wall-clock instants.  The library holds an instant as the plain pair of
//! whole seconds since the Unix epoch and the nanoseconds past that second,
//! the two numbers by which `chrono` identifies a UTC instant, and only
//! pairs that `chrono` reads as an instant.

use vstd::prelude::*;

verus! {

/// Whether `chrono::DateTime::<Utc>::from_timestamp(secs, nanos)` returns
/// an instant (the seconds lie in `chrono`'s date range and the nanoseconds
/// are valid for that second).
pub uninterp spec fn chrono_accepts(secs: i64, nanos: u32) -> bool;

/// The whole seconds from the instant `(then_secs, then_nanos)` to the
/// instant `(now_secs, now_nanos)` as `chrono` counts them:
/// `now.signed_duration_since(then).num_seconds()`.
pub uninterp spec fn chrono_elapsed(now_secs: i64, now_nanos: u32, then_secs: i64, then_nanos: u32) -> i64;

/// The largest number of whole seconds a `chrono::TimeDelta` can span
/// (`i64::MAX` milliseconds).
pub const MAX_DELTA_SECONDS: i64 = 9_223_372_036_854_775;

/// A UTC instant: whole seconds since 1970-01-01T00:00:00Z plus nanoseconds.
#[derive(Clone, Copy, Debug, PartialEq, Eq, Structural)]
pub struct Timestamp {
    secs: i64,
    nanos: u32,
}

impl View for Timestamp {
    type V = (i64, u32);

    /// The pair (seconds, nanoseconds).
    closed spec fn view(&self) -> (i64, u32) {
        (self.secs, self.nanos)
    }
}

impl Timestamp {
    /// Every timestamp is an instant that `chrono` can read.
    #[verifier::type_invariant]
    spec fn readable(self) -> bool {
        chrono_accepts(self.secs, self.nanos)
    }

    /// The instant with the given seconds and nanoseconds, if `chrono` reads
    /// the pair as an instant.
    pub fn from_parts(secs: i64, nanos: u32) -> (r: Option<Timestamp>)
        ensures
            r is Some <==> chrono_accepts(secs, nanos),
            r matches Some(t) ==> t@ == (secs, nanos),
    {
        if accepts_instant(secs, nanos) {
            Some(Timestamp { secs, nanos })
        } else {
            None
        }
    }

    /// Whether this instant comes strictly after `other`: by whole seconds,
    /// then by nanoseconds (the order of `chrono`'s instants).
    pub fn is_after(&self, other: &Timestamp) -> (b: bool)
        ensures
            b == (self@.0 > other@.0 || (self@.0 == other@.0 && self@.1 > other@.1)),
    {
        self.secs > other.secs || (self.secs == other.secs && self.nanos > other.nanos)
    }

    /// Whole seconds since the Unix epoch.
    pub fn secs(&self) -> (s: i64)
        ensures
            s == self@.0,
    {
        self.secs
    }

    /// Nanoseconds past the whole second.
    pub fn nanos(&self) -> (n: u32)
        ensures
            n == self@.1,
    {
        self.nanos
    }
}

/// Calls `chrono::DateTime::<Utc>::from_timestamp(secs, nanos)` and reports
/// whether it returned an instant; which pairs it accepts is named
/// `chrono_accepts`.
#[verifier::external_body]
fn accepts_instant(secs: i64, nanos: u32) -> (b: bool)
    ensures
        b == chrono_accepts(secs, nanos),
{
    chrono::DateTime::<chrono::Utc>::from_timestamp(secs, nanos).is_some()
}

/// Reads the current time with `chrono::Utc::now` and returns it as its
/// `timestamp()` and `timestamp_subsec_nanos()`.  The value is the system
/// clock's, so nothing is stated of it but what `chrono` documents: the pair
/// reads back as the same instant with `from_timestamp`.  (`chrono` panics
/// when the system clock reads a time before the Unix epoch.)
#[verifier::external_body]
pub fn utc_now() -> (t: Timestamp)
    ensures
        chrono_accepts(t@.0, t@.1),
{
    let now = chrono::Utc::now();
    Timestamp { secs: now.timestamp(), nanos: now.timestamp_subsec_nanos() }
}

/// Calls `chrono`'s `now.signed_duration_since(then).num_seconds()` on the
/// two instants read back with `from_timestamp`: the whole seconds from
/// `then` to `now`, named `chrono_elapsed`.  A `chrono::TimeDelta` spans at
/// most `i64::MAX` milliseconds either way, which bounds the result.
#[verifier::external_body]
fn elapsed_between(now: Timestamp, then: Timestamp) -> (r: i64)
    requires
        chrono_accepts(now@.0, now@.1),
        chrono_accepts(then@.0, then@.1),
    ensures
        r == chrono_elapsed(now@.0, now@.1, then@.0, then@.1),
        -MAX_DELTA_SECONDS <= r <= MAX_DELTA_SECONDS,
{
    let now = chrono::DateTime::<chrono::Utc>::from_timestamp(now.secs, now.nanos).unwrap();
    let then = chrono::DateTime::<chrono::Utc>::from_timestamp(then.secs, then.nanos).unwrap();
    now.signed_duration_since(then).num_seconds()
}

/// The whole seconds `chrono` counts from `then` to `now`.
pub open spec fn elapsed_from(now: Timestamp, then: Timestamp) -> i64 {
    chrono_elapsed(now@.0, now@.1, then@.0, then@.1)
}

/// The whole seconds `chrono` counts between two instants.
pub fn seconds_between(now: Timestamp, then: Timestamp) -> (r: i64)
    ensures
        r == elapsed_from(now, then),
        -MAX_DELTA_SECONDS <= r <= MAX_DELTA_SECONDS,
{
    proof {
        use_type_invariant(&now);
        use_type_invariant(&then);
    }
    elapsed_between(now, then)
}

/// The whole seconds elapsed from `then` until the clock is read: the count
/// from `then` to some instant that the clock returned.
pub fn seconds_since(then: Timestamp) -> (r: i64)
    ensures
        exists|now: Timestamp| chrono_accepts(now@.0, now@.1) && r == elapsed_from(now, then),
        -MAX_DELTA_SECONDS <= r <= MAX_DELTA_SECONDS,
{
    let now = utc_now();
    seconds_between(now, then)
}

} // verus!
