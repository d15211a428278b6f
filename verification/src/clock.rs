//! Wall-clock timestamps and monotonic instants.
use chrono::DateTime;
use std::time::Instant;
use vstd::prelude::*;

verus! {

#[verifier::external_type_specification]
#[verifier::external_body]
pub struct ExInstant(Instant);

/// Whether `DateTime::from_timestamp(secs, nanos)` yields a UTC date-time.
pub uninterp spec fn utc_timestamp_valid(secs: int, nanos: int) -> bool;

/// `(a - b).num_milliseconds()` for the UTC date-times `a` and `b`.
pub uninterp spec fn utc_millis_between(a: (int, int), b: (int, int)) -> int;

/// `(a - b).num_seconds()` for the UTC date-times `a` and `b`.
pub uninterp spec fn utc_seconds_between(a: (int, int), b: (int, int)) -> int;

/// A UTC point in time: whole seconds since the Unix epoch and the nanoseconds past them, as
/// `DateTime<Utc>::timestamp` and `timestamp_subsec_nanos` give them (a leap second carries
/// nanoseconds of one billion or more).
#[derive(Clone, Copy, Debug)]
pub struct Timestamp {
    secs: i64,
    nanos: u32,
}

impl View for Timestamp {
    type V = (int, int);

    closed spec fn view(&self) -> (int, int) {
        (self.secs as int, self.nanos as int)
    }
}

/// `a <= b` in time.
pub open spec fn ts_le(a: (int, int), b: (int, int)) -> bool {
    a.0 < b.0 || (a.0 == b.0 && a.1 <= b.1)
}

impl Timestamp {
    #[verifier::type_invariant]
    spec fn well_formed(self) -> bool {
        utc_timestamp_valid(self.secs as int, self.nanos as int)
    }

    /// The point `secs` seconds and `nanos` nanoseconds after the epoch, where chrono can
    /// represent it.
    pub fn from_parts(secs: i64, nanos: u32) -> (r: Option<Timestamp>)
        ensures
            r is Some <==> utc_timestamp_valid(secs as int, nanos as int),
            r matches Some(t) ==> t@ == (secs as int, nanos as int),
    {
        if utc_valid(secs, nanos) {
            Some(Timestamp { secs, nanos })
        } else {
            None
        }
    }

    /// `DateTime::from_timestamp_millis`: the point `millis` milliseconds after the epoch,
    /// split into whole seconds (rounded down) and the nanoseconds past them, where chrono can
    /// represent it.
    pub fn from_millis(millis: i64) -> (r: Option<Timestamp>)
        ensures
            r is Some <==> utc_timestamp_valid(millis / 1000, (millis % 1000) * 1000000),
            r matches Some(t) ==> t@ == (millis / 1000, (millis % 1000) * 1000000),
    {
        let mut secs = millis / 1000;
        let mut rem = millis % 1000;
        if rem < 0 {
            secs = secs - 1;
            rem = rem + 1000;
        }
        assert(secs == millis / 1000 && rem == millis % 1000) by (nonlinear_arith)
            requires
                0 <= rem < 1000,
                millis == secs * 1000 + rem,
        ;
        Timestamp::from_parts(secs, (rem as u32) * 1000000)
    }

    pub fn secs(&self) -> (r: i64)
        ensures
            r == self@.0,
    {
        self.secs
    }

    pub fn subsec_nanos(&self) -> (r: u32)
        ensures
            r == self@.1,
    {
        self.nanos
    }

    /// `self <= other`, as `DateTime` orders them.
    pub fn le(&self, other: &Timestamp) -> (r: bool)
        ensures
            r == ts_le(self@, other@),
    {
        self.secs < other.secs || (self.secs == other.secs && self.nanos <= other.nanos)
    }

    /// `(self - other).num_milliseconds()`.
    pub fn millis_since(&self, other: &Timestamp) -> (r: i64)
        ensures
            r == utc_millis_between(self@, other@),
            r > i64::MIN,
    {
        proof {
            use_type_invariant(self);
            use_type_invariant(other);
        }
        utc_millis_between_exec(*self, *other)
    }

    /// `(self - other).num_seconds()`.
    pub fn seconds_since(&self, other: &Timestamp) -> (r: i64)
        ensures
            r == utc_seconds_between(self@, other@),
    {
        proof {
            use_type_invariant(self);
            use_type_invariant(other);
        }
        utc_seconds_between_exec(*self, *other)
    }
}

/// `DateTime::from_timestamp(secs, nanos).is_some()`.
#[verifier::external_body]
fn utc_valid(secs: i64, nanos: u32) -> (r: bool)
    ensures
        r == utc_timestamp_valid(secs as int, nanos as int),
{
    DateTime::from_timestamp(secs, nanos).is_some()
}

/// `Utc::now()`. Nothing is known of the reading.
#[verifier::external_body]
pub(crate) fn utc_now() -> (r: Timestamp) {
    let now = chrono::Utc::now();
    Timestamp { secs: now.timestamp(), nanos: now.timestamp_subsec_nanos() }
}

/// `(a - b).num_milliseconds()` on UTC date-times. A `TimeDelta` never holds `i64::MIN`
/// milliseconds.
#[verifier::external_body]
fn utc_millis_between_exec(a: Timestamp, b: Timestamp) -> (r: i64)
    requires
        utc_timestamp_valid(a@.0, a@.1),
        utc_timestamp_valid(b@.0, b@.1),
    ensures
        r == utc_millis_between(a@, b@),
        r > i64::MIN,
{
    let x = DateTime::from_timestamp(a.secs, a.nanos).unwrap();
    let y = DateTime::from_timestamp(b.secs, b.nanos).unwrap();
    (x - y).num_milliseconds()
}

/// `(a - b).num_seconds()` on UTC date-times.
#[verifier::external_body]
fn utc_seconds_between_exec(a: Timestamp, b: Timestamp) -> (r: i64)
    requires
        utc_timestamp_valid(a@.0, a@.1),
        utc_timestamp_valid(b@.0, b@.1),
    ensures
        r == utc_seconds_between(a@, b@),
{
    let x = DateTime::from_timestamp(a.secs, a.nanos).unwrap();
    let y = DateTime::from_timestamp(b.secs, b.nanos).unwrap();
    (x - y).num_seconds()
}

/// `Instant::now()`.
#[verifier::external_body]
pub(crate) fn instant_now() -> (r: Instant) {
    Instant::now()
}

/// `t.elapsed()` in whole seconds. The reading depends on the clock; nothing is known of it.
#[verifier::external_body]
pub(crate) fn whole_secs_since(t: &Instant) -> (r: u64) {
    t.elapsed().as_secs()
}

/// `t.elapsed()` in nanoseconds. The reading depends on the clock; nothing is known of it.
#[verifier::external_body]
pub(crate) fn nanos_since(t: &Instant) -> (r: u128) {
    t.elapsed().as_nanos()
}

} // verus!
