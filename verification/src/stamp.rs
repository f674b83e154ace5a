//! Timestamps.  Record fields and resolution targets carry timestamps in the
//! fixed `YYYYMMDD-HHMMSS` pattern; parsing and calendar validation are
//! chrono's job, done behind one trusted wrapper whose result is reduced to
//! a plain, totally ordered value.

use vstd::prelude::*;

use crate::errors::ErrView;
use crate::errors::SwInstallError;

verus! {

/// A parsed timestamp, reduced to epoch seconds plus the sub-second
/// nanoseconds.  Comparing two of these lexicographically orders them
/// exactly as chrono orders the datetimes they came from.
#[derive(Debug, PartialEq, Eq, Structural, Clone, Copy)]
pub struct StampValue {
    pub secs: i64,
    pub nanos: u32,
}

/// `a` is at or before `b`.
pub open spec fn stamp_le(a: StampValue, b: StampValue) -> bool {
    a.secs < b.secs || (a.secs == b.secs && a.nanos <= b.nanos)
}

/// What chrono's fixed-pattern parse returns for a given character
/// sequence: `None` where the parse fails, otherwise the datetime as a
/// [`StampValue`].  The outcome depends on the characters alone.
pub uninterp spec fn stamp_of(s: Seq<char>) -> Option<StampValue>;

/// Relies on `chrono::NaiveDateTime::parse_from_str` with the fixed
/// year-month-day-hour-minute-second pattern, and on `timestamp` /
/// `timestamp_subsec_nanos` of the resulting datetime: the outcome is a
/// function of the input characters alone, and the (seconds, nanoseconds)
/// pair preserves the datetime's ordering.
#[verifier::external_body]
fn parse_stamp_raw(s: &str) -> (r: Option<StampValue>)
    ensures
        r == stamp_of(s@),
{
    match chrono::NaiveDateTime::parse_from_str(s, "%Y%m%d-%H%M%S") {
        Ok(dt) => {
            let utc = dt.and_utc();
            Some(StampValue { secs: utc.timestamp(), nanos: utc.timestamp_subsec_nanos() })
        },
        Err(_) => None,
    }
}

impl StampValue {
    /// Assemble a stamp from its two components; the external caller that
    /// knows the current wall-clock time enters it through here.
    pub fn new(secs: i64, nanos: u32) -> (r: Self)
        ensures
            r == (StampValue { secs, nanos }),
    {
        StampValue { secs, nanos }
    }

    /// `self` is at or before `other`.
    pub fn le(&self, other: &StampValue) -> (r: bool)
        ensures
            r == stamp_le(*self, *other),
    {
        self.secs < other.secs || (self.secs == other.secs && self.nanos <= other.nanos)
    }
}

/// Parse a timestamp field, reporting the offending field itself when the
/// fixed-pattern parse fails.
pub fn parse_timestamp(s: &str) -> (r: Result<StampValue, SwInstallError>)
    ensures
        match r {
            Ok(v) => stamp_of(s@) == Some(v),
            Err(e) => stamp_of(s@) is None && e@ == ErrView::ChronoParseError(s@),
        },
{
    match parse_stamp_raw(s) {
        Some(v) => Ok(v),
        None => Err(SwInstallError::ChronoParseError(s.to_owned())),
    }
}

} // verus!
