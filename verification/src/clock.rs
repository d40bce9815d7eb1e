//! Logical clock: a monotone counter re-anchored from an external time
//! authority and advanced by a local ticking task between anchors.
//!
//! The query to the time authority itself is I/O and lives with the caller;
//! this module takes the outcome of such a query as a plain value, so that
//! what happens to the clock on success and on failure is fully specified.

use vstd::prelude::*;

verus! {

/// Why a synchronization attempt against the time authority failed.
#[derive(Clone, Copy, PartialEq, Eq, Structural, Debug)]
pub enum ClockError {
    AuthorityUnreachable,
    AuthorityTimeout,
}

/// A locally visible notion of time in whole clock units.
#[derive(Clone, Copy, PartialEq, Eq, Structural, Debug)]
pub struct LogicalClock {
    value: u64,
}

impl LogicalClock {
    pub closed spec fn value(self) -> u64 {
        self.value
    }

    pub fn new() -> (c: LogicalClock)
        ensures
            c.value() == 0,
    {
        LogicalClock { value: 0 }
    }

    /// The current clock reading.
    pub fn now(&self) -> (t: u64)
        ensures
            t == self.value(),
    {
        self.value
    }

    /// Advance by one unit; called by the local ticking task between
    /// synchronizations, so the clock free-runs forward even without network
    /// access to the time authority.
    pub fn tick(&mut self)
        requires
            old(self).value() < u64::MAX,
        ensures
            final(self).value() == old(self).value() + 1,
    {
        self.value = self.value + 1;
    }

    /// Re-anchor the clock from the outcome of a time-authority query.
    ///
    /// A successful sample sets the clock to `sample + 1`; a failed query is
    /// non-fatal and leaves the clock exactly as it was.
    pub fn synchronize(&mut self, sample: Result<u64, ClockError>) -> (r: Result<(), ClockError>)
        requires
            sample is Ok ==> sample.unwrap() < u64::MAX,
        ensures
            sample is Ok ==> final(self).value() == sample.unwrap() + 1 && r is Ok,
            sample is Err ==> *final(self) == *old(self) && r == Result::<(), ClockError>::Err(
                sample.unwrap_err(),
            ),
    {
        match sample {
            Ok(s) => {
                self.value = s + 1;
                Ok(())
            },
            Err(e) => Err(e),
        }
    }

    /// The clock reading rendered as a calendar date and time for display.
    ///
    /// `None` when the reading lies outside the representable date range of
    /// the calendar library; any reading up to the end of year 9999 is
    /// rendered.
    pub fn current_display(&self) -> (r: Option<String>)
        ensures
            r is Some ==> r.unwrap()@ == clock_display_of(self.value()),
            self.value() <= 253_402_300_799 ==> r is Some,
            self.value() > i64::MAX as u64 ==> r is None,
    {
        if self.value > 0x7fff_ffff_ffff_ffff {
            None
        } else {
            render_clock(self.value)
        }
    }
}

/// The calendar rendering of a clock reading, as produced by chrono's
/// `%d.%m.%y-%H:%M:%S.%3f` formatter; a pure function of the reading.
pub uninterp spec fn clock_display_of(value: u64) -> Seq<char>;

/// Relies on `chrono::DateTime::<Utc>::from_timestamp`, documented to return
/// `None` exactly on an out-of-range number of seconds — the range runs to
/// December 31, 262142 CE, so every reading up to the last second of year
/// 9999 is in it — and on chrono's `format`, whose output depends on the
/// timestamp alone.
#[verifier::external_body]
fn render_clock(value: u64) -> (r: Option<String>)
    requires
        value <= i64::MAX as u64,
    ensures
        r is Some ==> r.unwrap()@ == clock_display_of(value),
        value <= 253_402_300_799 ==> r is Some,
{
    match chrono::DateTime::from_timestamp(value as i64, 0) {
        Some(dt) => Some(dt.format("%d.%m.%y-%H:%M:%S.%3f").to_string()),
        None => None,
    }
}

} // verus!
