//! The process's monotonic time source, read as plain values.
//!
//! Session deadlines are instants of this time base (not of the logical
//! clock); the standard library owns the clock itself, so its types and the
//! calls into them are declared here and trusted.

use vstd::prelude::*;

verus! {

#[verifier::external_type_specification]
#[verifier::external_body]
pub struct ExInstant(std::time::Instant);

/// Relies on `std::time::Instant::now`: an opaque reading of the process's
/// monotonic clock; nothing is assumed about its value.
pub assume_specification[ std::time::Instant::now ]() -> std::time::Instant;

/// Relies on `std::time::Instant::elapsed`: the time since that instant;
/// nothing is assumed about its value.
pub assume_specification[ std::time::Instant::elapsed ](i: &std::time::Instant) -> std::time::Duration;

/// Relies on `std::time::Duration::as_secs`: the whole-second part of the
/// duration; nothing is assumed about its value.
pub assume_specification[ std::time::Duration::as_secs ](d: &std::time::Duration) -> u64;

/// Relies on `std::time::Duration::subsec_nanos`, documented to return the
/// fractional part of the duration in nanoseconds, always below one billion.
pub assume_specification[ std::time::Duration::subsec_nanos ](d: &std::time::Duration) -> (n: u32)
    ensures
        n < 1_000_000_000,
;

/// A fresh reading of the monotonic time source as a tuple of
/// `(whole seconds, nanoseconds below the next whole second)`.
pub fn get_current_time_ns() -> (r: (u64, u32))
    ensures
        r.1 < 1_000_000_000,
{
    let now = std::time::Instant::now();
    let elapsed_duration = now.elapsed();
    (elapsed_duration.as_secs(), elapsed_duration.subsec_nanos())
}

} // verus!
