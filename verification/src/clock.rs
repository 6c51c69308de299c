//! The monotonic clock and the durations it measures: the items that the
//! verifier takes on trust.

use std::time::Duration;
use vstd::prelude::*;

verus! {

/// `instant::Instant`, a reading of the monotonic clock. Nothing is known of
/// what a value of it holds.
#[verifier::external_type_specification]
#[verifier::external_body]
pub struct ExInstant(instant::Instant);

/// The length of a `Duration` in nanoseconds: what `Duration::as_nanos`
/// returns for it.
pub uninterp spec fn duration_nanos(d: Duration) -> nat;

/// `Duration::as_nanos`: the whole duration in nanoseconds. Taken on trust:
/// the result is the named length of the duration.
pub assume_specification[ std::time::Duration::as_nanos ](d: &Duration) -> (nanos: u128)
    ensures
        nanos == duration_nanos(*d),
;

/// `Duration::from_secs`: a duration of `secs` whole seconds. Taken on trust:
/// its length is a thousand million nanoseconds for each second.
pub assume_specification[ std::time::Duration::from_secs ](secs: u64) -> (d: Duration)
    ensures
        duration_nanos(d) == secs * 1_000_000_000,
;

/// `instant::Instant::now`: the current reading of the clock. It depends on
/// when the call is made, so nothing is claimed of it.
pub assume_specification[ instant::Instant::now ]() -> instant::Instant
;

/// `instant::Instant::elapsed`: the time that has passed since `origin` was
/// read. It depends on when the call is made, so nothing is claimed of it.
pub assume_specification[ instant::Instant::elapsed ](origin: &instant::Instant) -> Duration
;

} // verus!
