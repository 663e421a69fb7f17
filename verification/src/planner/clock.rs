//! Time limits.

use core::time::Duration;
use std::time::Instant;
use vstd::prelude::*;

verus! {

#[verifier::external_type_specification]
#[verifier::external_body]
pub struct ExInstant(std::time::Instant);

/// The length of a duration in nanoseconds.
pub uninterp spec fn duration_nanos(d: Duration) -> nat;

/// `std::time::Duration::as_nanos`.
#[verifier::external_body]
fn nanos(d: Duration) -> (r: u128)
    ensures
        r == duration_nanos(d),
{
    d.as_nanos()
}

/// `std::time::Instant::now`. Nothing is claimed of the time.
#[verifier::external_body]
pub(crate) fn now() -> (r: Instant) {
    Instant::now()
}

/// `std::time::Instant::elapsed`. Nothing is claimed of the time.
#[verifier::external_body]
pub(crate) fn since(start: &Instant) -> (r: Duration) {
    start.elapsed()
}

/// Whether a time limit has run out after `elapsed`: never without a limit.
pub fn limit_reached(elapsed: Duration, deadline: Option<Duration>) -> (r: bool)
    ensures
        r == (deadline matches Some(d) && duration_nanos(elapsed) >= duration_nanos(d)),
{
    match deadline {
        None => false,
        Some(d) => nanos(elapsed) >= nanos(d),
    }
}

/// Whether the time since `start` has reached the limit.
pub fn deadline_elapsed(start: &Instant, deadline: Option<Duration>) -> (r: bool)
    ensures
        deadline is None ==> !r,
        deadline matches Some(d) ==> duration_nanos(d) == 0 ==> r,
{
    limit_reached(since(start), deadline)
}

} // verus!
