//! The clock: the steady time of the `time` crate. Nothing here is proved,
//! and nothing is claimed of what the clock shows.

use vstd::prelude::*;

verus! {

/// A moment on the steady clock of `time`. What it holds is hidden from the
/// proofs.
#[verifier::external_type_specification]
#[verifier::external_body]
pub struct ExSteadyTime(time::SteadyTime);

/// A span of time as `time` measures it. What it holds is hidden from the
/// proofs.
#[verifier::external_type_specification]
#[verifier::external_body]
pub struct ExDuration(time::Duration);

/// `time::SteadyTime::now`: reads the steady clock. Nothing is claimed of
/// the moment that comes back. The call panics where the system refuses to
/// read the clock.
#[verifier::external_body]
pub(crate) fn steady_now() -> (moment: time::SteadyTime) {
    time::SteadyTime::now()
}

/// The difference of two moments, `time`'s `SteadyTime - SteadyTime`.
/// Nothing is claimed of the span that comes back. The crate's source builds
/// it from whole seconds and panics where these lie beyond what a `Duration`
/// can hold, which two readings of one running clock do not.
#[verifier::external_body]
pub(crate) fn span_between(later: time::SteadyTime, earlier: time::SteadyTime) -> (span:
    time::Duration) {
    later - earlier
}

/// `time::Duration::num_nanoseconds`: the whole nanoseconds in the span, or
/// `None` where they do not fit in an `i64`. Nothing is claimed of the
/// number.
#[verifier::external_body]
pub(crate) fn whole_nanoseconds(span: &time::Duration) -> (nanos: Option<i64>) {
    span.num_nanoseconds()
}

} // verus!
