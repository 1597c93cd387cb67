//! Instants at which a condition last changed.

use vstd::prelude::*;

verus! {

/// An instant, as nanoseconds since the Unix epoch (negative before it).
#[derive(Clone, Copy, Debug, PartialEq, Eq, Structural)]
pub struct Time {
    pub nanosecond: i128,
}

impl Time {
    /// Whether `self` is no later than `other`.
    pub open spec fn no_later_than(self, other: Time) -> bool {
        self.nanosecond <= other.nanosecond
    }
}

/// Relies on jiff's `Timestamp::now` (re-exported by k8s-openapi) to read the
/// system clock, and on `Timestamp::as_nanosecond` to hand it over as a count.
/// The clock may be set back at any moment, so nothing is promised of the value.
/// `Timestamp::now` panics only where the system time lies outside the range
/// a timestamp can hold, which no input of this crate can bring about.
#[verifier::external_body]
pub(crate) fn now() -> (r: Time) {
    Time { nanosecond: k8s_openapi::jiff::Timestamp::now().as_nanosecond() }
}

} // verus!
