//! Monotonic time, as nanoseconds since an epoch of the caller's choice.

use std::time::Instant;
use vstd::prelude::*;

verus! {

/// A reading of the monotonic clock. Nothing is known of it.
#[verifier::external_type_specification]
#[verifier::external_body]
pub struct ExInstant(std::time::Instant);

/// `std::time::Instant::now`: the present reading of the monotonic clock.
/// Nothing is claimed of the reading.
pub assume_specification[ std::time::Instant::now ]() -> (r: std::time::Instant)
;

/// What the clock told when it was read. Reading it is the only way to come by
/// one.
pub struct Reading {
    nanos: u128,
    since: Ghost<Instant>,
}

impl View for Reading {
    type V = u128;

    closed spec fn view(&self) -> u128 {
        self.nanos
    }
}

impl Reading {
    /// What the time was counted from.
    pub closed spec fn since(self) -> Instant {
        self.since@
    }

    /// The time, in nanoseconds.
    pub fn nanos(&self) -> (r: u128)
        ensures
            r == self@,
    {
        self.nanos
    }
}

/// `std::time::Instant::elapsed`, counted in nanoseconds: the time since
/// `epoch` was read. It depends on when the call is made, so that nothing is
/// claimed of the number but what it is counted from.
#[verifier::external_body]
pub(crate) fn nanos_since(epoch: &Instant) -> (r: Reading)
    ensures
        r.since() == *epoch,
{
    Reading { nanos: epoch.elapsed().as_nanos(), since: Ghost(*epoch) }
}

} // verus!
