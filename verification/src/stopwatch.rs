//! A clock that counts from when it was set going.

use crate::clock::{nanos_since, Reading};
use std::time::Instant;
use vstd::prelude::*;

verus! {

/// A clock that counts nanoseconds from when it was set going, and keeps a tally
/// of what it has told.
pub struct Stopwatch {
    epoch: Instant,
    told: Ghost<Seq<u128>>,
}

impl Stopwatch {
    /// The reading of the system's clock that times are counted from.
    pub closed spec fn epoch(self) -> Instant {
        self.epoch
    }

    /// Every time that it has told, in order.
    pub closed spec fn told(self) -> Seq<u128> {
        self.told@
    }

    /// One that counts from now.
    pub fn start() -> (r: Self)
        ensures
            r.told() == Seq::<u128>::empty(),
    {
        Stopwatch { epoch: Instant::now(), told: Ghost(Seq::empty()) }
    }

    /// Reads it once.
    pub fn read(&mut self) -> (r: Reading)
        ensures
            r.since() == old(self).epoch(),
            final(self).epoch() == old(self).epoch(),
            final(self).told() == old(self).told().push(r@),
    {
        let r = nanos_since(&self.epoch);
        self.told = Ghost(self.told@.push(r@));
        r
    }
}

} // verus!
