//! A mock recipient contract: a counter that records how many messages have
//! been delivered to it.

use vstd::prelude::*;

verus! {

/// A recipient whose message-handling entry point counts its invocations.
pub struct Receiver {
    count: u64,
}

impl Receiver {
    /// The number of deliveries handled so far.
    pub closed spec fn spec_count(&self) -> u64 {
        self.count
    }

    /// Installs a receiver with its counter at zero.
    pub fn new() -> (r: Receiver)
        ensures
            r.spec_count() == 0,
    {
        Receiver { count: 0 }
    }

    /// The number of deliveries handled so far.
    pub fn count(&self) -> (c: u64)
        ensures
            c == self.spec_count(),
    {
        self.count
    }

    /// The message-handling entry point: records one more delivery.
    pub fn on_call(&mut self)
        requires
            old(self).spec_count() < u64::MAX,
        ensures
            final(self).spec_count() == old(self).spec_count() + 1,
    {
        self.count = self.count + 1;
    }
}

} // verus!
