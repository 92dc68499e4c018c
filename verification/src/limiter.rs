//! The concurrency limiter: a counting model of the semaphore that caps how
//! many probe tasks may be in flight at once. The driver that actually parks
//! tasks holds one slot of this model per running probe; the model shows that
//! the number of granted slots never exceeds the configured ceiling.

use vstd::prelude::*;

verus! {

/// Caps the number of simultaneously executing probe tasks.
pub struct Limiter {
    capacity: usize,
    in_flight: usize,
}

impl Limiter {
    /// The fixed ceiling this limiter was created with.
    pub closed spec fn cap(self) -> int {
        self.capacity as int
    }

    /// How many slots are currently granted.
    pub closed spec fn active(self) -> int {
        self.in_flight as int
    }

    /// The limiter's invariant: grants never exceed the ceiling.
    pub open spec fn wf(self) -> bool {
        0 <= self.active() <= self.cap()
    }

    /// A fresh limiter with the given ceiling and no slot granted.
    pub fn new(capacity: usize) -> (r: Limiter)
        ensures
            r.wf(),
            r.cap() == capacity as int,
            r.active() == 0,
    {
        Limiter { capacity, in_flight: 0 }
    }

    /// Grants a slot exactly when one is free; a refusal leaves the limiter
    /// unchanged, so a caller that is refused suspends and asks again.
    pub fn try_acquire(&mut self) -> (granted: bool)
        requires
            old(self).wf(),
        ensures
            final(self).wf(),
            final(self).cap() == old(self).cap(),
            granted == (old(self).active() < old(self).cap()),
            granted ==> final(self).active() == old(self).active() + 1,
            !granted ==> final(self).active() == old(self).active(),
    {
        if self.in_flight < self.capacity {
            self.in_flight = self.in_flight + 1;
            true
        } else {
            false
        }
    }

    /// Returns a granted slot when a probe task settles.
    pub fn release(&mut self)
        requires
            old(self).wf(),
            old(self).active() > 0,
        ensures
            final(self).wf(),
            final(self).cap() == old(self).cap(),
            final(self).active() == old(self).active() - 1,
    {
        self.in_flight = self.in_flight - 1;
    }
}

} // verus!
