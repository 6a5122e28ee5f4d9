//! Model of the time collaborator: a settable wall clock read by the
//! time-of-day syscall.

use vstd::prelude::*;

verus! {

/// Microseconds per second.
pub const USEC_PER_SEC: u32 = 1_000_000;

/// The wall clock: seconds and microseconds since the epoch.
pub struct Clock {
    pub sec: u64,
    pub usec: u32,
}

impl Clock {
    pub open spec fn wf(self) -> bool {
        self.usec < USEC_PER_SEC && self.sec < 0x1_0000_0000_0000
    }

    /// The clock at start: the epoch.
    pub fn boot() -> (r: Clock)
        ensures
            r.wf(),
            r.sec == 0,
            r.usec == 0,
    {
        Clock { sec: 0, usec: 0 }
    }

    /// The current time.
    pub fn now(&self) -> (r: (u64, u32))
        ensures
            r.0 == self.sec,
            r.1 == self.usec,
    {
        (self.sec, self.usec)
    }

    /// Let time pass: models the outside time source moving forward.
    pub fn advance(&mut self, dsec: u64, dusec: u32)
        requires
            old(self).wf(),
            dusec < USEC_PER_SEC,
            old(self).sec + dsec + 1 < 0x1_0000_0000_0000,
        ensures
            final(self).wf(),
            final(self).sec * 1_000_000 + final(self).usec == old(self).sec * 1_000_000 + old(
                self,
            ).usec + dsec * 1_000_000 + dusec,
    {
        let u = self.usec + dusec;
        if u >= USEC_PER_SEC {
            self.usec = u - USEC_PER_SEC;
            self.sec = self.sec + dsec + 1;
        } else {
            self.usec = u;
            self.sec = self.sec + dsec;
        }
        proof {
            vstd::arithmetic::mul::lemma_mul_is_distributive_add_other_way(
                1_000_000,
                old(self).sec as int,
                dsec as int,
            );
            vstd::arithmetic::mul::lemma_mul_is_distributive_add_other_way(
                1_000_000,
                old(self).sec as int + dsec as int,
                1,
            );
        }
    }
}

} // verus!
