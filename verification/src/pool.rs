//! Accounting of the database connections background work may hold, so that
//! the API always keeps some for itself.
use vstd::prelude::*;

verus! {

/// The background connection slots in use, out of the number allowed.
#[derive(Debug)]
pub struct SlotCounter {
    connections: u32,
    max_connections: u32,
}

impl SlotCounter {
    /// Background work never holds more slots than allowed.
    #[verifier::type_invariant]
    spec fn within_limit(self) -> bool {
        self.connections <= self.max_connections
    }

    /// The slots in use.
    pub closed spec fn used(self) -> nat {
        self.connections as nat
    }

    /// The slots allowed.
    pub closed spec fn limit(self) -> nat {
        self.max_connections as nat
    }

    /// A counter allowing `max_connections` slots, none in use.
    pub fn new(max_connections: u32) -> (r: SlotCounter)
        ensures
            r.used() == 0,
            r.limit() == max_connections,
    {
        SlotCounter { connections: 0, max_connections }
    }

    /// The number of slots in use.
    pub fn connections_count(&self) -> (r: u32)
        ensures
            r == self.used(),
            r <= self.limit(),
    {
        proof {
            use_type_invariant(self);
        }
        self.connections
    }

    /// The number of slots allowed.
    pub fn max_connections(&self) -> (r: u32)
        ensures
            r == self.limit(),
    {
        self.max_connections
    }

    /// The number of free slots.
    pub fn available_background_slots(&self) -> (r: u32)
        ensures
            r == self.limit() - self.used(),
    {
        proof {
            use_type_invariant(self);
        }
        self.max_connections - self.connections
    }

    /// Take a slot if one is free; report whether one was taken.
    pub fn try_acquire(&mut self) -> (r: bool)
        ensures
            r == (old(self).used() < old(self).limit()),
            final(self).limit() == old(self).limit(),
            r ==> final(self).used() == old(self).used() + 1,
            !r ==> final(self).used() == old(self).used(),
    {
        proof {
            use_type_invariant(&*self);
        }
        if self.connections < self.max_connections {
            self.connections = self.connections + 1;
            true
        } else {
            false
        }
    }

    /// Give back a slot taken before.
    pub fn release(&mut self)
        requires
            old(self).used() > 0,
        ensures
            final(self).used() == old(self).used() - 1,
            final(self).limit() == old(self).limit(),
    {
        proof {
            use_type_invariant(&*self);
        }
        self.connections = self.connections - 1;
    }
}

} // verus!
