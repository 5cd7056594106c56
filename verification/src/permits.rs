//! The fixed-capacity permit pool that bounds how many per-record tasks
//! may simultaneously be past the acquire step, inside the
//! check/download/write body.
//!
//! Task creation itself is never throttled; each task acquires one
//! permit before its critical section and releases it on every exit
//! path. The type invariant shows the bound: no interleaving of
//! acquisitions and releases puts more permits in use than the pool's
//! capacity.
use vstd::prelude::*;

verus! {

/// A fixed budget of `capacity` permits, of which `in_use` are held.
#[derive(Debug)]
pub struct PermitPool {
    capacity: usize,
    in_use: usize,
}

impl PermitPool {
    /// The concurrency bound: held permits never exceed the capacity.
    #[verifier::type_invariant]
    pub closed spec fn bounded(self) -> bool {
        self.in_use <= self.capacity
    }

    pub closed spec fn capacity(self) -> nat {
        self.capacity as nat
    }

    pub closed spec fn in_use(self) -> nat {
        self.in_use as nat
    }

    /// A fresh pool with every permit free.
    pub fn new(capacity: usize) -> (p: PermitPool)
        ensures
            p.capacity() == capacity,
            p.in_use() == 0,
    {
        PermitPool { capacity, in_use: 0 }
    }

    /// Takes one permit when a slot is free; grants exactly when fewer
    /// than `capacity` permits are held.
    pub fn try_acquire(&mut self) -> (granted: bool)
        ensures
            final(self).capacity() == old(self).capacity(),
            granted <==> old(self).in_use() < old(self).capacity(),
            granted ==> final(self).in_use() == old(self).in_use() + 1,
            !granted ==> final(self).in_use() == old(self).in_use(),
    {
        proof {
            use_type_invariant(&*self);
        }
        if self.in_use < self.capacity {
            self.in_use = self.in_use + 1;
            true
        } else {
            false
        }
    }

    /// Returns one held permit to the pool.
    pub fn release(&mut self)
        requires
            old(self).in_use() > 0,
        ensures
            final(self).capacity() == old(self).capacity(),
            final(self).in_use() == old(self).in_use() - 1,
    {
        proof {
            use_type_invariant(&*self);
        }
        self.in_use = self.in_use - 1;
    }

    /// How many permits are held right now.
    pub fn held(&self) -> (n: usize)
        ensures
            n == self.in_use(),
    {
        self.in_use
    }

    /// The pool's fixed capacity.
    pub fn limit(&self) -> (n: usize)
        ensures
            n == self.capacity(),
    {
        self.capacity
    }
}

/// Bounded concurrency: whatever sequence of acquisitions and releases
/// produced `p`, at most `capacity` permits are in use at any instant.
pub fn permits_bounded(p: &PermitPool)
    ensures
        p.in_use() <= p.capacity(),
{
    proof {
        use_type_invariant(p);
    }
}

} // verus!
