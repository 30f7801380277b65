//! Which worker serves which segment.

use vstd::prelude::*;

verus! {

/// The worker of a pool of `workers` that owns segment `(id0, id1)`: the
/// exclusive-or of the two halves, modulo the pool size.
pub open spec fn owner_of(id0: u64, id1: u64, workers: u32) -> int {
    ((id0 ^ id1) % (workers as u64)) as int
}

/// A fixed-size pool of workers, each serving its own share of the
/// segments in the order in which requests arrive.
#[derive(Clone, Copy, Debug, PartialEq, Eq, Structural)]
pub struct IoThreadPool {
    workers: u32,
}

impl IoThreadPool {
    /// The number of workers.
    pub closed spec fn size(&self) -> u32 {
        self.workers
    }

    /// A pool always has at least one worker.
    #[verifier::type_invariant]
    spec fn has_workers(self) -> bool {
        self.workers > 0
    }

    /// A pool of `workers` workers.
    pub fn new(workers: u32) -> (pool: IoThreadPool)
        requires
            workers > 0,
        ensures
            pool.size() == workers,
    {
        IoThreadPool { workers }
    }

    /// The number of workers.
    pub fn len(&self) -> (n: u32)
        ensures
            n == self.size(),
    {
        self.workers
    }

    /// The index of the worker that owns segment `(id0, id1)`. The same
    /// segment always gets the same worker.
    pub fn get_thread(&self, id0: u64, id1: u64) -> (index: u32)
        ensures
            self.size() > 0,
            index == owner_of(id0, id1, self.size()),
            index < self.size(),
    {
        proof {
            use_type_invariant(self);
        }
        ((id0 ^ id1) % (self.workers as u64)) as u32
    }
}

} // verus!
