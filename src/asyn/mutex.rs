use vstd::prelude::*;

verus! {

/// The state of an asynchronous test-and-set lock. A task that polls for
/// the lock gets it exactly when nobody holds it, and otherwise stays
/// pending and tries again on its next turn; the holder gives it back when
/// it is done. There is no queue of waiters and no fairness.
pub struct LockState {
    locked: bool,
}

impl LockState {
    /// Whether somebody holds the lock.
    pub closed spec fn held(&self) -> bool {
        self.locked
    }

    /// A lock that nobody holds.
    pub fn new() -> (r: LockState)
        ensures
            !r.held(),
    {
        LockState { locked: false }
    }

    /// One poll for the lock: takes it and returns `true` when nobody held
    /// it; returns `false` and changes nothing when it is held.
    pub fn try_acquire(&mut self) -> (r: bool)
        ensures
            r == !old(self).held(),
            final(self).held(),
    {
        if self.locked {
            false
        } else {
            self.locked = true;
            true
        }
    }

    /// Gives the lock back, when its holder is done.
    pub fn release(&mut self)
        ensures
            !final(self).held(),
    {
        self.locked = false;
    }

    /// Whether somebody holds the lock.
    pub fn is_held(&self) -> (r: bool)
        ensures
            r == self.held(),
    {
        self.locked
    }
}

} // verus!
