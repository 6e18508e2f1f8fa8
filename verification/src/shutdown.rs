//! The shutdown signal: a flag that the first interrupt sets and that nothing
//! clears.

use vstd::prelude::*;

verus! {

/// Whether shutdown has been requested.
#[derive(Debug)]
pub struct ShutdownSignal {
    set: bool,
}

impl ShutdownSignal {
    /// Whether shutdown has been requested.
    pub closed spec fn requested(&self) -> bool {
        self.set
    }

    /// A signal that is not set.
    pub fn new() -> (signal: ShutdownSignal)
        ensures
            !signal.requested(),
    {
        ShutdownSignal { set: false }
    }

    /// The signal as it was found: set, or not set.
    pub fn observed(set: bool) -> (signal: ShutdownSignal)
        ensures
            signal.requested() == set,
    {
        ShutdownSignal { set }
    }

    /// Sets the signal. Returns whether this interrupt was the first, the one
    /// that is announced; a later one changes nothing.
    pub fn interrupt(&mut self) -> (first: bool)
        ensures
            final(self).requested(),
            first == !old(self).requested(),
    {
        let was_set = self.set;
        self.set = true;
        !was_set
    }

    /// Whether shutdown has been requested.
    pub fn is_set(&self) -> (set: bool)
        ensures
            set == self.requested(),
    {
        self.set
    }
}

} // verus!
