//! The pause gate: a mutual-exclusion primitive repurposed as a binary
//! suspend/resume signal for the poller. A pauser acquires it and holds
//! it until resume; the poller acquires and releases it around every
//! probe, and therefore blocks while the pause gate is held.

use vstd::prelude::*;

verus! {

/// What an attempt to acquire a mutual-exclusion lock does to its
/// caller: either the caller now holds it, or it was already held
/// and the caller blocks until it is released.
#[derive(Clone, Copy, PartialEq, Eq, Structural, Debug)]
pub enum Acquire {
    Acquired,
    Blocks,
}

/// The pause gate. `held` is true exactly while some caller has
/// acquired it and not yet released it.
pub struct PauseGate {
    pub held: bool,
}

/// The pause gate state after a successful acquire.
pub open spec fn gate_acquired(g: PauseGate) -> PauseGate {
    PauseGate { held: true }
}

/// The pause gate state after a release.
pub open spec fn gate_released(g: PauseGate) -> PauseGate {
    PauseGate { held: false }
}

/// Whether an acquire attempt on gate `g` blocks its caller.
pub open spec fn acquire_blocks(g: PauseGate) -> bool {
    g.held
}

impl PauseGate {
    pub open spec fn spec_held(self) -> bool {
        self.held
    }

    /// A freshly initialized gate is not held by anyone.
    pub fn new() -> (g: PauseGate)
        ensures
            !g.spec_held(),
    {
        PauseGate { held: false }
    }

    /// One acquire attempt. If the pause gate is free the caller
    /// takes it; if it is already held the caller blocks (it is a
    /// plain mutex, not a counting semaphore) and nothing changes.
    pub fn acquire(&mut self) -> (r: Acquire)
        ensures
            r == Acquire::Blocks <==> acquire_blocks(*old(self)),
            acquire_blocks(*old(self)) ==> *final(self) == *old(self),
            !acquire_blocks(*old(self)) ==> *final(self) == gate_acquired(*old(self)),
            final(self).spec_held(),
    {
        if self.held {
            Acquire::Blocks
        } else {
            self.held = true;
            Acquire::Acquired
        }
    }

    /// Release the pause gate. Only a caller that holds it may release it.
    pub fn release(&mut self)
        requires
            old(self).spec_held(),
        ensures
            *final(self) == gate_released(*old(self)),
            !final(self).spec_held(),
    {
        self.held = false;
    }
}

/// Pausing twice without an intervening resume deadlocks the second
/// pauser: after one successful acquire, any further acquire attempt
/// blocks until a release, whatever state the pause gate started in.
pub proof fn lemma_second_pause_blocks(g: PauseGate)
    requires
        !acquire_blocks(g),
    ensures
        acquire_blocks(gate_acquired(g)),
{
}

/// Releasing the pause gate unblocks acquirers: after a release, an acquire
/// attempt never blocks.
pub proof fn lemma_release_unblocks(g: PauseGate)
    ensures
        !acquire_blocks(gate_released(g)),
{
}

} // verus!
