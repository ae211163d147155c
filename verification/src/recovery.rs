//! Bookkeeping for interrupted operations.

use vstd::prelude::*;

verus! {

/// A persistent operation that was interrupted and that recovery has to finish.
#[derive(Clone, Copy, Debug, Default, PartialEq, Eq, Structural)]
pub enum RecoveryAction {
    /// Nothing was interrupted.
    #[default]
    Nothing,
    RewriteEeprom,
    EraseEeprom,
}

/// Marks a device as requiring recovery if a stateful operation is dropped, or
/// returns, before it has explicitly completed its cleanup.
#[derive(Debug)]
pub struct RecoveryGuard {
    pub armed: bool,
}

impl RecoveryGuard {
    /// Arm a guard.
    pub fn new() -> (guard: RecoveryGuard)
        ensures
            guard.armed,
    {
        RecoveryGuard { armed: true }
    }

    /// Declare the guarded operation complete.
    pub fn disarm(&mut self)
        ensures
            !final(self).armed,
    {
        self.armed = false;
    }

    /// Let go of the guard: if it is still armed, recovery is required.
    pub fn release(self, recovery_required: &mut bool)
        ensures
            *final(recovery_required) == (*old(recovery_required) || self.armed),
    {
        if self.armed {
            *recovery_required = true;
        }
    }
}

/// What follows `count` on a counter that runs round, as that of the device
/// identities and those of the recovery epochs do.
pub open spec fn successor(count: u64) -> u64 {
    if count == u64::MAX {
        0
    } else {
        (count + 1) as u64
    }
}

/// Allocate a device identity. `next` is the process-wide counter.
pub fn next_device_id(next: &mut u64) -> (id: u64)
    ensures
        id == *old(next),
        *final(next) == successor(*old(next)),
{
    let id: u64 = *next;
    *next = id.wrapping_add(1);
    id
}

/// The counter after `n` steps from `next` on.
pub open spec fn counter_after(next: u64, n: nat) -> u64
    decreases n,
{
    if n == 0 {
        next
    } else {
        successor(counter_after(next, (n - 1) as nat))
    }
}

proof fn lemma_counter_after(next: u64, n: nat)
    ensures
        counter_after(next, n) == (next + n) % 0x1_0000_0000_0000_0000,
    decreases n,
{
    if n > 0 {
        lemma_counter_after(next, (n - 1) as nat);
    }
}

/// Identities are unique: of fewer than 2^64 allocations, no two give the same
/// one. The `i`-th allocation (from 0) returns `counter_after(next, i)`.
pub proof fn device_ids_are_unique(next: u64, i: nat, j: nat)
    requires
        i < j < i + 0x1_0000_0000_0000_0000,
    ensures
        counter_after(next, i) != counter_after(next, j),
{
    lemma_counter_after(next, i);
    lemma_counter_after(next, j);
}

} // verus!
