//! Requested restarts.
//!
//! A monotone epoch rather than a flag: the task applies a pending reset at the next frame boundary
//! and publishes the tracker's world generation with every pose, so a consumer can tell which world
//! a pose belongs to.
use vstd::prelude::*;

verus! {

/// A count of requested resets, shared between whoever requests them and the task that applies
/// them. It wraps around after `u64::MAX`.
#[derive(Debug)]
pub struct ResetEpoch {
    requested: u64,
}

impl View for ResetEpoch {
    type V = u64;

    closed spec fn view(&self) -> u64 {
        self.requested
    }
}

/// The epoch after one more request.
pub open spec fn next_epoch(epoch: u64) -> u64 {
    if epoch == u64::MAX {
        0
    } else {
        (epoch + 1) as u64
    }
}

/// The epoch after `n` requests.
pub open spec fn epoch_after(epoch: u64, n: nat) -> u64
    decreases n,
{
    if n == 0 {
        epoch
    } else {
        next_epoch(epoch_after(epoch, (n - 1) as nat))
    }
}

impl ResetEpoch {
    /// A counter with no reset requested.
    pub fn new() -> (r: ResetEpoch)
        ensures
            r@ == 0,
    {
        ResetEpoch { requested: 0 }
    }

    /// Requests a reset.
    pub fn request(&mut self)
        ensures
            final(self)@ == next_epoch(old(self)@),
    {
        self.requested = self.requested.wrapping_add(1);
    }

    /// The epoch the task should be running under.
    pub fn requested(&self) -> (r: u64)
        ensures
            r == self@,
    {
        self.requested
    }
}

impl Default for ResetEpoch {
    fn default() -> (r: ResetEpoch)
        ensures
            r@ == 0,
    {
        ResetEpoch::new()
    }
}

/// Every request counts once: `n` requests move the epoch by `n`, modulo the width of the counter.
pub proof fn each_request_counts_once(epoch: u64, n: nat)
    ensures
        epoch_after(epoch, n) == (epoch + n) % 0x1_0000_0000_0000_0000,
    decreases n,
{
    if n > 0 {
        each_request_counts_once(epoch, (n - 1) as nat);
    }
}

/// A request is never lost on the task: one request always changes the epoch.
pub proof fn a_request_is_seen(epoch: u64)
    ensures
        next_epoch(epoch) != epoch,
{
}

} // verus!
