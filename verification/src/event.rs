//! Events that the voting loop reacts to.

use solana_clock::Slot;
use vstd::prelude::*;

verus! {

/// What a timer reports when one of its deadlines passes.
#[derive(Clone, Copy, Debug, PartialEq, Eq, Structural)]
pub enum VotorEvent {
    /// The leader of the window that this slot starts sent no first slice in time.
    TimeoutCrashedLeader(Slot),
    /// The block of this slot did not arrive in time.
    Timeout(Slot),
}

} // verus!
