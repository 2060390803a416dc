//! How slots are grouped into leader windows.

use solana_clock::Slot;
use vstd::prelude::*;

verus! {

/// The number of slots in a leader window.
pub open spec fn window_slots() -> int {
    4
}

/// The number of consecutive slots that one leader is given.
///
/// Trusted: reads `solana_clock::NUM_CONSECUTIVE_LEADER_SLOTS`, a constant that is claimed
/// to be 4.
#[verifier::external_body]
#[allow(deprecated)]
pub(crate) fn num_consecutive_leader_slots() -> (count: u64)
    ensures
        count == window_slots(),
{
    solana_clock::NUM_CONSECUTIVE_LEADER_SLOTS
}

/// The last slot of the leader window that `slot` lies in.
pub open spec fn last_of_window(slot: Slot) -> int {
    slot - slot as int % window_slots() + window_slots() - 1
}

/// The last slot of the leader window that `slot` lies in.
pub fn last_of_consecutive_leader_slots(slot: Slot) -> (last: Slot)
    ensures
        last == last_of_window(slot),
{
    let count: u64 = num_consecutive_leader_slots();
    slot / count * count + (count - 1)
}

/// The last slot of a leader window is the next one from a slot on of which the number leaves three
/// when it is divided by four: windows have four slots and start at a multiple of four.
pub proof fn windows_have_four_slots(slot: Slot, last: Slot)
    requires
        call_ensures(last_of_consecutive_leader_slots, (slot,), last),
    ensures
        window_slots() == 4,
        last % 4 == 3,
        slot <= last < slot + 4,
{
}

} // verus!
