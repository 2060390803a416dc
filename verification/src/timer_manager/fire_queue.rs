//! A queue that hands out the earliest of the times that were put into it.

use crate::time::Instant;
use solana_clock::Slot;
use vstd::multiset::Multiset;
use vstd::prelude::*;

verus! {

/// Whether the entry `a` leaves the queue before `b`, or is equal to it: by time, and by slot
/// where the times are equal.
pub open spec fn no_later(a: (nat, Slot), b: (nat, Slot)) -> bool {
    a.0 < b.0 || a.0 == b.0 && a.1 <= b.1
}

/// Times, each with the slot of the timer that fires then, earliest first.
///
/// Its view holds its entries, with no order between them.
pub struct FireQueue {
    /// The entries, earliest last.
    entries: Vec<(Instant, Slot)>,
}

impl View for FireQueue {
    type V = Multiset<(nat, Slot)>;

    closed spec fn view(&self) -> Multiset<(nat, Slot)> {
        self.keys().to_multiset()
    }
}

impl FireQueue {
    spec fn keys(&self) -> Seq<(nat, Slot)> {
        self.entries@.map_values(|entry: (Instant, Slot)| (entry.0@, entry.1))
    }

    /// The entries are sorted, earliest last.
    pub closed spec fn wf(&self) -> bool {
        forall|i: int, j: int|
            0 <= i <= j < self.keys().len() ==> no_later(
                #[trigger] self.keys()[j],
                #[trigger] self.keys()[i],
            )
    }

    /// An empty queue.
    pub fn new() -> (queue: FireQueue)
        ensures
            queue.wf(),
            queue@ == Multiset::<(nat, Slot)>::empty(),
    {
        let queue = FireQueue { entries: Vec::new() };
        proof {
            vstd::seq_lib::to_multiset_len(queue.keys());
        }
        queue
    }

    /// The number of entries.
    pub fn len(&self) -> (len: usize)
        ensures
            len == self@.len(),
    {
        proof {
            vstd::seq_lib::to_multiset_len(self.keys());
        }
        self.entries.len()
    }

    /// Adds an entry.
    pub fn push(&mut self, fire: Instant, slot: Slot)
        requires
            old(self).wf(),
        ensures
            final(self).wf(),
            final(self)@ == old(self)@.insert((fire@, slot)),
    {
        let ghost key = (fire@, slot);
        let mut index: usize = self.entries.len();
        while index > 0 && (self.entries[index - 1].0.is_before(fire) || (
        !fire.is_before(self.entries[index - 1].0) && self.entries[index - 1].1 < slot))
            invariant
                index <= self.entries.len(),
                key == (fire@, slot),
                forall|i: int|
                    index <= i < self.keys().len() ==> no_later(#[trigger] self.keys()[i], key),
            decreases index,
        {
            index = index - 1;
            assert(no_later(self.keys()[index as int], key));
        }
        let ghost before = self.keys();
        assert(index > 0 ==> no_later(key, before[index - 1]));
        self.entries.insert(index, (fire, slot));
        proof {
            assert(self.keys() =~= before.insert(index as int, key));
            vstd::seq_lib::to_multiset_insert(before, index as int, key);
            assert forall|i: int, j: int| 0 <= i <= j < self.keys().len() implies no_later(
                #[trigger] self.keys()[j],
                #[trigger] self.keys()[i],
            ) by {
                if i < index {
                    assert(no_later(before[index - 1], before[i]));
                }
            }
        }
    }

    /// The entry at the end is the earliest one.
    proof fn last_is_earliest(&self)
        requires
            self.wf(),
            self.keys().len() > 0,
        ensures
            self@.contains(self.keys().last()),
            forall|other: (nat, Slot)| #[trigger]
                self@.contains(other) ==> no_later(self.keys().last(), other),
    {
        let keys = self.keys();
        let last = keys.len() - 1;
        vstd::seq_lib::to_multiset_contains(keys, keys[last]);
        assert forall|other: (nat, Slot)| #[trigger] self@.contains(other) implies no_later(
            keys.last(),
            other,
        ) by {
            vstd::seq_lib::to_multiset_contains(keys, other);
            let i = choose|i: int| 0 <= i < keys.len() && keys[i] == other;
            assert(no_later(keys[last], keys[i]));
        }
    }

    /// The earliest entry, which stays in the queue.
    pub fn peek(&self) -> (entry: Option<(Instant, Slot)>)
        requires
            self.wf(),
        ensures
            entry is None <==> self@.len() == 0,
            entry matches Some((fire, slot)) ==> {
                let key = (fire@, slot);
                &&& self@.contains(key)
                &&& forall|other: (nat, Slot)| #[trigger]
                    self@.contains(other) ==> no_later(key, other)
            },
    {
        proof {
            vstd::seq_lib::to_multiset_len(self.keys());
        }
        let len: usize = self.entries.len();
        if len == 0 {
            None
        } else {
            proof {
                self.last_is_earliest();
            }
            Some(self.entries[len - 1])
        }
    }

    /// Takes the earliest entry out of the queue.
    pub fn pop(&mut self) -> (entry: Option<(Instant, Slot)>)
        requires
            old(self).wf(),
        ensures
            final(self).wf(),
            entry is None <==> old(self)@.len() == 0,
            entry is None ==> final(self)@ == old(self)@,
            entry matches Some((fire, slot)) ==> {
                let key = (fire@, slot);
                &&& old(self)@.contains(key)
                &&& forall|other: (nat, Slot)| #[trigger]
                    old(self)@.contains(other) ==> no_later(key, other)
                &&& final(self)@ == old(self)@.remove(key)
            },
    {
        let ghost before = self.keys();
        proof {
            vstd::seq_lib::to_multiset_len(before);
            if before.len() > 0 {
                self.last_is_earliest();
            }
        }
        let entry = self.entries.pop();
        proof {
            if before.len() > 0 {
                let last = before.len() - 1;
                vstd::seq_lib::to_multiset_remove(before, last);
                assert(self.keys() =~= before.remove(last));
                assert forall|i: int, j: int| 0 <= i <= j < self.keys().len() implies no_later(
                    #[trigger] self.keys()[j],
                    #[trigger] self.keys()[i],
                ) by {
                    assert(self.keys()[i] == before[i] && self.keys()[j] == before[j]);
                }
            } else {
                assert(self.keys() =~= before);
            }
        }
        entry
    }
}

/// An entry that is added is in the queue once more, and nothing else changes.
pub proof fn added_entries_are_queued(
    fresh: FireQueue,
    queue: &mut FireQueue,
    fire: Instant,
    slot: Slot,
    len: usize,
    key: (nat, Slot),
)
    requires
        call_ensures(FireQueue::new, (), fresh),
        call_ensures(FireQueue::push, (queue, fire, slot), ()),
        call_ensures(FireQueue::len, (&*final(queue),), len),
    ensures
        fresh@.count(key) == 0 && fresh@.len() == 0,
        len == old(queue)@.len() + 1,
        final(queue)@.count(key) == old(queue)@.count(key) + if key.0 == fire@ && key.1 == slot {
            1nat
        } else {
            0
        },
{
    broadcast use vstd::multiset::group_multiset_axioms;

}

/// The entry that is taken out, and seen before that, is the one with the earliest time, of those
/// with one time the one with the lowest slot. Only this entry leaves the queue, and there is none
/// exactly if the queue is empty.
pub proof fn earliest_entries_leave_first(
    queue: &mut FireQueue,
    seen: Option<(Instant, Slot)>,
    taken: Option<(Instant, Slot)>,
    key: (nat, Slot),
)
    requires
        call_ensures(FireQueue::peek, (&*queue,), seen),
        call_ensures(FireQueue::pop, (queue,), taken),
    ensures
        taken is None <==> old(queue)@.len() == 0,
        taken is None ==> seen is None && final(queue)@ == old(queue)@,
        taken matches Some((fire, slot)) ==> {
            &&& seen matches Some((seen_fire, seen_slot)) && seen_fire@ == fire@ && seen_slot
                == slot
            &&& old(queue)@.count((fire@, slot)) > 0
            &&& old(queue)@.count(key) > 0 ==> fire@ < key.0 || fire@ == key.0 && slot <= key.1
            &&& old(queue)@.count(key) == final(queue)@.count(key) + if key.0 == fire@ && key.1
                == slot {
                1nat
            } else {
                0
            }
        },
{
    broadcast use vstd::multiset::group_multiset_axioms;

    if let (Some((fire, slot)), Some((seen_fire, seen_slot))) = (taken, seen) {
        assert(queue@.contains((fire@, slot)) && queue@.contains((seen_fire@, seen_slot)));
        assert(queue@.count(key) > 0 ==> queue@.contains(key));
    }
}

} // verus!
