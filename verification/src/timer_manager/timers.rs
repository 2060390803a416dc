//! All active timers of a validator.

use crate::event::VotorEvent;
use crate::time::{Duration, Instant};
use crate::timer_manager::fire_queue::FireQueue;
use crate::timer_manager::stats::TimerManagerStats;
use crate::timer_manager::timer_state::{TimerState, TimerView};
use solana_clock::Slot;
use std::collections::HashMap;
use vstd::multiset::Multiset;
use vstd::prelude::*;

verus! {

broadcast use vstd::std_specs::hash::group_hash_axioms;

/// Maintains all active timer states for windows of slots.
///
/// Its view maps each slot that has an active timer to what that timer still has to do.
pub struct Timers {
    delta_timeout: Duration,
    /// Timers are indexed by slots.
    timers: HashMap<Slot, TimerState>,
    /// The times the timer states might next be ready.
    queue: FireQueue,
    /// Stats for the timer manager.
    stats: TimerManagerStats,
}

/// What the timers of a map still have to do.
spec fn views(timers: Map<Slot, TimerState>) -> Map<Slot, TimerView> {
    timers.map_values(|timer: TimerState| timer@)
}

/// The entry of the queue for the timer of `slot`.
spec fn queue_key(timers: Map<Slot, TimerState>, slot: Slot) -> (nat, Slot) {
    (timers[slot]@.schedule[0].0 as nat, slot)
}

/// Every timer has a deadline left, and the queue holds the next one of each timer, once.
spec fn consistent(timers: Map<Slot, TimerState>, queue: Multiset<(nat, Slot)>) -> bool {
    &&& timers.dom().finite()
    &&& forall|slot: Slot| #[trigger]
        timers.contains_key(slot) ==> {
            &&& timers[slot].wf()
            &&& timers[slot]@.schedule.len() > 0
            &&& timers[slot]@.schedule[0].0 >= 0
        }
    &&& forall|key: (nat, Slot)| #[trigger]
        queue.count(key) == if timers.contains_key(key.1) && queue_key(timers, key.1) == key {
            1nat
        } else {
            0
        }
    &&& queue.len() == timers.len()
}

impl View for Timers {
    type V = Map<Slot, TimerView>;

    closed spec fn view(&self) -> Map<Slot, TimerView> {
        views(self.timers@)
    }
}

/// The earliest entry of the queue is the next deadline of the timer that fires next.
proof fn consistent_earliest(
    timers: Map<Slot, TimerState>,
    queue: Multiset<(nat, Slot)>,
    key: (nat, Slot),
)
    requires
        consistent(timers, queue),
        queue.contains(key),
        forall|other: (nat, Slot)| #[trigger]
            queue.contains(other) ==> crate::timer_manager::fire_queue::no_later(key, other),
    ensures
        timers.contains_key(key.1),
        timers[key.1]@.schedule[0].0 == key.0,
        crate::timer_manager::draining::is_earliest(views(timers), key.1),
        crate::timer_manager::draining::earliest(views(timers)) == key.1,
{
    assert forall|other: Slot| #[trigger] views(timers).contains_key(other) implies {
        let fire = views(timers)[key.1].schedule[0].0;
        let other_fire = views(timers)[other].schedule[0].0;
        fire < other_fire || fire == other_fire && key.1 <= other
    } by {
        assert(queue.contains(queue_key(timers, other)));
    }
    assert(crate::timer_manager::draining::is_earliest(views(timers), key.1));
    let slot = crate::timer_manager::draining::earliest(views(timers));
    assert(crate::timer_manager::draining::is_earliest(views(timers), slot));
    assert(views(timers).contains_key(slot));
    assert(views(timers).contains_key(key.1));
}

/// The queue stays consistent when a timer and its entry are taken out.
proof fn consistent_remove(timers: Map<Slot, TimerState>, queue: Multiset<(nat, Slot)>, slot: Slot)
    requires
        consistent(timers, queue),
        timers.contains_key(slot),
    ensures
        consistent(timers.remove(slot), queue.remove(queue_key(timers, slot))),
{
    broadcast use vstd::multiset::group_multiset_axioms;

    let left = timers.remove(slot);
    let key = queue_key(timers, slot);
    assert(queue.count(key) == 1);
    assert forall|other: (nat, Slot)| #[trigger]
        queue.remove(key).count(other) == if left.contains_key(other.1) && queue_key(left, other.1)
            == other {
            1nat
        } else {
            0
        } by {
        assert(queue.count(other) == if timers.contains_key(other.1) && queue_key(timers, other.1)
            == other {
            1nat
        } else {
            0
        });
    }
    assert forall|other: Slot| #[trigger] left.contains_key(other) implies {
        &&& left[other].wf()
        &&& left[other]@.schedule.len() > 0
        &&& left[other]@.schedule[0].0 >= 0
    } by {
        assert(timers.contains_key(other));
    }
}

/// The queue stays consistent when a timer and its entry are added.
proof fn consistent_insert(
    timers: Map<Slot, TimerState>,
    queue: Multiset<(nat, Slot)>,
    slot: Slot,
    timer: TimerState,
)
    requires
        consistent(timers, queue),
        !timers.contains_key(slot),
        timer.wf(),
        timer@.schedule.len() > 0,
        timer@.schedule[0].0 >= 0,
    ensures
        consistent(
            timers.insert(slot, timer),
            queue.insert((timer@.schedule[0].0 as nat, slot)),
        ),
{
    broadcast use vstd::multiset::group_multiset_axioms;

    let more = timers.insert(slot, timer);
    let key = (timer@.schedule[0].0 as nat, slot);
    assert forall|other: (nat, Slot)| #[trigger]
        queue.insert(key).count(other) == if more.contains_key(other.1) && queue_key(more, other.1)
            == other {
            1nat
        } else {
            0
        } by {
        assert(queue.count(other) == if timers.contains_key(other.1) && queue_key(timers, other.1)
            == other {
            1nat
        } else {
            0
        });
    }
    assert forall|other: Slot| #[trigger] more.contains_key(other) implies {
        &&& more[other].wf()
        &&& more[other]@.schedule.len() > 0
        &&& more[other]@.schedule[0].0 >= 0
    } by {
        assert(other != slot ==> timers.contains_key(other));
    }
}

impl Timers {
    /// The number of times that wait in the queue.
    pub closed spec fn queued(&self) -> nat {
        self.queue@.len()
    }

    /// Every active timer has a deadline left and is queued for it, once.
    pub closed spec fn wf(&self) -> bool {
        &&& self.queue.wf()
        &&& consistent(self.timers@, self.queue@)
    }

    /// The timeout that new timers start from.
    pub closed spec fn base_timeout(&self) -> Duration {
        self.delta_timeout
    }

    /// The counters so far.
    pub closed spec fn counters(&self) -> TimerManagerStats {
        self.stats
    }

    /// No timers yet.
    pub fn new(delta_timeout: Duration) -> (timers: Timers)
        ensures
            timers.wf(),
            timers@ == Map::<Slot, TimerView>::empty(),
            timers.base_timeout() == delta_timeout,
            timers.counters() == (TimerManagerStats {
                set_timeout_count: 0,
                set_timeout_succeed_count: 0,
                max_heap_size: 0,
            }),
    {
        let timers = Timers {
            delta_timeout,
            timers: HashMap::new(),
            queue: FireQueue::new(),
            stats: TimerManagerStats::new(),
        };
        assert(timers@ =~= Map::<Slot, TimerView>::empty());
        timers
    }

    /// Call to set timeouts for a new window of slots.
    ///
    /// If `standstill_slot` is provided, the timeout that bounds network delays is extended by
    /// 5% for each leader window since the standstill started. See
    /// [`crate::multiplier::Multiplier::scale`] for `product`.
    ///
    /// A slot that already has a timer keeps it.
    pub fn set_timeouts<F: Fn(Duration, i32) -> Option<Duration>>(
        &mut self,
        slot: Slot,
        now: Instant,
        standstill_slot: Option<Slot>,
        delta_first_slice: Duration,
        delta_block: Duration,
        product: F,
    )
        requires
            old(self).wf(),
            crate::multiplier::can_scale(
                product,
                old(self).base_timeout(),
                crate::common::timeout_multiplier(slot, standstill_slot),
            ),
            forall|scaled: Duration| #[trigger]
                crate::common::timeout_scales_to(
                    product,
                    old(self).base_timeout(),
                    slot,
                    standstill_slot,
                    scaled,
                ) ==> now@ + scaled@ + delta_first_slice@ <= crate::time::MAX_NANOS,
        ensures
            final(self).wf(),
            final(self).base_timeout() == old(self).base_timeout(),
            exists|scaled: Duration|
                {
                    &&& #[trigger] crate::common::timeout_scales_to(
                        product,
                        old(self).base_timeout(),
                        slot,
                        standstill_slot,
                        scaled,
                    )
                    &&& final(self)@ == crate::timer_manager::draining::with_timer(
                        old(self)@,
                        slot,
                        crate::timer_manager::timer_state::initial_timer(
                            slot,
                            scaled,
                            delta_first_slice,
                            delta_block,
                            now,
                        ),
                    )
                },
            final(self).counters() == old(self).counters().after_call(
                final(self)@.len(),
                !old(self)@.contains_key(slot),
            ),
    {
        let (timer, next_fire) = TimerState::new(
            slot,
            self.delta_timeout,
            delta_first_slice,
            delta_block,
            now,
            standstill_slot,
            product,
        );
        // It is possible that this slot already has a timer set e.g. if there
        // are multiple ParentReady for the same slot. Do not insert new timer then.
        let new_timer_inserted = !self.timers.contains_key(&slot);
        if new_timer_inserted {
            proof {
                consistent_insert(self.timers@, self.queue@, slot, timer);
            }
            self.queue.push(next_fire, slot);
            self.timers.insert(slot, timer);
            assert(self@ =~= old(self)@.insert(slot, timer@));
        }
        assert(self@.dom() =~= self.timers@.dom());
        let heap_size: usize = self.queue.len();
        self.stats.incr_timeout_count_with_heap_size(heap_size, new_timer_inserted);
    }

    /// When the earliest active timer becomes ready.
    pub fn next_fire(&self) -> (fire: Option<Instant>)
        requires
            self.wf(),
        ensures
            fire is None <==> self@.is_empty(),
            fire matches Some(at) ==> {
                let slot = crate::timer_manager::draining::earliest(self@);
                &&& crate::timer_manager::draining::is_earliest(self@, slot)
                &&& self@[slot].schedule[0].0 == at@
            },
    {
        assert(self@.dom() =~= self.timers@.dom());
        match self.queue.peek() {
            None => None,
            Some((fire, slot)) => {
                proof {
                    consistent_earliest(self.timers@, self.queue@, (fire@, slot));
                }
                Some(fire)
            },
        }
    }

    /// Whether the earliest active timer can fire at `now`: it is not ready, or the time from
    /// which its following deadline is counted is a point in time.
    pub fn can_fire(&self, now: Instant) -> (can: bool)
        requires
            self.wf(),
        ensures
            can == crate::timer_manager::draining::can_fire(self@, now),
    {
        assert(self@.dom() =~= self.timers@.dom());
        match self.queue.peek() {
            None => {
                let ghost slot = crate::timer_manager::draining::earliest(self@);
                assert(!self@.contains_key(slot));
                true
            },
            Some((fire, slot)) => {
                proof {
                    consistent_earliest(self.timers@, self.queue@, (fire@, slot));
                }
                self.timers.get(&slot).unwrap().can_advance(now)
            },
        }
    }

    /// Fires the earliest active timer if it is ready, and returns the event to send.
    pub fn fire_next(&mut self, now: Instant) -> (event: Option<VotorEvent>)
        requires
            old(self).wf(),
            crate::timer_manager::draining::can_fire(old(self)@, now),
        ensures
            final(self).wf(),
            final(self).base_timeout() == old(self).base_timeout(),
            final(self).counters() == old(self).counters(),
            event matches Some(reported) ==> {
                &&& crate::timer_manager::draining::fires(old(self)@, now, reported)
                &&& final(self)@ == crate::timer_manager::draining::after_firing(old(self)@)
            },
            event is None ==> {
                &&& final(self)@ == old(self)@
                &&& forall|slot: Slot| #[trigger]
                    old(self)@.contains_key(slot) ==> !old(self)@[slot].is_due(now)
            },
    {
        let ghost timers = self.timers@;
        let ghost queue = self.queue@;
        assert(self@.dom() =~= timers.dom());
        match self.queue.pop() {
            None => None,
            Some((fire, slot)) => {
                let ghost key = (fire@, slot);
                proof {
                    consistent_earliest(timers, queue, key);
                    consistent_remove(timers, queue, slot);
                    assert(self@.contains_key(slot));
                }
                if now.is_before(fire) {
                    proof {
                        broadcast use vstd::multiset::group_multiset_axioms;

                        assert(queue.remove(key).insert(key) =~= queue);
                    }
                    self.queue.push(fire, slot);
                    return None;
                }
                let mut timer = self.timers.remove(&slot).unwrap();
                let event = timer.progress(now);
                match timer.next_fire() {
                    None => {},
                    Some(next) => {
                        proof {
                            consistent_insert(self.timers@, self.queue@, slot, timer);
                        }
                        self.queue.push(next, slot);
                        self.timers.insert(slot, timer);
                    },
                }
                assert(self@ =~= crate::timer_manager::draining::after_firing(views(timers)));
                event
            },
        }
    }

    /// Call to make progress on the timer states. If there are still active
    /// timer states, returns when the earliest one might become ready.
    ///
    /// Also returns the events to send, in order.
    pub fn progress(&mut self, now: Instant) -> (progress: (Vec<VotorEvent>, Option<Instant>))
        requires
            old(self).wf(),
            forall|slot: Slot| #[trigger]
                old(self)@.contains_key(slot) ==> old(self)@[slot].can_run(now),
        ensures
            final(self).wf(),
            final(self).base_timeout() == old(self).base_timeout(),
            final(self).counters() == old(self).counters(),
            crate::timer_manager::draining::drains(old(self)@, now, progress.0@, final(self)@),
            progress.1 is None <==> final(self)@.is_empty(),
            progress.1 matches Some(next_fire) ==> {
                let slot = crate::timer_manager::draining::earliest(final(self)@);
                &&& crate::timer_manager::draining::is_earliest(final(self)@, slot)
                &&& final(self)@[slot].schedule[0].0 == next_fire@
            },
    {
        let mut events: Vec<VotorEvent> = Vec::new();
        loop
            invariant_except_break
                forall|slot: Slot| #[trigger]
                    self@.contains_key(slot) ==> self@[slot].can_run(now),
            invariant
                self.wf(),
                self.base_timeout() == old(self).base_timeout(),
                self.counters() == old(self).counters(),
                self@ == crate::timer_manager::draining::after_firings(old(self)@, events@.len()),
                forall|k: int|
                    0 <= k < events@.len() ==> crate::timer_manager::draining::fires(
                        crate::timer_manager::draining::after_firings(old(self)@, k as nat),
                        now,
                        #[trigger] events@[k],
                    ),
            ensures
                crate::timer_manager::draining::drains(old(self)@, now, events@, self@),
            decreases crate::timer_manager::draining::deadlines_left(self@),
        {
            let ghost timers = self@;
            let ghost slot = crate::timer_manager::draining::earliest(timers);
            proof {
                one_deadline_queued_per_timer(*self);
                if timers.contains_key(slot) && timers[slot].is_due(now) {
                    crate::timer_manager::timer_state::advanced_can_run(timers[slot], now);
                }
            }
            match self.fire_next(now) {
                None => break,
                Some(event) => {
                    events.push(event);
                    proof {
                        crate::timer_manager::draining::firing_uses_up_a_deadline(timers, slot);
                        assert forall|other: Slot| #[trigger]
                            self@.contains_key(other) implies self@[other].can_run(now) by {
                            assert(timers.contains_key(other));
                        }
                    }
                },
            }
        }
        let next_fire = self.next_fire();
        (events, next_fire)
    }

    /// The counters so far.
    pub fn stats(&self) -> (stats: TimerManagerStats)
        ensures
            stats == self.counters(),
    {
        self.stats
    }

    /// Whether `slot` has an active timer.
    pub fn is_timeout_set(&self, slot: Slot) -> (set: bool)
        ensures
            set == self@.contains_key(slot),
    {
        self.timers.contains_key(&slot)
    }
}

/// There are finitely many active timers, each has a deadline left, and there are as many times
/// in the queue as there are active timers.
pub proof fn one_deadline_queued_per_timer(timers: Timers)
    requires
        timers.wf(),
    ensures
        forall|slot: Slot| #[trigger]
            timers@.contains_key(slot) ==> timers@[slot].schedule.len() > 0,
        timers@.dom().finite(),
        timers.queued() == timers@.len(),
{
    assert(timers@.dom() =~= timers.timers@.dom());
    assert forall|slot: Slot| #[trigger]
        timers@.contains_key(slot) implies timers@[slot].schedule.len() > 0 by {
        assert(timers.timers@.contains_key(slot));
    }
}

/// New timers have no slot set and nothing to wait for, have counted nothing, and start from the
/// timeout that they are given.
pub proof fn new_timers_wait_for_nothing(
    delta_timeout: Duration,
    timers: Timers,
    slot: Slot,
    set: bool,
    next: Option<Instant>,
    stats: TimerManagerStats,
)
    requires
        call_ensures(Timers::new, (delta_timeout,), timers),
        call_ensures(Timers::is_timeout_set, (&timers, slot), set),
        call_ensures(Timers::next_fire, (&timers,), next),
        call_ensures(Timers::stats, (&timers,), stats),
    ensures
        timers.wf(),
        timers.base_timeout()@ == delta_timeout@,
        !timers@.contains_key(slot),
        !set,
        next is None,
        stats.set_timeout_count == 0 && stats.set_timeout_succeed_count == 0 && stats.max_heap_size
            == 0,
{
}

/// A slot counts as set exactly if it has an active timer.
pub proof fn set_slots_have_active_timers(timers: &Timers, slot: Slot, set: bool)
    requires
        call_ensures(Timers::is_timeout_set, (timers, slot), set),
    ensures
        set <==> timers@.contains_key(slot),
{
}

/// A slot that has no active timer gets one when timeouts are set for it, and a slot that has one
/// keeps it as it is. The new timer declares the leader crashed once the scaled timeout and the
/// time for a first slice have passed, and the block of each slot up to the end of the window
/// missing once the scaled timeout and one slot time for each slot so far have passed. The scaled
/// timeout is the product of the base timeout and `1.05^n`, up to one hour, where `n` counts the
/// groups of four slots since the standstill, and the base timeout where `n` is zero. The timers
/// of all other slots keep what they have.
pub proof fn setting_timeouts_arms_the_window<F: Fn(Duration, i32) -> Option<Duration>>(
    timers: &mut Timers,
    slot: Slot,
    now: Instant,
    standstill_slot: Option<Slot>,
    delta_first_slice: Duration,
    delta_block: Duration,
    product: F,
)
    requires
        call_ensures(
            Timers::set_timeouts::<F>,
            (timers, slot, now, standstill_slot, delta_first_slice, delta_block, product),
            (),
        ),
    ensures
        final(timers).base_timeout() == old(timers).base_timeout(),
        forall|other: Slot|
            other != slot ==> (#[trigger] final(timers)@.contains_key(other)
                <==> old(timers)@.contains_key(other)),
        forall|other: Slot|
            old(timers)@.contains_key(other) ==> #[trigger] final(timers)@[other]
                == old(timers)@[other],
        final(timers)@.contains_key(slot),
        !old(timers)@.contains_key(slot) ==> {
            let timer = final(timers)@[slot];
            let base = old(timers).base_timeout();
            let scaled = timer.schedule[0].0 - now@ - delta_first_slice@;
            &&& timer.delta_block == delta_block@
            &&& timer.schedule.len() == 5 - slot % 4
            &&& timer.schedule[0].1 == VotorEvent::TimeoutCrashedLeader(slot)
            &&& forall|i: int|
                1 <= i <= 4 - slot % 4 ==> (#[trigger] timer.schedule[i]).0 == now@ + scaled + i
                    * delta_block@ && (timer.schedule[i].1 matches VotorEvent::Timeout(s) && s
                    == slot + i - 1)
            &&& 0 <= scaled <= 3_600_000_000_000
            &&& standstill_slot is None || slot - standstill_slot->0 < 4 ==> scaled == (if base@
                < 3_600_000_000_000 {
                base@ as int
            } else {
                3_600_000_000_000
            })
            &&& standstill_slot is Some && slot - standstill_slot->0 >= 4 * 0x8000_0000 ==> scaled
                == 3_600_000_000_000
            &&& standstill_slot is Some && 4 <= slot - standstill_slot->0 < 4 * 0x8000_0000
                ==> exists|result: Option<Duration>|
                {
                    &&& #[trigger] call_ensures(
                        product,
                        (base, ((slot - standstill_slot->0) / 4) as i32),
                        result,
                    )
                    &&& result is None ==> scaled == 3_600_000_000_000
                    &&& result is Some && result->0@ >= 3_600_000_000_000 ==> scaled
                        == 3_600_000_000_000
                    &&& result is Some && result->0@ < 3_600_000_000_000 ==> scaled == result->0@
                }
        },
{
    let base = timers.base_timeout();
    let scaled = choose|scaled: Duration|
        {
            &&& #[trigger] crate::common::timeout_scales_to(
                product,
                base,
                slot,
                standstill_slot,
                scaled,
            )
            &&& final(timers)@ == crate::timer_manager::draining::with_timer(
                timers@,
                slot,
                crate::timer_manager::timer_state::initial_timer(
                    slot,
                    scaled,
                    delta_first_slice,
                    delta_block,
                    now,
                ),
            )
        };
    crate::common::timeout_is_the_capped_product(product, base, slot, standstill_slot, scaled);
    if !timers@.contains_key(slot) {
        let timer = final(timers)@[slot];
        assert(timer.schedule[0].0 - now@ - delta_first_slice@ == scaled@);
        assert forall|i: int| 1 <= i <= 4 - slot % 4 implies {
            &&& (#[trigger] timer.schedule[i]).0 == now@ + scaled@ + i * delta_block@
            &&& timer.schedule[i].1 matches VotorEvent::Timeout(s) && s == slot + i - 1
        } by {
            crate::timer_manager::timer_state::deadlines_of_a_new_timer(
                slot,
                scaled,
                delta_first_slice,
                delta_block,
                now,
                i - 1,
            );
        }
    }
}

/// Each call that sets timeouts is counted, once more if the slot had no active timer, up to the
/// largest count there is, and the highest number of active timers is kept. Timeouts may be set
/// wherever the product may be asked for and one hour and a first slice later is a point in time,
/// and without elapsed windows wherever the base timeout and a first slice later is one.
pub proof fn set_timeouts_are_counted<F: Fn(Duration, i32) -> Option<Duration>>(
    timers: &mut Timers,
    slot: Slot,
    now: Instant,
    standstill_slot: Option<Slot>,
    delta_first_slice: Duration,
    delta_block: Duration,
    product: F,
    before: TimerManagerStats,
    after: TimerManagerStats,
    was_set: bool,
    is_set: bool,
)
    requires
        call_ensures(Timers::stats, (&*timers,), before),
        call_ensures(Timers::is_timeout_set, (&*timers, slot), was_set),
        call_ensures(
            Timers::set_timeouts::<F>,
            (timers, slot, now, standstill_slot, delta_first_slice, delta_block, product),
            (),
        ),
        call_ensures(Timers::stats, (&*final(timers),), after),
        call_ensures(Timers::is_timeout_set, (&*final(timers), slot), is_set),
    ensures
        is_set,
        before.set_timeout_count < u64::MAX ==> after.set_timeout_count == before.set_timeout_count
            + 1,
        before.set_timeout_count == u64::MAX ==> after.set_timeout_count == u64::MAX,
        !was_set && before.set_timeout_succeed_count < u64::MAX ==> after.set_timeout_succeed_count
            == before.set_timeout_succeed_count + 1,
        was_set || before.set_timeout_succeed_count == u64::MAX ==> after.set_timeout_succeed_count
            == before.set_timeout_succeed_count,
        final(timers)@.len() <= usize::MAX ==> {
            &&& after.max_heap_size >= final(timers)@.len()
            &&& after.max_heap_size >= before.max_heap_size
            &&& after.max_heap_size == final(timers)@.len() || after.max_heap_size
                == before.max_heap_size
        },
        old(timers).wf() && now@ + 3_600_000_000_000 + delta_first_slice@
            <= u64::MAX * 1_000_000_000 + 999_999_999 && (standstill_slot is Some && 4 <= slot
            - standstill_slot->0 < 4 * 0x8000_0000 ==> call_requires(
            product,
            (old(timers).base_timeout(), ((slot - standstill_slot->0) / 4) as i32),
        )) ==> call_requires(
            Timers::set_timeouts::<F>,
            (timers, slot, now, standstill_slot, delta_first_slice, delta_block, product),
        ),
        old(timers).wf() && (standstill_slot is None || slot - standstill_slot->0 < 4) && now@
            + old(timers).base_timeout()@ + delta_first_slice@ <= u64::MAX * 1_000_000_000
            + 999_999_999 ==> call_requires(
            Timers::set_timeouts::<F>,
            (timers, slot, now, standstill_slot, delta_first_slice, delta_block, product),
        ),
{
    assert forall|scaled: Duration| #[trigger]
        crate::common::timeout_scales_to(
            product,
            timers.base_timeout(),
            slot,
            standstill_slot,
            scaled,
        ) implies scaled@ <= 3_600_000_000_000 && (standstill_slot is None || slot
        - standstill_slot->0 < 4 ==> scaled@ <= timers.base_timeout()@) by {
        crate::common::timeout_is_the_capped_product(
            product,
            timers.base_timeout(),
            slot,
            standstill_slot,
            scaled,
        );
    }
}

/// The earliest deadline that is next on a schedule is the one to wait for, and there is none
/// exactly if no timer is active. Also returns the slot of its timer.
pub proof fn earliest_deadline_is_waited_for(
    timers: &Timers,
    next: Option<Instant>,
) -> (slot: Slot)
    requires
        timers.wf(),
        call_ensures(Timers::next_fire, (timers,), next),
    ensures
        next is None ==> forall|other: Slot| !#[trigger] timers@.contains_key(other),
        next matches Some(fire) ==> {
            &&& timers@.contains_key(slot)
            &&& timers@[slot].schedule.len() > 0
            &&& timers@[slot].schedule[0].0 == fire@
            &&& forall|other: Slot| #[trigger]
                timers@.contains_key(other) ==> timers@[other].schedule.len() > 0 && fire@
                    <= timers@[other].schedule[0].0
        },
{
    one_deadline_queued_per_timer(*timers);
    if next is None {
        assert forall|other: Slot| !#[trigger] timers@.contains_key(other) by {
            assert(!timers@.dom().contains(other));
        }
    }
    crate::timer_manager::draining::earliest(timers@)
}

/// The timer with the earliest deadline fires once that has passed, and of those with one deadline
/// that of the lowest slot. It reports the event of that deadline and keeps all later ones, or is
/// no longer active if there are none. No other timer changes. If no deadline that is next has
/// passed, nothing is reported and nothing changes. Firing is possible but where one slot time
/// after a deadline that has passed, and is not the last of its timer, time has ended. Also
/// returns the slot of the timer that fires.
pub proof fn earliest_timer_fires(
    timers: &mut Timers,
    now: Instant,
    event: Option<VotorEvent>,
    can: bool,
) -> (slot: Slot)
    requires
        timers.wf(),
        call_ensures(Timers::can_fire, (&*timers, now), can),
        call_ensures(Timers::fire_next, (timers, now), event),
    ensures
        final(timers).wf(),
        final(timers).base_timeout() == old(timers).base_timeout(),
        final(timers).counters() == old(timers).counters(),
        event is None ==> {
            &&& final(timers)@ == old(timers)@
            &&& forall|other: Slot| #[trigger]
                old(timers)@.contains_key(other) ==> old(timers)@[other].schedule[0].0 > now@
        },
        event matches Some(reported) ==> {
            let timer = old(timers)@[slot];
            &&& old(timers)@.contains_key(slot)
            &&& timer.schedule[0].0 <= now@
            &&& timer.schedule[0].1 == reported
            &&& forall|other: Slot| #[trigger]
                old(timers)@.contains_key(other) ==> {
                    let fire = old(timers)@[other].schedule[0].0;
                    timer.schedule[0].0 < fire || timer.schedule[0].0 == fire && slot <= other
                }
            &&& final(timers)@.contains_key(slot) <==> timer.schedule.len() > 1
            &&& final(timers)@.contains_key(slot) ==> final(timers)@[slot].schedule
                == timer.schedule.skip(1) && final(timers)@[slot].delta_block == timer.delta_block
            &&& forall|other: Slot|
                other != slot ==> (#[trigger] final(timers)@.contains_key(other)
                    <==> old(timers)@.contains_key(other))
            &&& forall|other: Slot|
                other != slot && old(timers)@.contains_key(other)
                    ==> #[trigger] final(timers)@[other] == old(timers)@[other]
        },
        can ==> call_requires(Timers::fire_next, (timers, now)),
        (forall|other: Slot| #[trigger]
            old(timers)@.contains_key(other) ==> {
                let timer = old(timers)@[other];
                timer.schedule.len() > 1 && timer.schedule[0].0 <= now@ ==> timer.schedule[0].0
                    + timer.delta_block <= u64::MAX * 1_000_000_000 + 999_999_999
            }) ==> can,
        event is Some && old(timers)@[slot].schedule.len() > 1 && old(timers)@[slot].schedule[0].0
            + old(timers)@[slot].delta_block > u64::MAX * 1_000_000_000 + 999_999_999 ==> !can,
{
    one_deadline_queued_per_timer(*timers);
    let slot = crate::timer_manager::draining::earliest(timers@);
    if event is Some {
        let timer = timers@[slot];
        assert(timer.schedule.skip(1) =~= timer.schedule.drop_first());
    }
    slot
}

/// Making progress drains the timers, and then waits for the earliest deadline that is next on a
/// schedule, which has not passed. There is none exactly if no timer is active. Progress can be
/// made but where one slot time after a deadline that has passed, and is not the last of its
/// timer, time has ended.
pub proof fn progress_drains_and_waits(
    timers: &mut Timers,
    now: Instant,
    progress: (Vec<VotorEvent>, Option<Instant>),
)
    requires
        timers.wf(),
        call_ensures(Timers::progress, (timers, now), progress),
    ensures
        final(timers).wf(),
        final(timers).base_timeout() == old(timers).base_timeout(),
        final(timers).counters() == old(timers).counters(),
        crate::timer_manager::draining::drains(old(timers)@, now, progress.0@, final(timers)@),
        progress.1 is None ==> forall|other: Slot| !#[trigger] final(timers)@.contains_key(other),
        progress.1 matches Some(fire) ==> {
            &&& fire@ > now@
            &&& exists|slot: Slot| #[trigger]
                final(timers)@.contains_key(slot) && final(timers)@[slot].schedule[0].0 == fire@
            &&& forall|other: Slot| #[trigger]
                final(timers)@.contains_key(other) ==> fire@ <= final(timers)@[other].schedule[0].0
        },
        (forall|other: Slot, i: int|
            #![trigger old(timers)@[other].schedule[i]]
            old(timers)@.contains_key(other) && 0 <= i < old(timers)@[other].schedule.len() - 1
                && old(timers)@[other].schedule[i].0 <= now@ ==> old(timers)@[other].schedule[i].0
                + old(timers)@[other].delta_block <= u64::MAX * 1_000_000_000 + 999_999_999)
            ==> call_requires(Timers::progress, (timers, now)),
{
    one_deadline_queued_per_timer(*timers);
    one_deadline_queued_per_timer(*final(timers));
    let after = final(timers)@;
    if progress.1 is None {
        assert forall|other: Slot| !#[trigger] after.contains_key(other) by {
            assert(!after.dom().contains(other));
        }
    }
    if forall|other: Slot, i: int|
        #![trigger timers@[other].schedule[i]]
        timers@.contains_key(other) && 0 <= i < timers@[other].schedule.len() - 1
            && timers@[other].schedule[i].0 <= now@ ==> timers@[other].schedule[i].0
            + timers@[other].delta_block <= u64::MAX * 1_000_000_000 + 999_999_999 {
        assert forall|other: Slot| #[trigger]
            timers@.contains_key(other) implies timers@[other].can_run(now) by {
            let timer = timers@[other];
            assert forall|i: int|
                0 <= i < timer.schedule.len() - 1 && timer.due_through(i, now) implies (
            #[trigger] timer.schedule[i]).0 + timer.delta_block <= crate::time::MAX_NANOS by {
                assert(timers@[other].schedule[i].0 <= now@);
            }
        }
    }
    if progress.1 is Some {
        assert(after.contains_key(crate::timer_manager::draining::earliest(after)));
    }
}

} // verus!
