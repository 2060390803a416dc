//! Counters of what a timer manager has done.

use vstd::prelude::*;

verus! {

/// Stats for the timer manager.
#[derive(Clone, Copy, Debug, PartialEq, Eq, Structural)]
pub struct TimerManagerStats {
    /// Calls that asked for a timer.
    pub set_timeout_count: u64,
    /// Calls that set a new timer.
    pub set_timeout_succeed_count: u64,
    /// The most timers that were active after such a call.
    pub max_heap_size: usize,
}

/// One more than `count`, up to the largest count there is.
pub open spec fn counted(count: u64) -> u64 {
    if count == u64::MAX {
        count
    } else {
        (count + 1) as u64
    }
}

impl TimerManagerStats {
    /// Counters that have counted nothing.
    pub fn new() -> (stats: TimerManagerStats)
        ensures
            stats == (TimerManagerStats {
                set_timeout_count: 0,
                set_timeout_succeed_count: 0,
                max_heap_size: 0,
            }),
    {
        TimerManagerStats { set_timeout_count: 0, set_timeout_succeed_count: 0, max_heap_size: 0 }
    }

    /// These counters after one more call, which left `heap_size` timers active.
    pub open spec fn after_call(
        self,
        heap_size: nat,
        new_timer_inserted: bool,
    ) -> TimerManagerStats {
        TimerManagerStats {
            set_timeout_count: counted(self.set_timeout_count),
            set_timeout_succeed_count: if new_timer_inserted {
                counted(self.set_timeout_succeed_count)
            } else {
                self.set_timeout_succeed_count
            },
            max_heap_size: if heap_size > self.max_heap_size {
                heap_size as usize
            } else {
                self.max_heap_size
            },
        }
    }

    /// Counts a call that asked for a timer.
    pub fn incr_timeout_count_with_heap_size(&mut self, heap_size: usize, new_timer_inserted: bool)
        ensures
            *final(self) == old(self).after_call(heap_size as nat, new_timer_inserted),
    {
        self.set_timeout_count = self.set_timeout_count.saturating_add(1);
        if new_timer_inserted {
            self.set_timeout_succeed_count = self.set_timeout_succeed_count.saturating_add(1);
        }
        if heap_size > self.max_heap_size {
            self.max_heap_size = heap_size;
        }
    }
}

/// Each call that asks for a timer is counted once, and once more where it set one, up to the
/// largest count there is. The highest number of active timers is kept.
pub proof fn calls_are_counted(
    stats: &mut TimerManagerStats,
    fresh: TimerManagerStats,
    heap_size: usize,
    new_timer_inserted: bool,
)
    requires
        call_ensures(TimerManagerStats::new, (), fresh),
        call_ensures(
            TimerManagerStats::incr_timeout_count_with_heap_size,
            (stats, heap_size, new_timer_inserted),
            (),
        ),
    ensures
        fresh.set_timeout_count == 0 && fresh.set_timeout_succeed_count == 0
            && fresh.max_heap_size == 0,
        old(stats).set_timeout_count < u64::MAX ==> final(stats).set_timeout_count
            == old(stats).set_timeout_count + 1,
        old(stats).set_timeout_count == u64::MAX ==> final(stats).set_timeout_count == u64::MAX,
        new_timer_inserted && old(stats).set_timeout_succeed_count < u64::MAX
            ==> final(stats).set_timeout_succeed_count == old(stats).set_timeout_succeed_count + 1,
        !new_timer_inserted || old(stats).set_timeout_succeed_count == u64::MAX
            ==> final(stats).set_timeout_succeed_count == old(stats).set_timeout_succeed_count,
        final(stats).max_heap_size >= heap_size,
        final(stats).max_heap_size >= old(stats).max_heap_size,
        final(stats).max_heap_size == heap_size || final(stats).max_heap_size
            == old(stats).max_heap_size,
{
}

} // verus!
