//! What holds of timers over all the calls that were made on them.

use crate::event::VotorEvent;
use crate::time::{Duration, Instant};
use crate::timer_manager::timer_state::TimerView;
use solana_clock::Slot;
use vstd::prelude::*;

verus! {

/// A call on timers that changes them.
pub enum Call {
    /// Timeouts were set for the window from `slot` on, with `delta_timeout` already scaled.
    SetTimeouts {
        slot: Slot,
        delta_timeout: Duration,
        delta_first_slice: Duration,
        delta_block: Duration,
        now: Instant,
    },
    /// The timers made progress at `now` and reported `events`.
    Progress { now: Instant, events: Seq<VotorEvent> },
}

/// The active timers after `calls`, of which the first is made on new timers.
pub open spec fn timers_after(calls: Seq<Call>) -> Map<Slot, TimerView>
    decreases calls.len(),
{
    if calls.len() == 0 {
        Map::empty()
    } else {
        let before = timers_after(calls.drop_last());
        match calls.last() {
            Call::SetTimeouts { slot, delta_timeout, delta_first_slice, delta_block, now } => {
                crate::timer_manager::draining::with_timer(
                    before,
                    slot,
                    crate::timer_manager::timer_state::initial_timer(
                        slot,
                        delta_timeout,
                        delta_first_slice,
                        delta_block,
                        now,
                    ),
                )
            },
            Call::Progress { events, .. } => crate::timer_manager::draining::after_firings(
                before,
                events.len(),
            ),
        }
    }
}

/// Whether `calls` can be made one after the other on new timers: those that make progress report
/// what the timers report then.
pub open spec fn can_happen(calls: Seq<Call>) -> bool
    decreases calls.len(),
{
    calls.len() > 0 ==> {
        &&& can_happen(calls.drop_last())
        &&& calls.last() matches Call::Progress { now, events }
            ==> crate::timer_manager::draining::drains(
            timers_after(calls.drop_last()),
            now,
            events,
            timers_after(calls),
        )
    }
}

/// Timers that are set or make progress after `calls` are those after one call more: a history
/// covers all that can be done with timers.
pub proof fn every_call_continues_the_history(
    calls: Seq<Call>,
    slot: Slot,
    delta_timeout: Duration,
    delta_first_slice: Duration,
    delta_block: Duration,
    now: Instant,
    events: Seq<VotorEvent>,
    after: Map<Slot, TimerView>,
)
    requires
        can_happen(calls),
    ensures
        ({
            let set = calls.push(
                Call::SetTimeouts { slot, delta_timeout, delta_first_slice, delta_block, now },
            );
            &&& can_happen(set)
            &&& timers_after(set) == crate::timer_manager::draining::with_timer(
                timers_after(calls),
                slot,
                crate::timer_manager::timer_state::initial_timer(
                    slot,
                    delta_timeout,
                    delta_first_slice,
                    delta_block,
                    now,
                ),
            )
        }),
        crate::timer_manager::draining::drains(timers_after(calls), now, events, after) ==> {
            let progressed = calls.push(Call::Progress { now, events });
            &&& can_happen(progressed)
            &&& timers_after(progressed) == after
        },
{
    let set = calls.push(
        Call::SetTimeouts { slot, delta_timeout, delta_first_slice, delta_block, now },
    );
    let progressed = calls.push(Call::Progress { now, events });
    assert(set.drop_last() =~= calls);
    assert(progressed.drop_last() =~= calls);
}

/// Whether no call gives a first slice more time than a block.
pub open spec fn first_slices_end_before_blocks(calls: Seq<Call>) -> bool {
    forall|i: int|
        0 <= i < calls.len() ==> (#[trigger] calls[i] matches Call::SetTimeouts {
            delta_first_slice,
            delta_block,
            ..
        } ==> delta_first_slice@ <= delta_block@)
}

/// The last event that a timer for the window from `slot` on reports: the timeout of the last slot
/// of the window.
pub open spec fn last_event(slot: Slot) -> VotorEvent {
    VotorEvent::Timeout(crate::leader_schedule::last_of_window(slot) as Slot)
}

/// Whether a timer for `slot` that has reported `reported`, if there was one, still has its last
/// event to report.
pub open spec fn is_waiting(slot: Slot, reported: Option<Seq<VotorEvent>>) -> bool {
    reported matches Some(events) && !events.contains(last_event(slot))
}

/// What the timer that was made last for `slot` has reported in the course of `calls`, or `None`
/// if none was made. A timer is made by a call that sets timeouts for `slot`, unless one that was
/// made before still has its last event to report.
pub open spec fn reported(calls: Seq<Call>, slot: Slot) -> Option<Seq<VotorEvent>>
    decreases calls.len(),
{
    if calls.len() == 0 {
        None
    } else {
        let before = calls.drop_last();
        match calls.last() {
            Call::SetTimeouts { slot: set, .. } => if set == slot && !is_waiting(
                slot,
                reported(before, slot),
            ) {
                Some(Seq::empty())
            } else {
                reported(before, slot)
            },
            Call::Progress { events, .. } => match reported(before, slot) {
                None => None,
                Some(earlier) => Some(
                    earlier + crate::timer_manager::draining::reported_by(
                        timers_after(before),
                        events,
                        events.len(),
                        slot,
                    ),
                ),
            },
        }
    }
}

/// All events that a timer for the window from `slot` on reports, in order.
pub open spec fn window_events(slot: Slot) -> Seq<VotorEvent> {
    seq![VotorEvent::TimeoutCrashedLeader(slot)]
        + crate::timer_manager::timer_state::rest_of_window(slot).map_values(
        |s: Slot| VotorEvent::Timeout(s),
    )
}

/// Of all events of a timer, only the one at the end is the last event.
proof fn last_event_comes_at_the_end(slot: Slot)
    ensures
        window_events(slot).last() == last_event(slot),
        forall|i: int|
            0 <= i < window_events(slot).len() - 1 ==> #[trigger] window_events(slot)[i]
                != last_event(slot),
{
}

/// A new timer has all events of its window to report.
proof fn new_timer_has_all_events(
    before: Map<Slot, TimerView>,
    slot: Slot,
    delta_timeout: Duration,
    delta_first_slice: Duration,
    delta_block: Duration,
    now: Instant,
)
    requires
        !before.contains_key(slot),
    ensures
        ({
            let timer = crate::timer_manager::timer_state::initial_timer(
                slot,
                delta_timeout,
                delta_first_slice,
                delta_block,
                now,
            );
            crate::timer_manager::draining::events_left(before.insert(slot, timer), slot)
                == window_events(slot)
        }),
{
    let timer = crate::timer_manager::timer_state::initial_timer(
        slot,
        delta_timeout,
        delta_first_slice,
        delta_block,
        now,
    );
    assert(crate::timer_manager::draining::events_left(before.insert(slot, timer), slot)
        =~= window_events(slot));
}

/// Every active timer has a deadline left, after any calls.
pub proof fn active_timers_have_deadlines(calls: Seq<Call>, slot: Slot)
    requires
        can_happen(calls),
        timers_after(calls).contains_key(slot),
    ensures
        timers_after(calls)[slot].schedule.len() > 0,
    decreases calls.len(),
{
    let earlier = calls.drop_last();
    let before = timers_after(earlier);
    if before.contains_key(slot) {
        active_timers_have_deadlines(earlier, slot);
    }
    if let Call::Progress { now, events } = calls.last() {
        assert forall|s: Slot| #[trigger] before.contains_key(s) implies before[s].schedule.len()
            > 0 by {
            active_timers_have_deadlines(earlier, s);
        }
        crate::timer_manager::draining::draining_settles_each_timer(
            before,
            now,
            events,
            timers_after(calls),
            slot,
        );
    }
}

/// What the timer of a slot has reported, and what it has still to report, make up all events of
/// its window, in order.
pub proof fn each_timer_reports_its_window(calls: Seq<Call>, slot: Slot)
    requires
        can_happen(calls),
    ensures
        reported(calls, slot) matches Some(events) ==> events
            + crate::timer_manager::draining::events_left(timers_after(calls), slot)
            == window_events(slot),
        reported(calls, slot) is None ==> !timers_after(calls).contains_key(slot),
        timers_after(calls).contains_key(slot) <==> is_waiting(slot, reported(calls, slot)),
    decreases calls.len(),
{
    let after = timers_after(calls);
    if calls.len() > 0 {
        let earlier = calls.drop_last();
        let before = timers_after(earlier);
        each_timer_reports_its_window(earlier, slot);
        match calls.last() {
            Call::SetTimeouts { slot: set, delta_timeout, delta_first_slice, delta_block, now } => {
                if set == slot && !before.contains_key(slot) {
                    new_timer_has_all_events(
                        before,
                        slot,
                        delta_timeout,
                        delta_first_slice,
                        delta_block,
                        now,
                    );
                    assert(Seq::<VotorEvent>::empty() + window_events(slot) =~= window_events(
                        slot,
                    ));
                } else {
                    assert(crate::timer_manager::draining::events_left(after, slot)
                        == crate::timer_manager::draining::events_left(before, slot));
                }
            },
            Call::Progress { now, events } => {
                assert forall|s: Slot| #[trigger]
                    before.contains_key(s) implies before[s].schedule.len() > 0 by {
                    active_timers_have_deadlines(earlier, s);
                }
                crate::timer_manager::draining::draining_settles_each_timer(
                    before,
                    now,
                    events,
                    after,
                    slot,
                );
                crate::timer_manager::draining::each_timer_reports_its_schedule(
                    before,
                    now,
                    events,
                    after,
                    slot,
                );
                if let Some(sent) = reported(earlier, slot) {
                    let now_sent = crate::timer_manager::draining::reported_by(
                        before,
                        events,
                        events.len(),
                        slot,
                    );
                    let left = crate::timer_manager::draining::events_left(after, slot);
                    assert((sent + now_sent) + left =~= sent + (now_sent + left));
                }
            },
        }
    }
    if let Some(events) = reported(calls, slot) {
        let left = crate::timer_manager::draining::events_left(after, slot);
        last_event_comes_at_the_end(slot);
        if after.contains_key(slot) {
            active_timers_have_deadlines(calls, slot);
            assert forall|i: int| 0 <= i < events.len() implies #[trigger] events[i] != last_event(
                slot,
            ) by {
                assert((events + left)[i] == events[i]);
            }
        } else {
            assert(left.len() == 0);
            assert(events =~= window_events(slot));
            assert(events[events.len() - 1] == last_event(slot));
        }
    }
}

/// A slot counts as set exactly if timeouts were set for it and its timer has not yet reported its
/// last event, the timeout of the last slot of the window. What is set for other slots of the
/// window does not count.
pub proof fn slot_is_set_until_its_last_event(calls: Seq<Call>, slot: Slot)
    requires
        can_happen(calls),
    ensures
        timers_after(calls).contains_key(slot) <==> is_waiting(slot, reported(calls, slot)),
        reported(calls, slot) is Some <==> exists|i: int|
            0 <= i < calls.len() && (#[trigger] calls[i] matches Call::SetTimeouts {
                slot: set,
                ..
            } && set == slot),
    decreases calls.len(),
{
    each_timer_reports_its_window(calls, slot);
    if calls.len() > 0 {
        let earlier = calls.drop_last();
        let last = calls.len() - 1;
        slot_is_set_until_its_last_event(earlier, slot);
        assert(calls[last] == calls.last());
        assert forall|i: int| 0 <= i < last implies #[trigger] earlier[i] == calls[i] by {}
        if reported(earlier, slot) is Some {
            let i = choose|i: int|
                0 <= i < earlier.len() && (#[trigger] earlier[i] matches Call::SetTimeouts {
                    slot: set,
                    ..
                } && set == slot);
            assert(calls[i] == earlier[i]);
        } else if reported(calls, slot) is None {
            assert forall|i: int| 0 <= i < calls.len() implies !(
            #[trigger] calls[i] matches Call::SetTimeouts { slot: set, .. } && set == slot) by {
                if i < last {
                    assert(earlier[i] == calls[i]);
                }
            }
        }
    }
}

/// Where no first slice is given more time than a block, the deadlines of all active timers are
/// in order, after any calls.
pub proof fn active_timers_are_in_order(calls: Seq<Call>)
    requires
        can_happen(calls),
        first_slices_end_before_blocks(calls),
    ensures
        crate::timer_manager::draining::all_in_order(timers_after(calls)),
    decreases calls.len(),
{
    if calls.len() > 0 {
        let earlier = calls.drop_last();
        let before = timers_after(earlier);
        assert forall|i: int| 0 <= i < earlier.len() implies #[trigger] earlier[i] == calls[i] by {}
        active_timers_are_in_order(earlier);
        match calls.last() {
            Call::SetTimeouts { slot, delta_timeout, delta_first_slice, delta_block, now } => {
                assert(calls[calls.len() - 1] == calls.last());
                crate::timer_manager::timer_state::new_timer_is_in_order(
                    slot,
                    delta_timeout,
                    delta_first_slice,
                    delta_block,
                    now,
                );
            },
            Call::Progress { now, events } => {
                crate::timer_manager::draining::draining_keeps_order(
                    before,
                    now,
                    events,
                    timers_after(calls),
                );
            },
        }
    }
}

/// Where no first slice is given more time than a block, making progress reports the events of
/// exactly the deadlines that the active timers still have and that have passed, each once, in the
/// order of the deadlines, and those with one deadline in the order of the slots that the timers
/// were set for.
pub proof fn progress_reports_what_is_due_in_order(
    calls: Seq<Call>,
    now: Instant,
    events: Seq<VotorEvent>,
    after: Map<Slot, TimerView>,
)
    requires
        can_happen(calls),
        first_slices_end_before_blocks(calls),
        crate::timer_manager::draining::drains(timers_after(calls), now, events, after),
    ensures
        crate::timer_manager::draining::reports_what_is_due(timers_after(calls), now, events),
        crate::timer_manager::draining::fires_in_order(timers_after(calls), events.len()),
{
    let before = timers_after(calls);
    active_timers_are_in_order(calls);
    crate::timer_manager::draining::exactly_what_is_due_is_reported(before, now, events, after);
    crate::timer_manager::draining::events_come_in_order(before, now, events, after);
}

} // verus!
