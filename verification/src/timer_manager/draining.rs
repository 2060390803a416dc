//! What timers report and what is left of them when they make progress.

use crate::event::VotorEvent;
use crate::time::Instant;
use crate::timer_manager::timer_state::TimerView;
use solana_clock::Slot;
use vstd::prelude::*;

verus! {

/// Whether the timer of `slot` is the one that fires next. Of timers with one deadline, that
/// of the lowest slot does.
pub open spec fn is_earliest(timers: Map<Slot, TimerView>, slot: Slot) -> bool {
    &&& timers.contains_key(slot)
    &&& forall|other: Slot| #[trigger]
        timers.contains_key(other) ==> {
            let fire = timers[slot].schedule[0].0;
            let other_fire = timers[other].schedule[0].0;
            fire < other_fire || fire == other_fire && slot <= other
        }
}

/// The slot whose timer fires next.
pub open spec fn earliest(timers: Map<Slot, TimerView>) -> Slot {
    choose|slot: Slot| is_earliest(timers, slot)
}

/// The timers once `timer` has been set for `slot`. A slot that already has a timer keeps it.
pub open spec fn with_timer(
    timers: Map<Slot, TimerView>,
    slot: Slot,
    timer: TimerView,
) -> Map<Slot, TimerView> {
    if timers.contains_key(slot) {
        timers
    } else {
        timers.insert(slot, timer)
    }
}

/// The timers once the next one has fired. One without deadlines left is no longer active.
pub open spec fn after_firing(timers: Map<Slot, TimerView>) -> Map<Slot, TimerView> {
    let slot = earliest(timers);
    let timer = timers[slot].advanced();
    if timer.schedule.len() == 0 {
        timers.remove(slot)
    } else {
        timers.insert(slot, timer)
    }
}

/// The timers once the next one has fired `count` times in a row.
pub open spec fn after_firings(timers: Map<Slot, TimerView>, count: nat) -> Map<Slot, TimerView>
    decreases count,
{
    if count == 0 {
        timers
    } else {
        after_firing(after_firings(timers, (count - 1) as nat))
    }
}

/// Whether the timer that fires next is due at `now` and reports `event`.
pub open spec fn fires(timers: Map<Slot, TimerView>, now: Instant, event: VotorEvent) -> bool {
    let slot = earliest(timers);
    &&& is_earliest(timers, slot)
    &&& timers[slot].is_due(now)
    &&& timers[slot].schedule[0].1 == event
}

/// Whether the timer that fires next can do so at `now`.
pub open spec fn can_fire(timers: Map<Slot, TimerView>, now: Instant) -> bool {
    let slot = earliest(timers);
    is_earliest(timers, slot) ==> timers[slot].can_advance(now)
}

/// Whether `events` are what the timers `before` report at `now`, in the order in which they
/// fire, until none of those that are left, `after`, is due.
pub open spec fn drains(
    before: Map<Slot, TimerView>,
    now: Instant,
    events: Seq<VotorEvent>,
    after: Map<Slot, TimerView>,
) -> bool {
    &&& forall|k: int|
        0 <= k < events.len() ==> fires(
            after_firings(before, k as nat),
            now,
            #[trigger] events[k],
        )
    &&& after == after_firings(before, events.len())
    &&& forall|slot: Slot| #[trigger] after.contains_key(slot) ==> !after[slot].is_due(now)
}

/// The number of deadlines that the timers have left.
pub open spec fn deadlines_left(timers: Map<Slot, TimerView>) -> nat
    decreases timers.dom().len(),
    when timers.dom().finite()
{
    if timers.dom().len() == 0 {
        0
    } else {
        let slot = timers.dom().choose();
        timers[slot].schedule.len() + deadlines_left(timers.remove(slot))
    }
}

/// The deadlines that are left can be counted from any timer on.
proof fn deadlines_left_without(timers: Map<Slot, TimerView>, slot: Slot)
    requires
        timers.dom().finite(),
        timers.contains_key(slot),
    ensures
        deadlines_left(timers) == timers[slot].schedule.len() + deadlines_left(timers.remove(slot)),
    decreases timers.dom().len(),
{
    let chosen = timers.dom().choose();
    assert(timers.dom().contains(chosen));
    if chosen != slot {
        let without = timers.remove(chosen);
        deadlines_left_without(without, slot);
        deadlines_left_without(timers.remove(slot), chosen);
        assert(without.remove(slot) =~= timers.remove(slot).remove(chosen));
    }
}

/// Firing a timer uses up one deadline.
pub(crate) proof fn firing_uses_up_a_deadline(timers: Map<Slot, TimerView>, slot: Slot)
    requires
        timers.dom().finite(),
        timers.contains_key(slot),
        slot == earliest(timers),
        timers[slot].schedule.len() > 0,
    ensures
        deadlines_left(after_firing(timers)) == deadlines_left(timers) - 1,
{
    deadlines_left_without(timers, slot);
    let after = after_firing(timers);
    if after.contains_key(slot) {
        deadlines_left_without(after, slot);
        assert(after.remove(slot) =~= timers.remove(slot));
    }
}

/// The events that are reported at a point in time, and the timers that are left, are determined
/// by the timers that there were.
pub proof fn draining_is_deterministic(
    before: Map<Slot, TimerView>,
    now: Instant,
    events: Seq<VotorEvent>,
    after: Map<Slot, TimerView>,
    other_events: Seq<VotorEvent>,
    other_after: Map<Slot, TimerView>,
)
    requires
        drains(before, now, events, after),
        drains(before, now, other_events, other_after),
    ensures
        events == other_events,
        after == other_after,
{
    if events.len() < other_events.len() {
        assert(fires(after, now, other_events[events.len() as int]));
        assert(after.contains_key(earliest(after)));
    }
    if other_events.len() < events.len() {
        assert(fires(other_after, now, events[other_events.len() as int]));
        assert(other_after.contains_key(earliest(other_after)));
    }
    assert forall|k: int| 0 <= k < events.len() implies events[k] == other_events[k] by {
        let timers = after_firings(before, k as nat);
        assert(fires(timers, now, events[k]));
        assert(fires(timers, now, other_events[k]));
    }
    assert(events =~= other_events);
}

/// Making progress again at the same point in time reports nothing and changes nothing.
pub proof fn draining_again_does_nothing(
    before: Map<Slot, TimerView>,
    now: Instant,
    events: Seq<VotorEvent>,
    after: Map<Slot, TimerView>,
    events_again: Seq<VotorEvent>,
    after_again: Map<Slot, TimerView>,
)
    requires
        drains(before, now, events, after),
        drains(after, now, events_again, after_again),
    ensures
        events_again.len() == 0,
        after_again == after,
{
    if events_again.len() > 0 {
        assert(fires(after_firings(after, 0), now, events_again[0]));
        assert(after.contains_key(earliest(after)));
    }
}

/// What the timer of `slot` still has to do, nothing if it is not active.
pub open spec fn timer_of(timers: Map<Slot, TimerView>, slot: Slot) -> TimerView {
    if timers.contains_key(slot) {
        timers[slot]
    } else {
        crate::timer_manager::timer_state::finished()
    }
}

/// Firing what is due changes nothing about what each timer will be once all of it has fired.
proof fn firings_keep_what_settles(
    before: Map<Slot, TimerView>,
    now: Instant,
    events: Seq<VotorEvent>,
    count: nat,
)
    requires
        count <= events.len(),
        forall|slot: Slot| #[trigger] before.contains_key(slot) ==> before[slot].schedule.len() > 0,
        forall|k: int|
            0 <= k < events.len() ==> fires(
                after_firings(before, k as nat),
                now,
                #[trigger] events[k],
            ),
    ensures
        forall|slot: Slot| #[trigger]
            after_firings(before, count).contains_key(slot) ==> after_firings(
                before,
                count,
            )[slot].schedule.len() > 0,
        forall|slot: Slot|
            (#[trigger] timer_of(after_firings(before, count), slot)).settled(now) == timer_of(
                before,
                slot,
            ).settled(now),
    decreases count,
{
    if count > 0 {
        let last = (count - 1) as nat;
        firings_keep_what_settles(before, now, events, last);
        let timers = after_firings(before, last);
        assert(fires(timers, now, events[last as int]));
        let after = after_firings(before, count);
        assert(after == after_firing(timers));
        let fired = earliest(timers);
        assert(timers.contains_key(fired));
        assert forall|slot: Slot| #[trigger]
            after.contains_key(slot) implies after[slot].schedule.len() > 0 by {
            assert(timers.contains_key(slot));
        }
        assert forall|slot: Slot|
            (#[trigger] timer_of(after, slot)).settled(now) == timer_of(before, slot).settled(
                now,
            ) by {
            assert(timer_of(timers, slot).settled(now) == timer_of(before, slot).settled(now));
            if slot == fired {
                assert(timer_of(after, slot).schedule =~= timers[slot].advanced().schedule);
                assert(timer_of(after, slot) =~= timers[slot].advanced());
            }
        }
    }
}

/// Making progress leaves each timer as it would be left alone: rid of the deadlines that have
/// passed, and inactive if there are no others.
pub proof fn draining_settles_each_timer(
    before: Map<Slot, TimerView>,
    now: Instant,
    events: Seq<VotorEvent>,
    after: Map<Slot, TimerView>,
    slot: Slot,
)
    requires
        forall|s: Slot| #[trigger] before.contains_key(s) ==> before[s].schedule.len() > 0,
        drains(before, now, events, after),
    ensures
        after.contains_key(slot) <==> before.contains_key(slot) && before[slot].settled(
            now,
        ).schedule.len() > 0,
        after.contains_key(slot) ==> after[slot] == before[slot].settled(now),
{
    firings_keep_what_settles(before, now, events, events.len());
    assert(timer_of(after, slot).settled(now) == timer_of(before, slot).settled(now));
    assert(!timer_of(after, slot).is_due(now));
}

/// How many of the first `count` firings are those of the timer of `slot`.
pub open spec fn firings_of(timers: Map<Slot, TimerView>, count: nat, slot: Slot) -> nat
    decreases count,
{
    if count == 0 {
        0
    } else {
        let before = (count - 1) as nat;
        firings_of(timers, before, slot) + if earliest(after_firings(timers, before)) == slot {
            1nat
        } else {
            0
        }
    }
}

/// What a timer has left is its schedule without as many deadlines as it has fired.
proof fn firings_use_up_schedules(
    before: Map<Slot, TimerView>,
    now: Instant,
    events: Seq<VotorEvent>,
    count: nat,
    slot: Slot,
)
    requires
        count <= events.len(),
        forall|s: Slot| #[trigger] before.contains_key(s) ==> before[s].schedule.len() > 0,
        forall|k: int|
            0 <= k < events.len() ==> fires(
                after_firings(before, k as nat),
                now,
                #[trigger] events[k],
            ),
    ensures
        firings_of(before, count, slot) <= timer_of(before, slot).schedule.len(),
        timer_of(after_firings(before, count), slot).schedule == timer_of(
            before,
            slot,
        ).schedule.skip(firings_of(before, count, slot) as int),
    decreases count,
{
    let whole = timer_of(before, slot).schedule;
    if count == 0 {
        assert(whole.skip(0) =~= whole);
    } else {
        let last = (count - 1) as nat;
        firings_use_up_schedules(before, now, events, last, slot);
        let timers = after_firings(before, last);
        assert(fires(timers, now, events[last as int]));
        let fired = firings_of(before, last, slot) as int;
        if slot == earliest(timers) {
            assert(whole.skip(fired).drop_first() =~= whole.skip(fired + 1));
            assert(timer_of(after_firing(timers), slot).schedule =~= whole.skip(fired + 1));
        }
    }
}

/// The `k`-th firing: the slot of the timer that fires, and which of the deadlines that the timer
/// had at first it is.
pub open spec fn firing(timers: Map<Slot, TimerView>, k: nat) -> (Slot, nat) {
    let slot = earliest(after_firings(timers, k));
    (slot, firings_of(timers, k, slot))
}

/// Whether there is a timer for the slot `at.0` that has a deadline at the index `at.1`.
pub open spec fn has_deadline(timers: Map<Slot, TimerView>, at: (Slot, nat)) -> bool {
    timers.contains_key(at.0) && at.1 < timers[at.0].schedule.len()
}

/// The deadline at the index `at.1` of the timer for the slot `at.0`, with its event.
pub open spec fn deadline(timers: Map<Slot, TimerView>, at: (Slot, nat)) -> (int, VotorEvent) {
    timers[at.0].schedule[at.1 as int]
}

/// Each timer reports the events of its schedule in order, from the first on, and none before its
/// deadline: the event that is reported at `k` is the next one of the timer that fires then.
pub proof fn events_follow_the_schedules(
    before: Map<Slot, TimerView>,
    now: Instant,
    events: Seq<VotorEvent>,
    after: Map<Slot, TimerView>,
    k: nat,
)
    requires
        forall|s: Slot| #[trigger] before.contains_key(s) ==> before[s].schedule.len() > 0,
        drains(before, now, events, after),
        k < events.len(),
    ensures
        has_deadline(before, firing(before, k)),
        deadline(before, firing(before, k)).0 <= now@,
        deadline(before, firing(before, k)).1 == events[k as int],
        deadline(before, firing(before, k)) == after_firings(before, k)[firing(
            before,
            k,
        ).0].schedule[0],
{
    let timers = after_firings(before, k);
    let slot = earliest(timers);
    assert(fires(timers, now, events[k as int]));
    firings_use_up_schedules(before, now, events, k, slot);
    firings_use_up_schedules(before, now, events, k + 1, slot);
}

/// Whether `events` are those of exactly the deadlines of `timers` that have passed at `now`, each
/// reported once.
pub open spec fn reports_what_is_due(
    timers: Map<Slot, TimerView>,
    now: Instant,
    events: Seq<VotorEvent>,
) -> bool {
    &&& forall|k: nat|
        k < events.len() ==> {
            let at = #[trigger] firing(timers, k);
            &&& has_deadline(timers, at)
            &&& deadline(timers, at).0 <= now@
            &&& deadline(timers, at).1 == events[k as int]
        }
    &&& forall|j: nat, k: nat|
        j < k < events.len() ==> #[trigger] firing(timers, j) != #[trigger] firing(timers, k)
    &&& forall|at: (Slot, nat)| #[trigger]
        has_deadline(timers, at) && deadline(timers, at).0 <= now@ ==> exists|k: nat|
            k < events.len() && #[trigger] firing(timers, k) == at
}

/// Whether the first `count` firings come in the order of their deadlines, and those with one
/// deadline in the order of the slots that the timers were set for.
pub open spec fn fires_in_order(timers: Map<Slot, TimerView>, count: nat) -> bool {
    forall|j: nat, k: nat|
        j <= k < count ==> {
            let at = #[trigger] firing(timers, j);
            let later = #[trigger] firing(timers, k);
            ||| deadline(timers, at).0 < deadline(timers, later).0
            ||| deadline(timers, at).0 == deadline(timers, later).0 && at.0 <= later.0
        }
}

/// Whether each of the timers has a deadline left, and has its deadlines in order.
pub open spec fn all_in_order(timers: Map<Slot, TimerView>) -> bool {
    forall|slot: Slot| #[trigger]
        timers.contains_key(slot) ==> timers[slot].schedule.len() > 0 && timers[slot].in_order()
}

/// Later firings of a timer use up later deadlines of it.
proof fn firings_only_grow(timers: Map<Slot, TimerView>, count: nat, more: nat, slot: Slot)
    requires
        count <= more,
    ensures
        firings_of(timers, count, slot) <= firings_of(timers, more, slot),
    decreases more,
{
    if count < more {
        firings_only_grow(timers, count, (more - 1) as nat, slot);
    }
}

/// Each deadline of a timer that is used up is so by one of the firings.
proof fn firing_that_uses_up(
    timers: Map<Slot, TimerView>,
    count: nat,
    slot: Slot,
    index: nat,
) -> (k: nat)
    requires
        index < firings_of(timers, count, slot),
    ensures
        k < count,
        firing(timers, k) == (slot, index),
    decreases count,
{
    let last = (count - 1) as nat;
    if index < firings_of(timers, last, slot) {
        firing_that_uses_up(timers, last, slot, index)
    } else {
        last
    }
}

/// Timers whose deadlines are in order report the events of exactly the deadlines that have
/// passed, each once.
pub proof fn exactly_what_is_due_is_reported(
    before: Map<Slot, TimerView>,
    now: Instant,
    events: Seq<VotorEvent>,
    after: Map<Slot, TimerView>,
)
    requires
        all_in_order(before),
        drains(before, now, events, after),
    ensures
        reports_what_is_due(before, now, events),
{
    assert forall|k: nat| k < events.len() implies {
        let at = #[trigger] firing(before, k);
        &&& has_deadline(before, at)
        &&& deadline(before, at).0 <= now@
        &&& deadline(before, at).1 == events[k as int]
    } by {
        events_follow_the_schedules(before, now, events, after, k);
    }
    assert forall|j: nat, k: nat| j < k < events.len() implies #[trigger] firing(before, j)
        != #[trigger] firing(before, k) by {
        firings_only_grow(before, j + 1, k, firing(before, j).0);
    }
    assert forall|at: (Slot, nat)| #[trigger]
        has_deadline(before, at) && deadline(before, at).0 <= now@ implies exists|k: nat|
        k < events.len() && #[trigger] firing(before, k) == at by {
        let (slot, index) = at;
        let fired = firings_of(before, events.len(), slot);
        firings_use_up_schedules(before, now, events, events.len(), slot);
        if fired <= index {
            let schedule = before[slot].schedule;
            assert(schedule[fired as int].0 <= schedule[index as int].0);
            assert(timer_of(after, slot).schedule == schedule.skip(fired as int));
            assert(timer_of(after, slot).schedule.len() > 0);
            assert(timer_of(after, slot).is_due(now));
            assert(after.contains_key(slot));
        }
        let k = firing_that_uses_up(before, events.len(), slot, index);
        assert(firing(before, k) == at);
    }
}

/// Timers that are in order stay so while what is due fires.
proof fn firings_keep_order(
    before: Map<Slot, TimerView>,
    now: Instant,
    events: Seq<VotorEvent>,
    count: nat,
)
    requires
        all_in_order(before),
        count <= events.len(),
        forall|k: int|
            0 <= k < events.len() ==> fires(
                after_firings(before, k as nat),
                now,
                #[trigger] events[k],
            ),
    ensures
        all_in_order(after_firings(before, count)),
    decreases count,
{
    if count > 0 {
        let last = (count - 1) as nat;
        firings_keep_order(before, now, events, last);
        let timers = after_firings(before, last);
        assert(fires(timers, now, events[last as int]));
        let fired = earliest(timers);
        assert(timers.contains_key(fired));
        crate::timer_manager::timer_state::advancing_keeps_order(timers[fired]);
        assert forall|slot: Slot| #[trigger]
            after_firings(before, count).contains_key(slot) implies after_firings(
            before,
            count,
        )[slot].schedule.len() > 0 && after_firings(before, count)[slot].in_order() by {
            assert(timers.contains_key(slot));
        }
    }
}

/// Timers whose deadlines are in order are left so.
pub proof fn draining_keeps_order(
    before: Map<Slot, TimerView>,
    now: Instant,
    events: Seq<VotorEvent>,
    after: Map<Slot, TimerView>,
)
    requires
        all_in_order(before),
        drains(before, now, events, after),
    ensures
        all_in_order(after),
{
    firings_keep_order(before, now, events, events.len());
}

/// Of timers whose deadlines are in order, no firing comes before an earlier one.
proof fn firings_come_in_order(
    before: Map<Slot, TimerView>,
    now: Instant,
    events: Seq<VotorEvent>,
    after: Map<Slot, TimerView>,
    j: nat,
    k: nat,
)
    requires
        all_in_order(before),
        drains(before, now, events, after),
        j <= k < events.len(),
    ensures
        ({
            let at = firing(before, j);
            let later = firing(before, k);
            ||| deadline(before, at).0 < deadline(before, later).0
            ||| deadline(before, at).0 == deadline(before, later).0 && at.0 <= later.0
        }),
    decreases k - j,
{
    if j < k {
        let last = (k - 1) as nat;
        firings_come_in_order(before, now, events, after, j, last);
        firings_keep_order(before, now, events, last);
        events_follow_the_schedules(before, now, events, after, last);
        events_follow_the_schedules(before, now, events, after, k);
        let timers = after_firings(before, last);
        let next = after_firings(before, k);
        assert(fires(timers, now, events[last as int]));
        assert(fires(next, now, events[k as int]));
        let fired = earliest(timers);
        let slot = earliest(next);
        assert(next == after_firing(timers));
        assert(next.contains_key(slot));
        assert(timers.contains_key(slot));
        if slot == fired {
            assert(next[slot].schedule[0] == timers[slot].schedule[1]);
        }
    }
}

/// Timers whose deadlines are in order report their events in the order of the deadlines, and
/// those with one deadline in the order of the slots that the timers were set for.
pub proof fn events_come_in_order(
    before: Map<Slot, TimerView>,
    now: Instant,
    events: Seq<VotorEvent>,
    after: Map<Slot, TimerView>,
)
    requires
        all_in_order(before),
        drains(before, now, events, after),
    ensures
        fires_in_order(before, events.len()),
{
    assert forall|j: nat, k: nat| j <= k < events.len() implies {
        let at = #[trigger] firing(before, j);
        let later = #[trigger] firing(before, k);
        ||| deadline(before, at).0 < deadline(before, later).0
        ||| deadline(before, at).0 == deadline(before, later).0 && at.0 <= later.0
    } by {
        firings_come_in_order(before, now, events, after, j, k);
    }
}

/// The events that the timer of `slot` has still to report.
pub open spec fn events_left(timers: Map<Slot, TimerView>, slot: Slot) -> Seq<VotorEvent> {
    timer_of(timers, slot).schedule.map_values(|entry: (int, VotorEvent)| entry.1)
}

/// Those of the first `count` events that the timer of `slot` reports.
pub open spec fn reported_by(
    timers: Map<Slot, TimerView>,
    events: Seq<VotorEvent>,
    count: nat,
    slot: Slot,
) -> Seq<VotorEvent>
    decreases count,
{
    if count == 0 {
        Seq::empty()
    } else {
        let last = (count - 1) as nat;
        let others = reported_by(timers, events, last, slot);
        if earliest(after_firings(timers, last)) == slot {
            others.push(events[last as int])
        } else {
            others
        }
    }
}

/// A timer that has fired some times has reported as many events of its schedule.
proof fn firings_report_schedules(
    before: Map<Slot, TimerView>,
    now: Instant,
    events: Seq<VotorEvent>,
    after: Map<Slot, TimerView>,
    count: nat,
    slot: Slot,
)
    requires
        count <= events.len(),
        forall|s: Slot| #[trigger] before.contains_key(s) ==> before[s].schedule.len() > 0,
        drains(before, now, events, after),
    ensures
        firings_of(before, count, slot) <= events_left(before, slot).len(),
        reported_by(before, events, count, slot) == events_left(before, slot).take(
            firings_of(before, count, slot) as int,
        ),
    decreases count,
{
    firings_use_up_schedules(before, now, events, count, slot);
    let all = events_left(before, slot);
    if count == 0 {
        assert(all.take(0) =~= Seq::<VotorEvent>::empty());
    } else {
        let last = (count - 1) as nat;
        firings_report_schedules(before, now, events, after, last, slot);
        let fired = firings_of(before, last, slot) as int;
        if earliest(after_firings(before, last)) == slot {
            events_follow_the_schedules(before, now, events, after, last);
            assert(all.take(fired + 1) =~= all.take(fired).push(all[fired]));
        }
    }
}

/// What a timer reports and what it has still to report make up what it had to report: no event
/// is left out, none comes twice, and they come in the order of its schedule.
pub proof fn each_timer_reports_its_schedule(
    before: Map<Slot, TimerView>,
    now: Instant,
    events: Seq<VotorEvent>,
    after: Map<Slot, TimerView>,
    slot: Slot,
)
    requires
        forall|s: Slot| #[trigger] before.contains_key(s) ==> before[s].schedule.len() > 0,
        drains(before, now, events, after),
    ensures
        reported_by(before, events, events.len(), slot) + events_left(after, slot) == events_left(
            before,
            slot,
        ),
{
    let count = events.len();
    firings_use_up_schedules(before, now, events, count, slot);
    firings_report_schedules(before, now, events, after, count, slot);
    let all = events_left(before, slot);
    let fired = firings_of(before, count, slot) as int;
    assert(events_left(after, slot) =~= all.skip(fired));
    assert(all.take(fired) + all.skip(fired) =~= all);
}

/// As many events are reported as deadlines have been used up.
pub proof fn one_event_per_deadline(
    before: Map<Slot, TimerView>,
    now: Instant,
    events: Seq<VotorEvent>,
    after: Map<Slot, TimerView>,
)
    requires
        before.dom().finite(),
        drains(before, now, events, after),
    ensures
        after.dom().finite(),
        events.len() + deadlines_left(after) == deadlines_left(before),
{
    firings_use_up_deadlines(before, now, events, events.len());
}

/// Each firing uses up one of the deadlines that were left.
proof fn firings_use_up_deadlines(
    before: Map<Slot, TimerView>,
    now: Instant,
    events: Seq<VotorEvent>,
    count: nat,
)
    requires
        before.dom().finite(),
        count <= events.len(),
        forall|k: int|
            0 <= k < events.len() ==> fires(
                after_firings(before, k as nat),
                now,
                #[trigger] events[k],
            ),
    ensures
        after_firings(before, count).dom().finite(),
        count + deadlines_left(after_firings(before, count)) == deadlines_left(before),
    decreases count,
{
    if count > 0 {
        let last = (count - 1) as nat;
        firings_use_up_deadlines(before, now, events, last);
        let timers = after_firings(before, last);
        assert(fires(timers, now, events[last as int]));
        firing_uses_up_a_deadline(timers, earliest(timers));
    }
}

/// Firing some timers and then some more is firing as many as both together.
proof fn firings_add_up(timers: Map<Slot, TimerView>, count: nat, more: nat)
    ensures
        after_firings(after_firings(timers, count), more) == after_firings(timers, count + more),
    decreases more,
{
    if more > 0 {
        firings_add_up(timers, count, (more - 1) as nat);
    }
}

/// Timers that make progress in between are left as those that make all of it late, and report
/// the same events in the same order.
pub proof fn draining_in_two_steps(
    before: Map<Slot, TimerView>,
    now: Instant,
    events: Seq<VotorEvent>,
    between: Map<Slot, TimerView>,
    later: Instant,
    later_events: Seq<VotorEvent>,
    after: Map<Slot, TimerView>,
    late_events: Seq<VotorEvent>,
    late_after: Map<Slot, TimerView>,
)
    requires
        now@ <= later@,
        drains(before, now, events, between),
        drains(between, later, later_events, after),
        drains(before, later, late_events, late_after),
    ensures
        events + later_events == late_events,
        after == late_after,
{
    let all = events + later_events;
    assert forall|k: int| 0 <= k < all.len() implies fires(
        after_firings(before, k as nat),
        later,
        #[trigger] all[k],
    ) by {
        if k < events.len() {
            assert(fires(after_firings(before, k as nat), now, events[k]));
        } else {
            let more = (k - events.len()) as nat;
            firings_add_up(before, events.len(), more);
            assert(fires(after_firings(between, more), later, later_events[more as int]));
        }
    }
    firings_add_up(before, events.len(), later_events.len());
    assert(drains(before, later, all, after));
    draining_is_deterministic(before, later, all, after, late_events, late_after);
}

/// The deadlines that have been used up by the first `count` firings are, for each timer, as many
/// as it has fired, from the first on.
pub(crate) proof fn used_up_deadlines(
    timers: Map<Slot, TimerView>,
    count: nat,
    at: (Slot, nat),
)
    ensures
        (exists|k: nat| k < count && #[trigger] firing(timers, k) == at) <==> at.1 < firings_of(
            timers,
            count,
            at.0,
        ),
{
    if at.1 < firings_of(timers, count, at.0) {
        let k = firing_that_uses_up(timers, count, at.0, at.1);
        assert(firing(timers, k) == at);
    }
    if exists|k: nat| k < count && #[trigger] firing(timers, k) == at {
        let k = choose|k: nat| k < count && #[trigger] firing(timers, k) == at;
        firings_only_grow(timers, k + 1, count, at.0);
    }
}

/// Making progress in plain terms. Each event is that of a deadline which is returned for it, by
/// the slot of its timer and its place in the schedule, and which has passed. No deadline is used
/// twice, and each only once the one before it in its schedule was. Of the deadlines that could be
/// used next, the earliest always is, and of those with one time that of the lowest slot. None that
/// could be used next and has passed is left. The timers keep what is not used, and those that have
/// nothing left are no longer active.
pub proof fn draining_uses_what_is_due(
    before: Map<Slot, TimerView>,
    now: Instant,
    events: Seq<VotorEvent>,
    after: Map<Slot, TimerView>,
) -> (used: Seq<(Slot, nat)>)
    requires
        forall|s: Slot| #[trigger] before.contains_key(s) ==> before[s].schedule.len() > 0,
        drains(before, now, events, after),
    ensures
        used.len() == events.len(),
        used.no_duplicates(),
        forall|k: int|
            0 <= k < used.len() ==> {
                let (slot, index) = #[trigger] used[k];
                &&& before.contains_key(slot)
                &&& index < before[slot].schedule.len()
                &&& before[slot].schedule[index as int].0 <= now@
                &&& before[slot].schedule[index as int].1 == events[k]
                &&& index > 0 ==> used.take(k).contains((slot, (index - 1) as nat))
            },
        forall|k: int, slot: Slot, index: nat|
            #![trigger used[k], before[slot].schedule[index as int]]
            0 <= k < used.len() && before.contains_key(slot) && index < before[slot].schedule.len()
                && !used.take(k).contains((slot, index)) && (index == 0 || used.take(k).contains(
                (slot, (index - 1) as nat),
            )) ==> {
                let (next, place) = used[k];
                ||| before[next].schedule[place as int].0 < before[slot].schedule[index as int].0
                ||| before[next].schedule[place as int].0 == before[slot].schedule[index as int].0
                    && next <= slot
            },
        forall|slot: Slot, index: nat|
            #![trigger before[slot].schedule[index as int]]
            before.contains_key(slot) && index < before[slot].schedule.len() && !used.contains(
                (slot, index),
            ) && (index == 0 || used.contains((slot, (index - 1) as nat)))
                ==> before[slot].schedule[index as int].0 > now@,
        forall|slot: Slot| #[trigger]
            after.contains_key(slot) <==> before.contains_key(slot) && !used.contains(
                (slot, (before[slot].schedule.len() - 1) as nat),
            ),
        forall|slot: Slot, index: nat|
            #![trigger used.contains((slot, index))]
            after.contains_key(slot) && !used.contains((slot, index)) && (index == 0
                || used.contains((slot, (index - 1) as nat))) ==> after[slot].schedule
                == before[slot].schedule.skip(index as int) && after[slot].delta_block
                == before[slot].delta_block,
{
    let used = Seq::new(events.len(), |k: int| firing(before, k as nat));
    let count = events.len();
    assert forall|k: int, at: (Slot, nat)|
        0 <= k <= used.len() implies (#[trigger] used.take(k).contains(at) <==> at.1 < firings_of(
        before,
        k as nat,
        at.0,
    )) by {
        used_up_deadlines(before, k as nat, at);
        if used.take(k).contains(at) {
            let j = choose|j: int| 0 <= j < k && used.take(k)[j] == at;
            assert(firing(before, j as nat) == at);
        }
        if at.1 < firings_of(before, k as nat, at.0) {
            let j = choose|j: nat| j < k && #[trigger] firing(before, j) == at;
            assert(used.take(k)[j as int] == at);
        }
    }
    assert(used.take(used.len() as int) =~= used);
    assert forall|at: (Slot, nat)| #[trigger] used.contains(at) <==> at.1 < firings_of(
        before,
        count,
        at.0,
    ) by {
        assert(used.take(used.len() as int).contains(at) <==> at.1 < firings_of(
            before,
            count,
            at.0,
        ));
    }
    assert forall|j: int, k: int| 0 <= j < k < used.len() implies used[j] != used[k] by {
        firings_only_grow(before, (j + 1) as nat, k as nat, firing(before, j as nat).0);
    }
    assert(used.no_duplicates());
    assert forall|k: int| 0 <= k < used.len() implies {
        let (slot, index) = #[trigger] used[k];
        &&& before.contains_key(slot)
        &&& index < before[slot].schedule.len()
        &&& before[slot].schedule[index as int].0 <= now@
        &&& before[slot].schedule[index as int].1 == events[k]
        &&& index > 0 ==> used.take(k).contains((slot, (index - 1) as nat))
    } by {
        events_follow_the_schedules(before, now, events, after, k as nat);
    }
    assert forall|k: int, slot: Slot, index: nat|
        #![trigger used[k], before[slot].schedule[index as int]]
        0 <= k < used.len() && before.contains_key(slot) && index < before[slot].schedule.len()
            && !used.take(k).contains((slot, index)) && (index == 0 || used.take(k).contains(
            (slot, (index - 1) as nat),
        )) implies {
        let (next, place) = used[k];
        ||| before[next].schedule[place as int].0 < before[slot].schedule[index as int].0
        ||| before[next].schedule[place as int].0 == before[slot].schedule[index as int].0 && next
            <= slot
    } by {
        let timers = after_firings(before, k as nat);
        events_follow_the_schedules(before, now, events, after, k as nat);
        firings_use_up_schedules(before, now, events, k as nat, slot);
        assert(index == firings_of(before, k as nat, slot));
        assert(timer_of(timers, slot).schedule.len() > 0);
        assert(timers.contains_key(slot));
        assert(timers[slot].schedule[0] == before[slot].schedule[index as int]);
        assert(fires(timers, now, events[k]));
    }
    assert forall|slot: Slot, index: nat|
        #![trigger before[slot].schedule[index as int]]
        before.contains_key(slot) && index < before[slot].schedule.len() && !used.contains(
            (slot, index),
        ) && (index == 0 || used.contains(
            (slot, (index - 1) as nat),
        )) implies before[slot].schedule[index as int].0 > now@ by {
        firings_use_up_schedules(before, now, events, count, slot);
        assert(index == firings_of(before, count, slot));
        assert(timer_of(after, slot).schedule.len() > 0);
        assert(after.contains_key(slot));
        assert(after[slot].schedule[0] == before[slot].schedule[index as int]);
    }
    assert forall|slot: Slot| #[trigger]
        after.contains_key(slot) <==> before.contains_key(slot) && !used.contains(
            (slot, (before[slot].schedule.len() - 1) as nat),
        ) by {
        firings_use_up_schedules(before, now, events, count, slot);
        firings_keep_what_settles(before, now, events, count);
        draining_settles_each_timer(before, now, events, after, slot);
        if before.contains_key(slot) {
            assert(used.contains((slot, (before[slot].schedule.len() - 1) as nat))
                <==> before[slot].schedule.len() - 1 < firings_of(before, count, slot));
        }
        if after.contains_key(slot) {
            assert(timer_of(after, slot).schedule.len() > 0);
        }
    }
    assert forall|slot: Slot, index: nat|
        #![trigger used.contains((slot, index))]
        after.contains_key(slot) && !used.contains((slot, index)) && (index == 0 || used.contains(
            (slot, (index - 1) as nat),
        )) implies after[slot].schedule == before[slot].schedule.skip(index as int)
        && after[slot].delta_block == before[slot].delta_block by {
        firings_use_up_schedules(before, now, events, count, slot);
        draining_settles_each_timer(before, now, events, after, slot);
        assert(index == firings_of(before, count, slot));
        crate::timer_manager::timer_state::settled_timer_has_what_is_ahead(before[slot], now);
    }
    used
}

} // verus!
