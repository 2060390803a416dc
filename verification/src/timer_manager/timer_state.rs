//! The state machine that the timer of a leader window runs.

use crate::common::scale_standstill_timeout;
use crate::event::VotorEvent;
use crate::leader_schedule::last_of_consecutive_leader_slots;
use crate::time::{Duration, Instant};
use solana_clock::Slot;
use std::collections::VecDeque;
use vstd::prelude::*;

verus! {

/// Encodes a basic state machine of the different stages involved in handling
/// timeouts for a window of slots.
pub enum TimerState {
    /// Waiting for the leader's first slice.
    WaitForFirstSlice {
        /// The slots in the window. Not empty.
        window: VecDeque<Slot>,
        /// Time when this stage will end.
        timeout: Instant,
        /// The maximum allowed time for producing the first slice.
        delta_first_slice: Duration,
        /// Protocol slot time, used in [`TimerState::WaitForBlock`].
        delta_block: Duration,
    },
    /// Waiting for the block of the first slot in the window.
    WaitForBlock {
        /// The slots in the window. Not empty.
        window: VecDeque<Slot>,
        /// Time when this stage will end.
        timeout: Instant,
        /// Protocol slot time.
        delta_block: Duration,
    },
    /// The state machine is done.
    Done,
}

/// What a timer still has to do: its deadlines in the order in which they fire, each with the
/// event that it reports, and the slot time by which the deadlines of blocks are spaced.
#[verifier::ext_equal]
pub struct TimerView {
    pub schedule: Seq<(int, VotorEvent)>,
    pub delta_block: nat,
}

/// The deadlines of the blocks of `window`, the first at `first` and one each `delta_block` after.
pub open spec fn block_schedule(window: Seq<Slot>, first: int, delta_block: nat) -> Seq<
    (int, VotorEvent),
> {
    Seq::new(
        window.len(),
        |i: int| (first + i * delta_block, VotorEvent::Timeout(window[i])),
    )
}

/// Without its first deadline, a schedule of blocks is that of the slots that are left, one
/// slot time later.
proof fn block_schedule_drop_first(window: Seq<Slot>, first: int, delta_block: nat)
    requires
        window.len() > 0,
    ensures
        block_schedule(window, first, delta_block).drop_first() == block_schedule(
            window.drop_first(),
            first + delta_block,
            delta_block,
        ),
{
    let rest = block_schedule(window.drop_first(), first + delta_block, delta_block);
    assert forall|i: int| 0 <= i < rest.len() implies #[trigger] rest[i] == block_schedule(
        window,
        first,
        delta_block,
    )[i + 1] by {
        assert((i + 1) * delta_block == delta_block + i * delta_block) by (nonlinear_arith);
    }
    assert(block_schedule(window, first, delta_block).drop_first() =~= rest);
}

impl View for TimerState {
    type V = TimerView;

    open spec fn view(&self) -> TimerView {
        match *self {
            TimerState::WaitForFirstSlice { window, timeout, delta_first_slice, delta_block } => {
                TimerView {
                    schedule: seq![(timeout@ as int, VotorEvent::TimeoutCrashedLeader(window@[0]))]
                        + block_schedule(
                        window@,
                        timeout@ + delta_block@ - delta_first_slice@,
                        delta_block@,
                    ),
                    delta_block: delta_block@,
                }
            },
            TimerState::WaitForBlock { window, timeout, delta_block } => TimerView {
                schedule: block_schedule(window@, timeout@ as int, delta_block@),
                delta_block: delta_block@,
            },
            TimerState::Done => finished(),
        }
    }
}

/// The slots from `slot` to the end of its leader window.
pub open spec fn rest_of_window(slot: Slot) -> Seq<Slot> {
    Seq::new(
        (crate::leader_schedule::window_slots() - slot as int
            % crate::leader_schedule::window_slots()) as nat,
        |i: int| (slot + i) as Slot,
    )
}

/// A timer for the window from `slot` on that was set at `now`, with `delta_timeout` already
/// scaled.
///
/// The leader has `delta_timeout + delta_first_slice` for the first slice, and
/// `delta_timeout + delta_block` for the first block.
pub open spec fn initial_timer(
    slot: Slot,
    delta_timeout: Duration,
    delta_first_slice: Duration,
    delta_block: Duration,
    now: Instant,
) -> TimerView {
    TimerView {
        schedule: seq![
            (
                (now@ + delta_timeout@ + delta_first_slice@) as int,
                VotorEvent::TimeoutCrashedLeader(slot),
            ),
        ] + block_schedule(
            rest_of_window(slot),
            (now@ + delta_timeout@ + delta_block@) as int,
            delta_block@,
        ),
        delta_block: delta_block@,
    }
}

/// A timer that has nothing left to do.
pub open spec fn finished() -> TimerView {
    TimerView { schedule: Seq::empty(), delta_block: 0 }
}

impl TimerView {
    /// Whether the next deadline has passed at `now`.
    pub open spec fn is_due(self, now: Instant) -> bool {
        self.schedule.len() > 0 && self.schedule[0].0 <= now@
    }

    /// This timer once its next deadline has fired.
    pub open spec fn advanced(self) -> TimerView {
        if self.schedule.len() <= 1 {
            finished()
        } else {
            TimerView { schedule: self.schedule.drop_first(), ..self }
        }
    }

    /// This timer once every deadline that comes next and has passed at `now` has fired.
    pub open spec fn settled(self, now: Instant) -> TimerView
        decreases self.schedule.len(),
    {
        if self.is_due(now) {
            self.advanced().settled(now)
        } else {
            self
        }
    }

    /// Whether no deadline comes after a later one.
    pub open spec fn in_order(self) -> bool {
        forall|i: int, j: int|
            0 <= i <= j < self.schedule.len() ==> (#[trigger] self.schedule[i]).0 <= (
            #[trigger] self.schedule[j]).0
    }

    /// Whether the deadlines up to that at `index` have all passed at `now`.
    pub open spec fn due_through(self, index: int, now: Instant) -> bool {
        forall|i: int| 0 <= i <= index ==> (#[trigger] self.schedule[i]).0 <= now@
    }

    /// Whether this timer can fire all that is due at `now` one after the other: one slot time
    /// after each such deadline but the last of all is a point in time.
    pub open spec fn can_run(self, now: Instant) -> bool {
        forall|i: int|
            0 <= i < self.schedule.len() - 1 && self.due_through(i, now) ==> (
            #[trigger] self.schedule[i]).0 + self.delta_block <= crate::time::MAX_NANOS
    }

    /// Whether the point in time from which the deadline after the next one is counted can be
    /// represented, if the next one has passed at `now`.
    pub open spec fn can_advance(self, now: Instant) -> bool {
        self.schedule.len() > 1 && self.is_due(now) ==> self.schedule[0].0 + self.delta_block
            <= crate::time::MAX_NANOS
    }
}

/// A timer that can fire all that is due can still do so once its next deadline has fired.
pub proof fn advanced_can_run(timer: TimerView, now: Instant)
    requires
        timer.is_due(now),
        timer.can_run(now),
    ensures
        timer.can_advance(now),
        timer.advanced().can_run(now),
{
    assert(timer.schedule.len() > 1 ==> timer.due_through(0, now));
    let after = timer.advanced();
    assert forall|i: int|
        0 <= i < after.schedule.len() - 1 && after.due_through(i, now) implies (
    #[trigger] after.schedule[i]).0 + after.delta_block <= crate::time::MAX_NANOS by {
        assert(timer.schedule[i + 1] == after.schedule[i]);
        assert forall|j: int| 0 <= j <= i + 1 implies (#[trigger] timer.schedule[j]).0 <= now@ by {
            if j > 0 {
                assert(after.schedule[j - 1] == timer.schedule[j]);
            }
        }
        assert(timer.due_through(i + 1, now));
    }
}

/// A timer that is woken in between ends up as one that is woken late.
pub proof fn settling_in_two_steps(timer: TimerView, now: Instant, later: Instant)
    requires
        now@ <= later@,
    ensures
        timer.settled(now).settled(later) == timer.settled(later),
    decreases timer.schedule.len(),
{
    if timer.is_due(now) {
        settling_in_two_steps(timer.advanced(), now, later);
    }
}

/// The deadlines of a new timer. The leader is declared crashed once the scaled timeout and the
/// time for a first slice have passed. The block of slot `slot + i` is due the scaled timeout and
/// `i + 1` slot times after the start, for each slot up to the end of the leader window.
pub proof fn deadlines_of_a_new_timer(
    slot: Slot,
    delta_timeout: Duration,
    delta_first_slice: Duration,
    delta_block: Duration,
    now: Instant,
    i: int,
)
    requires
        0 <= i,
        slot as int % crate::leader_schedule::window_slots() + i
            < crate::leader_schedule::window_slots(),
    ensures
        ({
            let schedule = initial_timer(
                slot,
                delta_timeout,
                delta_first_slice,
                delta_block,
                now,
            ).schedule;
            &&& schedule.len() == 1 + crate::leader_schedule::window_slots() - slot as int
                % crate::leader_schedule::window_slots()
            &&& schedule[0].0 == now@ + delta_timeout@ + delta_first_slice@
            &&& schedule[0].1 == VotorEvent::TimeoutCrashedLeader(slot)
            &&& schedule[i + 1].0 == now@ + delta_timeout@ + (i + 1) * delta_block@
            &&& schedule[i + 1].1 matches VotorEvent::Timeout(s) && s == slot + i
        }),
{
    let block = delta_block@;
    assert((i + 1) * block == block + i * block) by (nonlinear_arith);
}

/// The deadlines of a new timer are in order unless the first slice is given more time than a
/// block.
pub proof fn new_timer_is_in_order(
    slot: Slot,
    delta_timeout: Duration,
    delta_first_slice: Duration,
    delta_block: Duration,
    now: Instant,
)
    requires
        delta_first_slice@ <= delta_block@,
    ensures
        initial_timer(slot, delta_timeout, delta_first_slice, delta_block, now).in_order(),
{
    let timer = initial_timer(slot, delta_timeout, delta_first_slice, delta_block, now);
    let block = delta_block@;
    assert forall|i: int, j: int| 0 <= i <= j < timer.schedule.len() implies (
    #[trigger] timer.schedule[i]).0 <= (#[trigger] timer.schedule[j]).0 by {
        if 0 < i {
            assert((i - 1) * block <= (j - 1) * block) by (nonlinear_arith)
                requires
                    i <= j,
            ;
        } else if 0 < j {
            assert(0 <= (j - 1) * block) by (nonlinear_arith)
                requires
                    0 < j,
            ;
        }
    }
}

/// A timer whose deadlines are in order keeps them so when it fires.
pub proof fn advancing_keeps_order(timer: TimerView)
    requires
        timer.in_order(),
    ensures
        timer.advanced().in_order(),
{
    let after = timer.advanced();
    assert forall|i: int, j: int| 0 <= i <= j < after.schedule.len() implies (
    #[trigger] after.schedule[i]).0 <= (#[trigger] after.schedule[j]).0 by {
        assert(timer.schedule[i + 1].0 <= timer.schedule[j + 1].0);
    }
}

/// Scaling the timeout of a timer moves all its deadlines by as much, and leaves the time
/// between them alone.
pub proof fn scaling_moves_all_deadlines_alike(
    slot: Slot,
    delta_timeout: Duration,
    scaled_timeout: Duration,
    delta_first_slice: Duration,
    delta_block: Duration,
    now: Instant,
    i: int,
)
    requires
        0 <= i < initial_timer(
            slot,
            delta_timeout,
            delta_first_slice,
            delta_block,
            now,
        ).schedule.len(),
    ensures
        ({
            let unscaled = initial_timer(slot, delta_timeout, delta_first_slice, delta_block, now);
            let scaled = initial_timer(slot, scaled_timeout, delta_first_slice, delta_block, now);
            &&& scaled.schedule.len() == unscaled.schedule.len()
            &&& scaled.schedule[i].0 - unscaled.schedule[i].0 == scaled_timeout@ - delta_timeout@
            &&& scaled.schedule[i].1 == unscaled.schedule[i].1
        }),
{
}

impl TimerState {
    /// Every stage that waits has a slot to wait for, and the first stage ends no earlier than
    /// the time allowed for the first slice.
    pub open spec fn wf(self) -> bool {
        match self {
            TimerState::WaitForFirstSlice { window, timeout, delta_first_slice, .. } => {
                &&& window@.len() > 0
                &&& delta_first_slice@ <= timeout@
            },
            TimerState::WaitForBlock { window, .. } => window@.len() > 0,
            TimerState::Done => true,
        }
    }

    /// Creates a new instance of the state machine from a `delta_timeout` that is scaled
    /// already. Also returns the next time the timer should fire.
    pub fn with_scaled_timeout(
        slot: Slot,
        delta_timeout: Duration,
        delta_first_slice: Duration,
        delta_block: Duration,
        now: Instant,
    ) -> (timer: (TimerState, Instant))
        requires
            now@ + delta_timeout@ + delta_first_slice@ <= crate::time::MAX_NANOS,
        ensures
            timer.0.wf(),
            timer.0@ == initial_timer(slot, delta_timeout, delta_first_slice, delta_block, now),
            timer.1@ == now@ + delta_timeout@ + delta_first_slice@,
    {
        let last: Slot = last_of_consecutive_leader_slots(slot);
        let mut window: VecDeque<Slot> = VecDeque::new();
        let mut next: Slot = slot;
        window.push_back(next);
        while next < last
            invariant
                slot <= next <= last,
                window@ == Seq::new((next - slot + 1) as nat, |i: int| (slot + i) as Slot),
            decreases last - next,
        {
            next = next + 1;
            window.push_back(next);
        }
        assert(window@ =~= rest_of_window(slot));
        // A correct leader may take up to `delta_first_slice` to send their first slice,
        // so the earliest sound point to declare them crashed is
        // `delta_first_slice + delta_timeout` after their window starts.
        let timeout = now.checked_add(delta_timeout).unwrap().checked_add(
            delta_first_slice,
        ).unwrap();
        (
            TimerState::WaitForFirstSlice { window, timeout, delta_first_slice, delta_block },
            timeout,
        )
    }

    /// Creates a new instance of the state machine.
    ///
    /// Only the network-DELTA-derived `delta_timeout` is scaled by the standstill multiplier.
    /// `delta_first_slice` and `delta_block` are protocol pacing, not a function of network
    /// synchrony, so they are not scaled. Also returns the next time the timer should fire.
    /// See [`crate::multiplier::Multiplier::scale`] for `product`.
    pub fn new<F: Fn(Duration, i32) -> Option<Duration>>(
        slot: Slot,
        delta_timeout: Duration,
        delta_first_slice: Duration,
        delta_block: Duration,
        now: Instant,
        standstill_slot: Option<Slot>,
        product: F,
    ) -> (timer: (TimerState, Instant))
        requires
            crate::multiplier::can_scale(
                product,
                delta_timeout,
                crate::common::timeout_multiplier(slot, standstill_slot),
            ),
            forall|scaled: Duration| #[trigger]
                crate::common::timeout_scales_to(
                    product,
                    delta_timeout,
                    slot,
                    standstill_slot,
                    scaled,
                ) ==> now@ + scaled@ + delta_first_slice@ <= crate::time::MAX_NANOS,
        ensures
            timer.0.wf(),
            exists|scaled: Duration|
                {
                    &&& #[trigger] crate::common::timeout_scales_to(
                        product,
                        delta_timeout,
                        slot,
                        standstill_slot,
                        scaled,
                    )
                    &&& timer.0@ == initial_timer(
                        slot,
                        scaled,
                        delta_first_slice,
                        delta_block,
                        now,
                    )
                    &&& timer.1@ == now@ + scaled@ + delta_first_slice@
                },
    {
        let scaled = scale_standstill_timeout(delta_timeout, slot, standstill_slot, product);
        TimerState::with_scaled_timeout(slot, scaled, delta_first_slice, delta_block, now)
    }

    /// Call to make progress on the state machine.
    ///
    /// Returns the event that should be sent, if there is one.
    pub fn progress(&mut self, now: Instant) -> (event: Option<VotorEvent>)
        requires
            old(self).wf(),
            old(self)@.can_advance(now),
        ensures
            final(self).wf(),
            old(self)@.is_due(now) ==> {
                &&& event == Some(old(self)@.schedule[0].1)
                &&& final(self)@ == old(self)@.advanced()
            },
            !old(self)@.is_due(now) ==> event is None && final(self)@ == old(self)@,
    {
        match self {
            TimerState::WaitForFirstSlice { window, timeout, delta_first_slice, delta_block } => {
                if now.is_before(*timeout) {
                    return None;
                }
                let slot: Slot = window[0];
                let new_timeout = timeout.checked_add(*delta_block).unwrap().checked_sub(
                    *delta_first_slice,
                ).unwrap();
                let delta_block = *delta_block;
                let window = window.clone();
                *self = TimerState::WaitForBlock { window, timeout: new_timeout, delta_block };
                proof {
                    assert(self@.schedule =~= old(self)@.schedule.drop_first());
                }
                Some(VotorEvent::TimeoutCrashedLeader(slot))
            },
            TimerState::WaitForBlock { window, timeout, delta_block } => {
                if now.is_before(*timeout) {
                    return None;
                }
                proof {
                    block_schedule_drop_first(window@, timeout@ as int, delta_block@);
                }
                let slot: Slot = window.pop_front().unwrap();
                if window.len() == 0 {
                    *self = TimerState::Done;
                } else {
                    *timeout = timeout.checked_add(*delta_block).unwrap();
                }
                Some(VotorEvent::Timeout(slot))
            },
            TimerState::Done => None,
        }
    }

    /// Whether a call to make progress at `now` ends: the point in time from which the following
    /// deadline is counted can be represented, if there is one and the next one has passed.
    pub fn can_advance(&self, now: Instant) -> (can: bool)
        requires
            self.wf(),
        ensures
            can == self@.can_advance(now),
    {
        match self {
            TimerState::WaitForFirstSlice { timeout, delta_block, .. } => now.is_before(*timeout)
                || timeout.checked_add(*delta_block).is_some(),
            TimerState::WaitForBlock { window, timeout, delta_block } => window.len() <= 1
                || now.is_before(*timeout) || timeout.checked_add(*delta_block).is_some(),
            TimerState::Done => true,
        }
    }

    /// When would this state machine next be able to make progress.
    pub fn next_fire(&self) -> (fire: Option<Instant>)
        requires
            self.wf(),
        ensures
            fire is Some <==> self@.schedule.len() > 0,
            fire is Some ==> fire->0@ == self@.schedule[0].0,
    {
        match self {
            TimerState::WaitForFirstSlice { timeout, .. } => Some(*timeout),
            TimerState::WaitForBlock { timeout, .. } => Some(*timeout),
            TimerState::Done => None,
        }
    }
}

/// A new timer declares the leader crashed once the timeout and the time for a first slice have
/// passed, and the block of each slot up to the end of the window missing once the timeout and one
/// slot time for each slot so far have passed. It first fires at the first of these deadlines, and
/// can be made if that is a point in time.
pub proof fn new_timer_waits_for_the_slice_and_each_block(
    slot: Slot,
    delta_timeout: Duration,
    delta_first_slice: Duration,
    delta_block: Duration,
    now: Instant,
    timer: (TimerState, Instant),
)
    requires
        call_ensures(
            TimerState::with_scaled_timeout,
            (slot, delta_timeout, delta_first_slice, delta_block, now),
            timer,
        ),
    ensures
        timer.1@ == now@ + delta_timeout@ + delta_first_slice@,
        timer.0@.delta_block == delta_block@,
        timer.0@.schedule.len() == 5 - slot % 4,
        timer.0@.schedule[0].0 == now@ + delta_timeout@ + delta_first_slice@,
        timer.0@.schedule[0].1 == VotorEvent::TimeoutCrashedLeader(slot),
        forall|i: int|
            1 <= i <= 4 - slot % 4 ==> (#[trigger] timer.0@.schedule[i]).0 == now@ + delta_timeout@
                + i * delta_block@ && (timer.0@.schedule[i].1 matches VotorEvent::Timeout(s) && s
                == slot + i - 1),
        now@ + delta_timeout@ + delta_first_slice@ <= u64::MAX * 1_000_000_000 + 999_999_999
            ==> call_requires(
            TimerState::with_scaled_timeout,
            (slot, delta_timeout, delta_first_slice, delta_block, now),
        ),
{
    assert forall|i: int| 1 <= i <= 4 - slot % 4 implies (#[trigger] timer.0@.schedule[i]).0 == now@
        + delta_timeout@ + i * delta_block@ && (timer.0@.schedule[i].1 matches VotorEvent::Timeout(
        s,
    ) && s == slot + i - 1) by {
        deadlines_of_a_new_timer(
            slot,
            delta_timeout,
            delta_first_slice,
            delta_block,
            now,
            i - 1,
        );
    }
}

/// A new timer is such a timer, with a timeout that is scaled for the slot. Neither the time for a
/// first slice nor the slot time is scaled.
pub proof fn new_timer_waits_for_the_scaled_timeout<F: Fn(Duration, i32) -> Option<Duration>>(
    slot: Slot,
    delta_timeout: Duration,
    delta_first_slice: Duration,
    delta_block: Duration,
    now: Instant,
    standstill_slot: Option<Slot>,
    product: F,
    timer: (TimerState, Instant),
) -> (scaled: Duration)
    requires
        call_ensures(
            TimerState::new::<F>,
            (slot, delta_timeout, delta_first_slice, delta_block, now, standstill_slot, product),
            timer,
        ),
    ensures
        crate::common::timeout_scales_to(product, delta_timeout, slot, standstill_slot, scaled),
        standstill_slot is None || slot - standstill_slot->0 < 4 ==> scaled@ == (
        if delta_timeout@ < 3_600_000_000_000 {
            delta_timeout@
        } else {
            3_600_000_000_000
        }),
        timer.1@ == now@ + scaled@ + delta_first_slice@,
        timer.0@.delta_block == delta_block@,
        timer.0@.schedule.len() == 5 - slot % 4,
        timer.0@.schedule[0].0 == now@ + scaled@ + delta_first_slice@,
        timer.0@.schedule[0].1 == VotorEvent::TimeoutCrashedLeader(slot),
        forall|i: int|
            1 <= i <= 4 - slot % 4 ==> (#[trigger] timer.0@.schedule[i]).0 == now@ + scaled@ + i
                * delta_block@ && (timer.0@.schedule[i].1 matches VotorEvent::Timeout(s) && s
                == slot + i - 1),
        now@ + 3_600_000_000_000 + delta_first_slice@ <= u64::MAX * 1_000_000_000 + 999_999_999
            && (standstill_slot is Some && 4 <= slot - standstill_slot->0 < 4 * 0x8000_0000
            ==> call_requires(product, (delta_timeout, ((slot - standstill_slot->0) / 4) as i32)))
            ==> call_requires(
            TimerState::new::<F>,
            (slot, delta_timeout, delta_first_slice, delta_block, now, standstill_slot, product),
        ),
        (standstill_slot is None || slot - standstill_slot->0 < 4) && now@ + delta_timeout@
            + delta_first_slice@ <= u64::MAX * 1_000_000_000 + 999_999_999 ==> call_requires(
            TimerState::new::<F>,
            (slot, delta_timeout, delta_first_slice, delta_block, now, standstill_slot, product),
        ),
{
    assert forall|other: Duration| #[trigger]
        crate::common::timeout_scales_to(
            product,
            delta_timeout,
            slot,
            standstill_slot,
            other,
        ) implies other@ <= 3_600_000_000_000 && (standstill_slot is None || slot
        - standstill_slot->0 < 4 ==> other@ <= delta_timeout@) by {
        crate::common::timeout_is_the_capped_product(
            product,
            delta_timeout,
            slot,
            standstill_slot,
            other,
        );
    }
    let scaled = choose|scaled: Duration|
        {
            &&& #[trigger] crate::common::timeout_scales_to(
                product,
                delta_timeout,
                slot,
                standstill_slot,
                scaled,
            )
            &&& timer.0@ == initial_timer(slot, scaled, delta_first_slice, delta_block, now)
            &&& timer.1@ == now@ + scaled@ + delta_first_slice@
        };
    crate::common::timeout_is_the_capped_product(
        product,
        delta_timeout,
        slot,
        standstill_slot,
        scaled,
    );
    assert forall|i: int| 1 <= i <= 4 - slot % 4 implies (#[trigger] timer.0@.schedule[i]).0 == now@
        + scaled@ + i * delta_block@ && (timer.0@.schedule[i].1 matches VotorEvent::Timeout(s) && s
        == slot + i - 1) by {
        deadlines_of_a_new_timer(slot, scaled, delta_first_slice, delta_block, now, i - 1);
    }
    scaled
}

/// A timer whose next deadline has passed reports the event of that deadline and keeps all later
/// ones. Before that it reports nothing and stays as it is. It can always make progress but where
/// one slot time after a deadline that has passed, and is not the last, time has ended.
pub proof fn timer_reports_its_next_deadline(
    timer: &mut TimerState,
    now: Instant,
    event: Option<VotorEvent>,
    next: Option<Instant>,
    can: bool,
)
    requires
        timer.wf(),
        call_ensures(TimerState::next_fire, (&*timer,), next),
        call_ensures(TimerState::can_advance, (&*timer, now), can),
        call_ensures(TimerState::progress, (timer, now), event),
    ensures
        next is Some <==> old(timer)@.schedule.len() > 0,
        next matches Some(fire) ==> fire@ == old(timer)@.schedule[0].0,
        next is None || now@ < next->0@ ==> event is None && final(timer)@ == old(timer)@,
        next is Some && next->0@ <= now@ ==> {
            &&& event == Some(old(timer)@.schedule[0].1)
            &&& final(timer)@.schedule.len() == old(timer)@.schedule.len() - 1
            &&& forall|i: int|
                0 <= i < final(timer)@.schedule.len() ==> #[trigger] final(timer)@.schedule[i]
                    == old(timer)@.schedule[i + 1]
            &&& final(timer)@.schedule.len() > 0 ==> final(timer)@.delta_block == old(
                timer,
            )@.delta_block
        },
        can <==> (next is None || now@ < next->0@ || old(timer)@.schedule.len() == 1
            || old(timer)@.schedule[0].0 + old(timer)@.delta_block
            <= u64::MAX * 1_000_000_000 + 999_999_999),
        can ==> call_requires(TimerState::progress, (timer, now)),
{
}

/// A timer that is rid of the deadlines that come next and have passed has all that follow the
/// first one that has not passed. Also returns how many it is rid of.
pub proof fn settled_timer_has_what_is_ahead(timer: TimerView, now: Instant) -> (passed: nat)
    ensures
        passed <= timer.schedule.len(),
        forall|i: int| 0 <= i < passed ==> (#[trigger] timer.schedule[i]).0 <= now@,
        passed < timer.schedule.len() ==> timer.schedule[passed as int].0 > now@,
        timer.settled(now).schedule == timer.schedule.skip(passed as int),
        passed < timer.schedule.len() ==> timer.settled(now).delta_block == timer.delta_block,
    decreases timer.schedule.len(),
{
    if timer.is_due(now) {
        let rest = timer.advanced();
        let passed = settled_timer_has_what_is_ahead(rest, now) + 1;
        assert(rest.schedule =~= timer.schedule.skip(1));
        assert forall|i: int| 0 <= i < passed implies (#[trigger] timer.schedule[i]).0 <= now@ by {
            if i > 0 {
                assert(rest.schedule[i - 1] == timer.schedule[i]);
            }
        }
        assert(rest.schedule.skip(passed - 1) =~= timer.schedule.skip(passed as int));
        passed
    } else {
        assert(timer.schedule.skip(0) =~= timer.schedule);
        0
    }
}

} // verus!
