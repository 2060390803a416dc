use solana_clock::{Slot, DEFAULT_MS_PER_SLOT};
use votor::common::{delta_timeout, max_standstill_timeout};
use votor::event::VotorEvent;
use votor::time::{Duration, Instant, MAX_NANOS};
use votor::timer_manager::fire_queue::FireQueue;
use votor::timer_manager::stats::TimerManagerStats;
use votor::timer_manager::timer_state::TimerState;
use votor::timer_manager::timers::Timers;

/// The maximum allowed time for producing the first slice.
fn delta_first_slice() -> Duration {
    Duration::from_millis(50)
}

/// `base` times `1.05^exponent`.
fn product(base: Duration, exponent: i32) -> Option<Duration> {
    let multiplier = 1.05_f64.powi(exponent);
    if !multiplier.is_finite() {
        return None;
    }
    let secs = (base.as_nanos() / 1_000_000_000) as u64;
    let nanos = (base.as_nanos() % 1_000_000_000) as u32;
    let scaled_secs = std::time::Duration::new(secs, nanos).as_secs_f64() * multiplier;
    match std::time::Duration::try_from_secs_f64(scaled_secs) {
        Ok(span) => Duration::from_nanos(span.as_nanos()),
        Err(_) => Duration::from_nanos(MAX_NANOS),
    }
}

fn nanos_between(earlier: Instant, later: Instant) -> u128 {
    later.saturating_duration_since(earlier).as_nanos()
}

fn at_secs(secs: u64) -> Instant {
    Instant::since_epoch(Duration::from_secs(secs))
}

fn at_millis(millis: u64) -> Instant {
    Instant::since_epoch(Duration::from_millis(millis))
}

#[test]
fn timer_state_machine() {
    let one_micro = Duration::from_micros(1);
    let now = at_secs(1_000);
    let slot = 0;
    let (mut timer_state, next_fire) =
        TimerState::new(slot, one_micro, one_micro, one_micro, now, None, product);

    assert!(matches!(
        timer_state.progress(next_fire).unwrap(),
        VotorEvent::TimeoutCrashedLeader(0)
    ));

    let fire = timer_state.next_fire().unwrap();
    assert!(matches!(
        timer_state.progress(fire).unwrap(),
        VotorEvent::Timeout(0)
    ));

    let fire = timer_state.next_fire().unwrap();
    assert!(matches!(
        timer_state.progress(fire).unwrap(),
        VotorEvent::Timeout(1)
    ));

    let fire = timer_state.next_fire().unwrap();
    assert!(matches!(
        timer_state.progress(fire).unwrap(),
        VotorEvent::Timeout(2)
    ));

    let fire = timer_state.next_fire().unwrap();
    assert!(matches!(
        timer_state.progress(fire).unwrap(),
        VotorEvent::Timeout(3)
    ));
    assert!(timer_state.next_fire().is_none());
}

#[test]
fn timers_progress() {
    let one_micro = Duration::from_micros(1);
    let mut now = at_secs(1_000);
    let mut events: Vec<VotorEvent> = Vec::new();
    let mut timers = Timers::new(one_micro);
    let (sent, next_fire) = timers.progress(now);
    assert!(next_fire.is_none());
    assert!(sent.is_empty());

    timers.set_timeouts(
        0,
        now,
        None,
        delta_first_slice(),
        Duration::from_millis(DEFAULT_MS_PER_SLOT),
        product,
    );
    loop {
        let (sent, next_fire) = timers.progress(now);
        events.extend(sent);
        if next_fire.is_none() {
            break;
        }
        now = now.checked_add(one_micro).unwrap();
    }

    assert!(matches!(
        events.remove(0),
        VotorEvent::TimeoutCrashedLeader(0)
    ));
    assert!(matches!(events.remove(0), VotorEvent::Timeout(0)));
    assert!(matches!(events.remove(0), VotorEvent::Timeout(1)));
    assert!(matches!(events.remove(0), VotorEvent::Timeout(2)));
    assert!(matches!(events.remove(0), VotorEvent::Timeout(3)));
    assert!(events.is_empty());
    let stats = timers.stats();
    assert_eq!(stats.set_timeout_count, 1);
    assert_eq!(stats.set_timeout_succeed_count, 1);
    assert_eq!(stats.max_heap_size, 1);
}

#[test]
fn timer_state_with_standstill() {
    // Test that the standstill multiplier correctly extends `delta_timeout`
    // but leaves `delta_block` unchanged.
    let delta_timeout = Duration::from_millis(100);
    let delta_first_slice = Duration::from_millis(10);
    let delta_block = Duration::from_millis(50);
    let now = at_secs(1_000);
    // 8 slots since standstill = 2 leader windows = 1.05^2 multiplier.
    let slot = 8;
    let standstill_slot = Some(0);
    let expected_multiplier = 1.05_f64.powi(2);

    let (mut timer_state, next_fire) = TimerState::new(
        slot,
        delta_timeout,
        delta_first_slice,
        delta_block,
        now,
        standstill_slot,
        product,
    );

    // The first timeout fires at `now + (delta_timeout * multiplier) + delta_first_slice`.
    let tolerance = Duration::from_micros(100).as_nanos();
    let expected_first_fire = std::time::Duration::from_secs_f64(0.1 * expected_multiplier)
        .as_nanos()
        + delta_first_slice.as_nanos();
    let first_fire = nanos_between(now, next_fire);
    assert!(
        first_fire >= expected_first_fire - tolerance
            && first_fire <= expected_first_fire + tolerance,
        "Expected first fire around {expected_first_fire:?}, got {next_fire:?}",
    );

    // Progress the timer to get TimeoutCrashedLeader
    assert!(matches!(
        timer_state.progress(next_fire).unwrap(),
        VotorEvent::TimeoutCrashedLeader(8)
    ));

    // Slot 0's block deadline is `now + delta_block + scaled_delta_timeout`, so
    // the gap from the (delta_first_slice-shifted) first fire is `delta_block - delta_first_slice`.
    let next = timer_state.next_fire().unwrap();
    let expected_delta = delta_block.as_nanos() - delta_first_slice.as_nanos();
    let actual_delta = nanos_between(next_fire, next);
    assert!(
        actual_delta >= expected_delta - tolerance && actual_delta <= expected_delta + tolerance,
        "Expected delta around {expected_delta:?}, got {actual_delta:?}",
    );
}

#[test]
fn timer_state_caps_at_max_timeout() {
    let now = at_secs(1_000);
    let delta_block = Duration::from_millis(DEFAULT_MS_PER_SLOT);
    // A slot far enough past standstill that 1.05^n explodes past 1h.
    // 1.05^400 is well above the 3600s cap.
    let slot = 4 * 400;
    let standstill_slot = Some(0);

    let (mut timer_state, next_fire) = TimerState::new(
        slot,
        delta_timeout(),
        delta_first_slice(),
        delta_block,
        now,
        standstill_slot,
        product,
    );

    // The first timeout should be capped at the longest timeout (+ unscaled first slice).
    let expected_first_fire = now
        .checked_add(max_standstill_timeout())
        .unwrap()
        .checked_add(delta_first_slice())
        .unwrap();
    assert_eq!(next_fire, expected_first_fire);

    // Progress the timer to get TimeoutCrashedLeader
    assert!(matches!(
        timer_state.progress(next_fire).unwrap(),
        VotorEvent::TimeoutCrashedLeader(s) if s == slot
    ));

    // Slot 0's block deadline is `T + delta_block + scaled_delta_timeout`, so
    // the gap from the shifted first fire is `delta_block` less the time for a first slice.
    let next = timer_state.next_fire().unwrap();
    let actual_delta = nanos_between(next_fire, next);
    assert_eq!(
        actual_delta,
        delta_block.as_nanos() - delta_first_slice().as_nanos()
    );
}

#[test]
fn nothing_fires_early() {
    let (mut timer, fire) = TimerState::with_scaled_timeout(
        5,
        Duration::from_millis(100),
        Duration::from_millis(10),
        Duration::from_millis(40),
        at_millis(1_000),
    );
    assert_eq!(fire, at_millis(1_110));
    assert_eq!(timer.progress(at_millis(1_109)), None);
    assert_eq!(timer.next_fire(), Some(at_millis(1_110)));
    // A timer reports one event per call, however late it is.
    assert_eq!(
        timer.progress(at_millis(9_000)),
        Some(VotorEvent::TimeoutCrashedLeader(5))
    );
    assert_eq!(timer.next_fire(), Some(at_millis(1_140)));
    assert_eq!(
        timer.progress(at_millis(9_000)),
        Some(VotorEvent::Timeout(5))
    );
    assert_eq!(timer.next_fire(), Some(at_millis(1_180)));
    assert_eq!(timer.progress(at_millis(1_179)), None);
    assert_eq!(
        timer.progress(at_millis(1_180)),
        Some(VotorEvent::Timeout(6))
    );
    assert_eq!(
        timer.progress(at_millis(1_220)),
        Some(VotorEvent::Timeout(7))
    );
    assert_eq!(timer.next_fire(), None);
    assert_eq!(timer.progress(at_millis(9_000)), None);
}

#[test]
fn block_deadline_may_precede_the_first_slice() {
    let (mut timer, fire) = TimerState::with_scaled_timeout(
        3,
        Duration::from_millis(100),
        Duration::from_millis(50),
        Duration::from_millis(20),
        at_millis(1_000),
    );
    assert_eq!(fire, at_millis(1_150));
    assert_eq!(
        timer.progress(at_millis(1_150)),
        Some(VotorEvent::TimeoutCrashedLeader(3))
    );
    assert_eq!(timer.next_fire(), Some(at_millis(1_120)));
    assert_eq!(
        timer.progress(at_millis(1_150)),
        Some(VotorEvent::Timeout(3))
    );
    assert_eq!(timer.next_fire(), None);
}

#[test]
fn window_ends_with_the_last_slot_of_all() {
    let (mut timer, fire) = TimerState::with_scaled_timeout(
        u64::MAX - 1,
        Duration::from_millis(1),
        Duration::from_millis(1),
        Duration::from_millis(1),
        at_millis(0),
    );
    let late = at_secs(1);
    assert_eq!(fire, at_millis(2));
    let mut events = Vec::new();
    while let Some(event) = timer.progress(late) {
        events.push(event);
    }
    assert_eq!(
        events,
        vec![
            VotorEvent::TimeoutCrashedLeader(u64::MAX - 1),
            VotorEvent::Timeout(u64::MAX - 1),
            VotorEvent::Timeout(u64::MAX),
        ]
    );
}

fn two_windows() -> Timers {
    let mut timers = Timers::new(Duration::from_millis(100));
    let first_slice = Duration::from_millis(10);
    let block = Duration::from_millis(40);
    timers.set_timeouts(6, at_millis(1_000), None, first_slice, block, product);
    timers.set_timeouts(2, at_millis(1_020), None, first_slice, block, product);
    timers
}

#[test]
fn events_come_in_the_order_of_their_deadlines() {
    let mut timers = two_windows();
    assert!(timers.is_timeout_set(6) && timers.is_timeout_set(2));
    assert!(!timers.is_timeout_set(3));
    // Deadlines: 6 at 1110, 1140, 1180; 2 at 1130, 1160, 1200.
    let (events, next_fire) = timers.progress(at_millis(1_150));
    assert_eq!(
        events,
        vec![
            VotorEvent::TimeoutCrashedLeader(6),
            VotorEvent::TimeoutCrashedLeader(2),
            VotorEvent::Timeout(6),
        ]
    );
    assert_eq!(next_fire, Some(at_millis(1_160)));
    // Again at the same time: nothing new.
    let (events, next_fire) = timers.progress(at_millis(1_150));
    assert!(events.is_empty());
    assert_eq!(next_fire, Some(at_millis(1_160)));
    let (events, next_fire) = timers.progress(at_millis(1_180));
    assert_eq!(events, vec![VotorEvent::Timeout(2), VotorEvent::Timeout(7)]);
    assert_eq!(next_fire, Some(at_millis(1_200)));
    assert!(!timers.is_timeout_set(6) && timers.is_timeout_set(2));
    let (events, next_fire) = timers.progress(at_millis(1_200));
    assert_eq!(events, vec![VotorEvent::Timeout(3)]);
    assert_eq!(next_fire, None);
    assert!(!timers.is_timeout_set(2));
}

#[test]
fn late_progress_reports_everything_and_leaves_nothing_to_wait_for() {
    let mut timers = two_windows();
    let (events, next_fire) = timers.progress(at_secs(100));
    assert_eq!(
        events,
        vec![
            VotorEvent::TimeoutCrashedLeader(6),
            VotorEvent::TimeoutCrashedLeader(2),
            VotorEvent::Timeout(6),
            VotorEvent::Timeout(2),
            VotorEvent::Timeout(7),
            VotorEvent::Timeout(3),
        ]
    );
    assert_eq!(next_fire, None);
}

#[test]
fn next_fire_is_that_of_the_earliest_timer_left() {
    let mut timers = Timers::new(Duration::from_millis(100));
    let block = Duration::from_millis(40);
    timers.set_timeouts(
        0,
        at_millis(1_000),
        None,
        Duration::from_millis(10),
        block,
        product,
    );
    // Two deadlines, at 1110 and 1140, have passed; the next one is at 1180.
    let (events, next_fire) = timers.progress(at_millis(1_150));
    assert_eq!(events.len(), 2);
    assert_eq!(next_fire, Some(at_millis(1_180)));
}

#[test]
fn equal_deadlines_fire_by_slot() {
    let mut timers = Timers::new(Duration::from_millis(100));
    let span = Duration::from_millis(10);
    for slot in [11, 3, 7] {
        timers.set_timeouts(slot, at_millis(0), None, span, span, product);
    }
    let (events, _) = timers.progress(at_millis(110));
    assert_eq!(
        events,
        vec![
            VotorEvent::TimeoutCrashedLeader(3),
            VotorEvent::Timeout(3),
            VotorEvent::TimeoutCrashedLeader(7),
            VotorEvent::Timeout(7),
            VotorEvent::TimeoutCrashedLeader(11),
            VotorEvent::Timeout(11),
        ]
    );
}

#[test]
fn a_slot_keeps_its_first_timer() {
    let mut timers = two_windows();
    timers.set_timeouts(
        6,
        at_millis(5_000),
        None,
        Duration::from_millis(10),
        Duration::from_millis(40),
        product,
    );
    let stats = timers.stats();
    assert_eq!(
        stats,
        TimerManagerStats {
            set_timeout_count: 3,
            set_timeout_succeed_count: 2,
            max_heap_size: 2,
        }
    );
    let (events, _) = timers.progress(at_millis(1_110));
    assert_eq!(events, vec![VotorEvent::TimeoutCrashedLeader(6)]);
}

#[test]
fn standstill_extends_the_timeouts_that_are_set() {
    let mut timers = Timers::new(Duration::from_millis(1_000));
    timers.set_timeouts(
        104,
        at_millis(0),
        Some(100),
        Duration::from_millis(10),
        Duration::from_millis(40),
        product,
    );
    let (events, next_fire) = timers.progress(at_millis(1_059));
    assert!(events.is_empty());
    assert_eq!(next_fire, Some(at_millis(1_060)));
    let (events, next_fire) = timers.progress(at_millis(1_060));
    assert_eq!(events, vec![VotorEvent::TimeoutCrashedLeader(104)]);
    assert_eq!(next_fire, Some(at_millis(1_090)));
}

#[test]
fn queue_hands_out_the_earliest_entry() {
    let mut queue = FireQueue::new();
    assert_eq!(queue.pop(), None);
    assert_eq!(queue.peek(), None);
    let entries: [(u64, Slot); 6] = [(30, 1), (10, 9), (20, 5), (10, 2), (30, 0), (10, 2)];
    for (millis, slot) in entries {
        queue.push(at_millis(millis), slot);
    }
    assert_eq!(queue.len(), 6);
    assert_eq!(queue.peek(), Some((at_millis(10), 2)));
    assert_eq!(queue.len(), 6);
    let mut popped = Vec::new();
    while let Some((fire, slot)) = queue.pop() {
        popped.push((nanos_between(at_millis(0), fire) / 1_000_000, slot));
    }
    assert_eq!(
        popped,
        vec![(10, 2), (10, 2), (10, 9), (20, 5), (30, 0), (30, 1)]
    );
    assert_eq!(queue.len(), 0);
}

#[test]
fn counters_stop_at_the_largest_count() {
    let mut stats = TimerManagerStats {
        set_timeout_count: u64::MAX,
        set_timeout_succeed_count: u64::MAX,
        max_heap_size: 4,
    };
    stats.incr_timeout_count_with_heap_size(3, true);
    assert_eq!(stats.set_timeout_count, u64::MAX);
    assert_eq!(stats.set_timeout_succeed_count, u64::MAX);
    assert_eq!(stats.max_heap_size, 4);
}

#[test]
fn waking_in_between_leaves_the_same_timers() {
    let mut woken = two_windows();
    let mut late = two_windows();
    let (first, _) = woken.progress(at_millis(1_130));
    let (second, woken_next) = woken.progress(at_millis(1_180));
    let (all, late_next) = late.progress(at_millis(1_180));
    assert_eq!([first, second].concat(), all);
    assert_eq!(all.len(), 5);
    assert_eq!(woken_next, Some(at_millis(1_200)));
    assert_eq!(late_next, woken_next);
    for slot in 0..8 {
        assert_eq!(woken.is_timeout_set(slot), late.is_timeout_set(slot));
    }
}

#[test]
fn scaling_leaves_the_time_between_deadlines_alone() {
    let new_timer = |delta_timeout| {
        TimerState::with_scaled_timeout(
            0,
            Duration::from_millis(delta_timeout),
            Duration::from_millis(10),
            Duration::from_millis(40),
            at_millis(0),
        )
        .0
    };
    let mut short = new_timer(100);
    let mut long = new_timer(175);
    while let Some(fire) = short.next_fire() {
        let long_fire = long.next_fire().unwrap();
        assert_eq!(nanos_between(fire, long_fire), 75_000_000);
        assert_eq!(short.progress(fire), long.progress(long_fire));
    }
    assert_eq!(long.next_fire(), None);
}

#[test]
fn timers_fire_one_at_a_time() {
    let mut timers = two_windows();
    let mut whole = two_windows();
    let now = at_millis(1_165);
    assert_eq!(timers.next_fire(), Some(at_millis(1_110)));
    assert!(timers.can_fire(now));
    assert_eq!(timers.fire_next(at_millis(1_109)), None);
    assert_eq!(
        timers.fire_next(now),
        Some(VotorEvent::TimeoutCrashedLeader(6))
    );
    assert_eq!(timers.next_fire(), Some(at_millis(1_130)));
    let mut events = vec![VotorEvent::TimeoutCrashedLeader(6)];
    while let Some(event) = timers.fire_next(now) {
        events.push(event);
    }
    assert_eq!(whole.progress(now), (events, timers.next_fire()));
    assert_eq!(timers.next_fire(), Some(at_millis(1_180)));
    assert_eq!(Timers::new(Duration::from_secs(1)).next_fire(), None);
}

#[test]
fn no_deadline_is_counted_from_beyond_the_end_of_time() {
    let mut timers = Timers::new(Duration::from_millis(100));
    assert!(timers.can_fire(at_secs(9)));
    let longest = Duration::from_nanos(MAX_NANOS).unwrap();
    let first_slice = Duration::from_millis(10);
    timers.set_timeouts(0, at_millis(0), None, first_slice, longest, product);
    assert!(timers.can_fire(at_millis(109)));
    assert!(!timers.can_fire(at_millis(110)));
    assert_eq!(timers.progress(at_millis(109)).0, vec![]);

    let (timer, fire) = TimerState::with_scaled_timeout(
        0,
        Duration::from_millis(0),
        Duration::from_millis(0),
        longest,
        at_millis(0),
    );
    assert_eq!(fire, at_millis(0));
    assert!(timer.can_advance(at_millis(0)));
    let (mut timer, _) = TimerState::with_scaled_timeout(
        3,
        Duration::from_millis(1),
        first_slice,
        Duration::from_millis(40),
        at_millis(0),
    );
    while timer.next_fire().is_some() {
        assert!(timer.can_advance(at_secs(1)));
        timer.progress(at_secs(1));
    }
    assert!(timer.can_advance(at_secs(1)));
}

#[test]
fn a_slot_is_set_until_its_last_event() {
    let mut timers = Timers::new(Duration::from_millis(100));
    let first_slice = Duration::from_millis(10);
    let block = Duration::from_millis(40);
    assert!(!timers.is_timeout_set(0));
    timers.set_timeouts(0, at_millis(0), None, first_slice, block, product);
    // Another slot of the window, whose timer ends with the same event.
    assert!(!timers.is_timeout_set(2));
    timers.set_timeouts(2, at_millis(0), None, first_slice, block, product);
    // Slot 2 has its deadlines at 110, 140, 180, and slot 0 two more at 220 and 260.
    let (events, _) = timers.progress(at_millis(180));
    assert_eq!(
        events,
        vec![
            VotorEvent::TimeoutCrashedLeader(0),
            VotorEvent::TimeoutCrashedLeader(2),
            VotorEvent::Timeout(0),
            VotorEvent::Timeout(2),
            VotorEvent::Timeout(1),
            VotorEvent::Timeout(3),
        ]
    );
    assert!(timers.is_timeout_set(0) && !timers.is_timeout_set(2));
    timers.progress(at_millis(220));
    assert!(timers.is_timeout_set(0));
    assert_eq!(
        timers.progress(at_millis(260)),
        (vec![VotorEvent::Timeout(3)], None)
    );
    assert!(!timers.is_timeout_set(0));
    // Once it is over, the slot can be set again.
    timers.set_timeouts(0, at_millis(300), None, first_slice, block, product);
    assert!(timers.is_timeout_set(0));
    assert_eq!(timers.next_fire(), Some(at_millis(410)));
}
