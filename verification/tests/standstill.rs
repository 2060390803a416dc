use votor::common::delta_timeout;
use votor::multiplier::Multiplier;
use votor::standstill::{
    apply_multiplier, calculate_timeout_multiplier, delta_standstill, leader_windows_between,
    max_standstill_timeout, multiplier_for_windows, scale_standstill_timeout, StandstillSignal,
};
use votor::time::{Duration, MAX_NANOS};

/// The value of a multiplier.
fn value(multiplier: Multiplier) -> f64 {
    match multiplier {
        Multiplier::Power(exponent) => 1.05_f64.powi(exponent),
        Multiplier::Infinite => f64::INFINITY,
    }
}

/// `base` times `1.05^exponent`.
fn product(base: Duration, exponent: i32) -> Option<Duration> {
    let multiplier = 1.05_f64.powi(exponent);
    if !multiplier.is_finite() {
        return None;
    }
    let secs = (base.as_nanos() / 1_000_000_000) as u64;
    let nanos = (base.as_nanos() % 1_000_000_000) as u32;
    let scaled_secs = std::time::Duration::new(secs, nanos).as_secs_f64() * multiplier;
    match std::time::Duration::try_from_secs_f64(scaled_secs) {
        Ok(span) => Duration::from_nanos(span.as_nanos()),
        Err(_) => Duration::from_nanos(MAX_NANOS),
    }
}

/// Stands in for a product where none may be asked for.
fn no_product(_base: Duration, _exponent: i32) -> Option<Duration> {
    panic!("no product is needed here")
}

#[test]
fn standstill_test_calculate_timeout_multiplier() {
    // No standstill - multiplier is 1.0.
    assert_eq!(value(calculate_timeout_multiplier(100, None)), 1.0);

    // At standstill_slot itself - 0 leader windows elapsed.
    assert_eq!(value(calculate_timeout_multiplier(0, Some(0))), 1.0);

    // 4 slots = 1 leader window = 1.05^1.
    let m = value(calculate_timeout_multiplier(4, Some(0)));
    assert!((m - 1.05).abs() < 0.001);

    // 8 slots = 2 leader windows = 1.05^2.
    let m = value(calculate_timeout_multiplier(8, Some(0)));
    assert!((m - 1.1025).abs() < 0.001);

    // 40 slots = 10 leader windows = 1.05^10.
    let m = value(calculate_timeout_multiplier(40, Some(0)));
    assert!((m - 1.05_f64.powi(10)).abs() < 0.001);

    // 8 slots after standstill_slot=20.
    let m = value(calculate_timeout_multiplier(28, Some(20)));
    assert!((m - 1.1025).abs() < 0.001);

    // A slot before the standstill does not shrink the timeout.
    assert_eq!(value(calculate_timeout_multiplier(0, Some(100))), 1.0);
}

#[test]
fn standstill_test_standstill_signal() {
    let mut s = StandstillSignal::new();
    assert_eq!(s.get(), None);
    s.set(42);
    assert_eq!(s.get(), Some(42));
    s.set(100);
    assert_eq!(s.get(), Some(100));
    s.clear();
    assert_eq!(s.get(), None);
}

#[test]
fn standstill_test_scale_standstill_timeout_caps() {
    let base = delta_timeout();
    // Without standstill, no scaling.
    assert_eq!(scale_standstill_timeout(base, 100, None, product), base);
    // With absurdly large window count, capped at the longest timeout.
    let capped = scale_standstill_timeout(base, 4 * 400, Some(0), product);
    assert_eq!(capped, max_standstill_timeout());
    // Instead of overflowing, capped at the longest timeout.
    let capped = scale_standstill_timeout(base, u64::MAX, Some(0), product);
    assert_eq!(capped, max_standstill_timeout());
    // This should never happen, but timeout does not drop below base.
    assert_eq!(scale_standstill_timeout(base, 0, Some(100), product), base);
}

#[test]
fn test_signal_backoff_tracks_recorded_timeout_slots() {
    let base = delta_timeout();
    let mut s = StandstillSignal::new();

    // Outside standstill nothing scales, and recording is inert.
    s.record_timeout_slot(1000);
    assert_eq!(value(s.multiplier()), 1.0);
    assert_eq!(s.scale(base, product), base);

    // Standstill begins; no windows elapsed yet.
    s.set(100);
    assert_eq!(value(s.multiplier()), 1.0);

    // Votor arms a timeout two leader windows out.
    s.record_timeout_slot(108);
    assert!((value(s.multiplier()) - 1.05_f64.powi(2)).abs() < 0.001);
    assert_eq!(
        s.scale(base, product),
        scale_standstill_timeout(base, 108, Some(100), product)
    );

    // The backoff only grows: a stale or lower slot does not walk it back.
    s.record_timeout_slot(104);
    assert!((value(s.multiplier()) - 1.05_f64.powi(2)).abs() < 0.001);

    // Recovery resets the backoff.
    s.clear();
    assert_eq!(value(s.multiplier()), 1.0);
    assert_eq!(s.scale(base, product), base);

    // A fresh standstill starts from scratch, not from the previous backoff.
    s.set(200);
    assert_eq!(value(s.multiplier()), 1.0);
}

#[test]
fn test_signal_scale_caps_at_max() {
    let mut s = StandstillSignal::new();
    s.set(0);
    // 400 leader windows: 1.05^400 is far above the 1h cap.
    s.record_timeout_slot(4 * 400);
    assert_eq!(s.scale(delta_timeout(), product), max_standstill_timeout());
    // Absurd slot distances saturate rather than overflow.
    s.record_timeout_slot(u64::MAX);
    assert_eq!(s.scale(delta_timeout(), product), max_standstill_timeout());
}

#[test]
fn default_signal_is_quiet() {
    let s = StandstillSignal::default();
    assert_eq!(s.get(), None);
    assert_eq!(s.multiplier(), Multiplier::Power(0));
}

#[test]
fn highest_slot_stands_for_no_standstill() {
    let mut s = StandstillSignal::new();
    s.set(7);
    s.record_timeout_slot(15);
    s.set(u64::MAX);
    assert_eq!(s.get(), None);
    s.record_timeout_slot(u64::MAX);
    assert_eq!(s.multiplier(), Multiplier::Power(0));
}

#[test]
fn windows_are_counted_in_whole_leader_windows() {
    assert_eq!(leader_windows_between(100, 103), 0);
    assert_eq!(leader_windows_between(100, 104), 1);
    assert_eq!(leader_windows_between(100, 107), 1);
    assert_eq!(leader_windows_between(3, 8), 1);
    assert_eq!(leader_windows_between(100, 99), 0);
    assert_eq!(leader_windows_between(0, 4 * (u32::MAX as u64)), u32::MAX);
    assert_eq!(leader_windows_between(0, u64::MAX), u32::MAX);
}

#[test]
fn exponents_end_with_an_i32() {
    assert_eq!(multiplier_for_windows(3), Multiplier::Power(3));
    assert_eq!(
        multiplier_for_windows(i32::MAX as u32),
        Multiplier::Power(i32::MAX)
    );
    assert_eq!(
        multiplier_for_windows(i32::MAX as u32 + 1),
        Multiplier::Infinite
    );
    let windows = i32::MAX as u64 + 1;
    assert_eq!(
        calculate_timeout_multiplier(4 * windows, Some(0)),
        Multiplier::Infinite
    );
    assert_eq!(
        calculate_timeout_multiplier(4 * windows - 1, Some(0)),
        Multiplier::Power(i32::MAX)
    );
}

#[test]
fn scaled_timeouts_are_clamped() {
    let base = Duration::from_secs(10);
    let longest = max_standstill_timeout();
    assert_eq!(apply_multiplier(base, None), longest);
    assert_eq!(apply_multiplier(base, Some(Duration::from_secs(9))), base);
    assert_eq!(
        apply_multiplier(base, Some(Duration::from_secs(11))),
        Duration::from_secs(11)
    );
    assert_eq!(
        apply_multiplier(base, Some(Duration::from_secs(3601))),
        longest
    );
    // A base beyond the cap is cut off, whatever it is scaled to.
    let beyond = Duration::from_secs(4000);
    assert_eq!(apply_multiplier(beyond, None), longest);
    assert_eq!(apply_multiplier(beyond, Some(beyond)), longest);
    assert_eq!(apply_multiplier(beyond, Some(base)), longest);
}

#[test]
fn one_window_adds_five_percent() {
    let mut s = StandstillSignal::new();
    s.set(100);
    s.record_timeout_slot(104);
    assert_eq!(
        s.scale(Duration::from_millis(1_000), product),
        Duration::from_millis(1_050)
    );
    assert_eq!(
        scale_standstill_timeout(Duration::from_millis(400), 108, Some(100), product),
        Duration::from_millis(441)
    );
}

#[test]
fn no_product_is_asked_for_without_elapsed_windows() {
    let base = Duration::from_secs(3600);
    assert_eq!(scale_standstill_timeout(base, 9, None, no_product), base);
    assert_eq!(
        scale_standstill_timeout(base, 103, Some(100), no_product),
        base
    );
    let mut s = StandstillSignal::new();
    s.set(5);
    assert_eq!(s.scale(base, no_product), base);
    assert_eq!(
        scale_standstill_timeout(base, u64::MAX, Some(0), no_product),
        max_standstill_timeout()
    );
}

#[test]
fn recording_order_does_not_matter() {
    let mut a = StandstillSignal::new();
    let mut b = StandstillSignal::new();
    a.set(100);
    b.set(100);
    a.record_timeout_slot(120);
    a.record_timeout_slot(140);
    b.record_timeout_slot(140);
    b.record_timeout_slot(120);
    b.record_timeout_slot(140);
    assert_eq!(a.multiplier(), Multiplier::Power(10));
    assert_eq!(b.multiplier(), Multiplier::Power(10));
}

#[test]
fn standstill_constants() {
    assert_eq!(delta_standstill(), Duration::from_millis(10_000));
    assert_eq!(max_standstill_timeout(), Duration::from_secs(3600));
}

#[test]
fn a_base_beyond_the_longest_timeout_is_capped() {
    let beyond = Duration::from_secs(7200);
    let longest = max_standstill_timeout();
    let mut s = StandstillSignal::new();
    assert_eq!(s.scale(beyond, product), longest);
    s.set(0);
    assert_eq!(s.scale(beyond, product), longest);
    s.record_timeout_slot(8);
    assert_eq!(s.scale(beyond, product), longest);
    assert_eq!(scale_standstill_timeout(beyond, 8, None, product), longest);
    assert_eq!(
        scale_standstill_timeout(beyond, 8, Some(0), product),
        longest
    );
}

#[test]
fn the_highest_recorded_slot_decides() {
    let base = Duration::from_millis(1_000);
    let mut s = StandstillSignal::new();
    s.set(100);
    assert_eq!(s.scale(base, product), base);
    for slot in [112, 104, 140, 99, 131] {
        s.record_timeout_slot(slot);
    }
    assert_eq!(s.multiplier(), Multiplier::Power(10));
    assert_eq!(
        s.scale(base, product),
        scale_standstill_timeout(base, 140, Some(100), product)
    );
}

#[test]
fn later_slots_and_longer_bases_give_no_shorter_timeouts() {
    let longest = max_standstill_timeout();
    for base in [0, 1, 19, 750_000_000, 3_599_999_999_999, 3_600_000_000_000] {
        let base = Duration::from_nanos(base).unwrap();
        let longer = Duration::from_nanos(base.as_nanos() + 1).unwrap();
        let mut s = StandstillSignal::new();
        s.set(10);
        let mut last = base;
        for slot in 0..2_000 {
            let timeout = scale_standstill_timeout(base, slot, Some(10), product);
            assert!(base <= timeout && last <= timeout && timeout <= longest);
            s.record_timeout_slot(slot);
            assert_eq!(s.scale(base, product), timeout);
            assert!(timeout <= s.scale(longer, product));
            last = timeout;
        }
    }
}
