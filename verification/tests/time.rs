use votor::time::{Duration, Instant, MAX_NANOS};

#[test]
fn spans_in_their_units() {
    assert_eq!(Duration::from_secs(2).as_nanos(), 2_000_000_000);
    assert_eq!(Duration::from_millis(2).as_nanos(), 2_000_000);
    assert_eq!(Duration::from_micros(2).as_nanos(), 2_000);
    assert_eq!(Duration::from_nanos(1_999).unwrap().as_micros(), 1);
    assert_eq!(Duration::from_nanos(1_999_999).unwrap().as_millis(), 1);
}

#[test]
fn longest_span_is_that_of_the_standard_library() {
    assert_eq!(MAX_NANOS, std::time::Duration::MAX.as_nanos());
    assert_eq!(
        Duration::from_nanos(MAX_NANOS).unwrap().as_nanos(),
        MAX_NANOS
    );
    assert_eq!(Duration::from_nanos(MAX_NANOS + 1), None);
    assert_eq!(
        Duration::from_secs(u64::MAX).checked_mul(1),
        Some(Duration::from_secs(u64::MAX))
    );
    assert_eq!(Duration::from_secs(u64::MAX).checked_mul(2), None);
}

#[test]
fn points_and_spans() {
    let point = Instant::since_epoch(Duration::from_secs(5));
    let later = point.checked_add(Duration::from_secs(2)).unwrap();
    assert_eq!(later, Instant::since_epoch(Duration::from_secs(7)));
    assert!(point.is_before(later));
    assert!(!later.is_before(point));
    assert!(!point.is_before(point));
    assert_eq!(later.checked_sub(Duration::from_secs(2)), Some(point));
    assert_eq!(point.checked_sub(Duration::from_secs(6)), None);
    assert_eq!(
        later.saturating_duration_since(point),
        Duration::from_secs(2)
    );
    assert_eq!(
        point.saturating_duration_since(later),
        Duration::from_secs(0)
    );
    let last = Instant::since_epoch(Duration::from_nanos(MAX_NANOS).unwrap());
    assert_eq!(last.checked_add(Duration::from_nanos(1).unwrap()), None);
}
