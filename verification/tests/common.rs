use votor::common::{
    calculate_timeout_multiplier, cap_timeout, conflicting_types, delta, delta_standstill,
    delta_timeout, max_standstill_timeout, safe_to_notar_min_notarize_and_skip,
    safe_to_notar_min_notarize_for_notarize_or_skip, safe_to_notar_min_notarize_only,
    safe_to_skip_threshold, scale_standstill_timeout, vote_to_cert_types, StandstillSignal,
    MAX_ENTRIES_PER_PUBKEY_FOR_NOTARIZE_LITE, MAX_ENTRIES_PER_PUBKEY_FOR_OTHER_TYPES,
    MAX_NOTAR_FALLBACK_BLOCKS,
};
use votor::leader_schedule::last_of_consecutive_leader_slots;
use votor::messages::{
    CertificateType, FinalizationVote, Fraction, GenesisVote, NotarizationFallbackVote,
    NotarizationVote, SkipFallbackVote, SkipVote, Vote, VoteType,
};
use votor::multiplier::Multiplier;
use votor::time::{Duration, MAX_NANOS};

/// The value of a multiplier.
fn value(multiplier: Multiplier) -> f64 {
    match multiplier {
        Multiplier::Power(exponent) => 1.05_f64.powi(exponent),
        Multiplier::Infinite => f64::INFINITY,
    }
}

/// `base` times `1.05^exponent`.
fn product(base: Duration, exponent: i32) -> Option<Duration> {
    let multiplier = 1.05_f64.powi(exponent);
    if !multiplier.is_finite() {
        return None;
    }
    let secs = (base.as_nanos() / 1_000_000_000) as u64;
    let nanos = (base.as_nanos() % 1_000_000_000) as u32;
    let scaled_secs = std::time::Duration::new(secs, nanos).as_secs_f64() * multiplier;
    match std::time::Duration::try_from_secs_f64(scaled_secs) {
        Ok(span) => Duration::from_nanos(span.as_nanos()),
        Err(_) => Duration::from_nanos(MAX_NANOS),
    }
}

const TYPES: [VoteType; 6] = [
    VoteType::Finalize,
    VoteType::Notarize,
    VoteType::NotarizeFallback,
    VoteType::Skip,
    VoteType::SkipFallback,
    VoteType::Genesis,
];

#[test]
fn common_test_calculate_timeout_multiplier() {
    // No standstill - multiplier is 1.0.
    assert_eq!(value(calculate_timeout_multiplier(100, None)), 1.0);

    // At standstill_slot itself - 0 leader windows elapsed.
    assert_eq!(value(calculate_timeout_multiplier(0, Some(0))), 1.0);

    // 4 slots = 1 leader window = 1.05^1.
    let m = value(calculate_timeout_multiplier(4, Some(0)));
    assert!((m - 1.05).abs() < 0.001);

    // 8 slots = 2 leader windows = 1.05^2.
    let m = value(calculate_timeout_multiplier(8, Some(0)));
    assert!((m - 1.1025).abs() < 0.001);

    // 40 slots = 10 leader windows = 1.05^10.
    let m = value(calculate_timeout_multiplier(40, Some(0)));
    assert!((m - 1.05_f64.powi(10)).abs() < 0.001);

    // 8 slots after standstill_slot=20.
    let m = value(calculate_timeout_multiplier(28, Some(20)));
    assert!((m - 1.1025).abs() < 0.001);
}

#[test]
fn common_test_standstill_signal() {
    let mut s = StandstillSignal::new();
    assert_eq!(s.get(), None);
    s.set(42);
    assert_eq!(s.get(), Some(42));
    s.set(100);
    assert_eq!(s.get(), Some(100));
    s.clear();
    assert_eq!(s.get(), None);
}

#[test]
fn common_test_scale_standstill_timeout_caps() {
    let base = delta_timeout();
    // Without standstill, no scaling.
    assert_eq!(scale_standstill_timeout(base, 100, None, product), base);
    // With absurdly large window count, capped at the longest timeout.
    let capped = scale_standstill_timeout(base, 4 * 400, Some(0), product);
    assert_eq!(capped, max_standstill_timeout());
}

#[test]
fn signal_without_standstill() {
    let mut s = StandstillSignal::default();
    assert_eq!(s.get(), None);
    s.set(u64::MAX);
    assert_eq!(s.get(), None);
    s.set(u64::MAX - 1);
    assert_eq!(s.get(), Some(u64::MAX - 1));
}

#[test]
fn multiplier_counts_whole_windows() {
    assert_eq!(
        calculate_timeout_multiplier(103, Some(100)),
        Multiplier::Power(0)
    );
    assert_eq!(
        calculate_timeout_multiplier(107, Some(100)),
        Multiplier::Power(1)
    );
    assert_eq!(
        calculate_timeout_multiplier(50, Some(100)),
        Multiplier::Power(0)
    );
    assert_eq!(
        calculate_timeout_multiplier(u64::MAX, Some(0)),
        Multiplier::Infinite
    );
    assert_eq!(
        calculate_timeout_multiplier(4 * (i32::MAX as u64), Some(0)),
        Multiplier::Power(i32::MAX)
    );
}

#[test]
fn scaled_timeouts_are_capped_without_a_floor() {
    assert_eq!(cap_timeout(None), max_standstill_timeout());
    assert_eq!(
        cap_timeout(Some(Duration::from_secs(4000))),
        max_standstill_timeout()
    );
    assert_eq!(
        cap_timeout(Some(Duration::from_secs(3599))),
        Duration::from_secs(3599)
    );
    // A base beyond the cap is cut down to it, with and without a standstill.
    let long = Duration::from_secs(5000);
    assert_eq!(
        scale_standstill_timeout(long, 1, None, product),
        max_standstill_timeout()
    );
    assert_eq!(
        scale_standstill_timeout(long, 8, Some(0), product),
        max_standstill_timeout()
    );
    assert_eq!(
        scale_standstill_timeout(Duration::from_millis(1_000), 4, Some(0), product),
        Duration::from_millis(1_050)
    );
}

#[test]
fn conflicts_of_each_vote_type() {
    assert_eq!(
        conflicting_types(VoteType::Finalize),
        &[
            VoteType::NotarizeFallback,
            VoteType::Skip,
            VoteType::SkipFallback
        ][..]
    );
    assert_eq!(
        conflicting_types(VoteType::Notarize),
        &[VoteType::Skip, VoteType::NotarizeFallback][..]
    );
    assert_eq!(
        conflicting_types(VoteType::NotarizeFallback),
        &[VoteType::Finalize, VoteType::Notarize][..]
    );
    assert_eq!(
        conflicting_types(VoteType::Skip),
        &[
            VoteType::Finalize,
            VoteType::Notarize,
            VoteType::SkipFallback
        ][..]
    );
    assert_eq!(
        conflicting_types(VoteType::SkipFallback),
        &[VoteType::Skip, VoteType::Finalize][..]
    );
    assert_eq!(
        conflicting_types(VoteType::Genesis),
        &[
            VoteType::Finalize,
            VoteType::Notarize,
            VoteType::NotarizeFallback,
            VoteType::Skip,
            VoteType::SkipFallback
        ][..]
    );
}

#[test]
fn conflicts_are_mutual_but_for_genesis() {
    for a in TYPES {
        assert!(!conflicting_types(a).contains(&a));
        for b in TYPES {
            let forward = conflicting_types(a).contains(&b);
            let backward = conflicting_types(b).contains(&a);
            if a != VoteType::Genesis && b != VoteType::Genesis {
                assert_eq!(forward, backward);
            }
            if a == VoteType::Genesis {
                assert_eq!(forward, b != VoteType::Genesis);
            }
        }
    }
}

#[test]
fn certificates_of_each_vote() {
    let block_id = [7u8; 32];
    let slot = 11;
    assert_eq!(
        vote_to_cert_types(&Vote::Notarize(NotarizationVote { slot, block_id })),
        vec![
            CertificateType::Notarize(11, block_id),
            CertificateType::NotarizeFallback(11, block_id),
            CertificateType::FinalizeFast(11, block_id),
        ]
    );
    assert_eq!(
        vote_to_cert_types(&Vote::NotarizeFallback(NotarizationFallbackVote {
            slot,
            block_id
        })),
        vec![CertificateType::NotarizeFallback(11, block_id)]
    );
    assert_eq!(
        vote_to_cert_types(&Vote::Finalize(FinalizationVote { slot })),
        vec![CertificateType::Finalize(11)]
    );
    assert_eq!(
        vote_to_cert_types(&Vote::Skip(SkipVote { slot })),
        vec![CertificateType::Skip(11)]
    );
    assert_eq!(
        vote_to_cert_types(&Vote::SkipFallback(SkipFallbackVote { slot })),
        vec![CertificateType::Skip(11)]
    );
    assert_eq!(
        vote_to_cert_types(&Vote::Genesis(GenesisVote { slot, block_id })),
        vec![CertificateType::Genesis(11, block_id)]
    );
}

#[test]
fn protocol_constants() {
    assert_eq!(delta(), Duration::from_millis(250));
    assert_eq!(delta_timeout(), Duration::from_millis(750));
    assert_eq!(delta_standstill(), Duration::from_millis(10_000));
    assert_eq!(MAX_ENTRIES_PER_PUBKEY_FOR_OTHER_TYPES, 1);
    assert_eq!(MAX_ENTRIES_PER_PUBKEY_FOR_NOTARIZE_LITE, 3);
    assert_eq!(MAX_NOTAR_FALLBACK_BLOCKS, 7);
    let percent = |numerator| Fraction {
        numerator,
        denominator: 100,
    };
    assert_eq!(safe_to_notar_min_notarize_only(), percent(40));
    assert_eq!(
        safe_to_notar_min_notarize_for_notarize_or_skip(),
        percent(20)
    );
    assert_eq!(safe_to_notar_min_notarize_and_skip(), percent(60));
    assert_eq!(safe_to_skip_threshold(), percent(40));
}

#[test]
fn leader_windows_have_four_slots() {
    assert_eq!(last_of_consecutive_leader_slots(0), 3);
    assert_eq!(last_of_consecutive_leader_slots(3), 3);
    assert_eq!(last_of_consecutive_leader_slots(4), 7);
    assert_eq!(last_of_consecutive_leader_slots(6), 7);
    assert_eq!(last_of_consecutive_leader_slots(u64::MAX - 3), u64::MAX);
    assert_eq!(last_of_consecutive_leader_slots(u64::MAX), u64::MAX);
}

#[test]
fn later_slots_and_longer_bases_give_no_shorter_capped_timeouts() {
    let longest = max_standstill_timeout();
    for base in [0, 1, 19, 750_000_000, 3_599_999_999_999, 3_600_000_000_000] {
        let base = Duration::from_nanos(base).unwrap();
        let longer = Duration::from_nanos(base.as_nanos() + 1).unwrap();
        let mut last = base;
        for slot in 0..2_000 {
            let timeout = scale_standstill_timeout(base, slot, Some(10), product);
            assert!(base <= timeout && last <= timeout && timeout <= longest);
            assert!(timeout <= scale_standstill_timeout(longer, slot, Some(10), product));
            last = timeout;
        }
    }
}
