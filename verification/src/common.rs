//! Constants and rules of the consensus protocol.

use crate::leader_schedule::num_consecutive_leader_slots;
use crate::messages::{CertificateType, Fraction, Vote, VoteType};
use crate::multiplier::Multiplier;
use crate::time::Duration;
use solana_clock::Slot;
use vstd::arithmetic::power::pow;
use vstd::prelude::*;

verus! {

/// Core consensus types and constants
pub type Stake = u64;

/// The vote types that a validator may not cast for a slot once it has cast `vote_type`.
pub open spec fn conflicts(vote_type: VoteType) -> Seq<VoteType> {
    match vote_type {
        VoteType::Finalize => seq![
            VoteType::NotarizeFallback,
            VoteType::Skip,
            VoteType::SkipFallback,
        ],
        VoteType::Notarize => seq![VoteType::Skip, VoteType::NotarizeFallback],
        VoteType::NotarizeFallback => seq![VoteType::Finalize, VoteType::Notarize],
        VoteType::Skip => seq![VoteType::Finalize, VoteType::Notarize, VoteType::SkipFallback],
        VoteType::SkipFallback => seq![VoteType::Skip, VoteType::Finalize],
        VoteType::Genesis => seq![
            VoteType::Finalize,
            VoteType::Notarize,
            VoteType::NotarizeFallback,
            VoteType::Skip,
            VoteType::SkipFallback,
        ],
    }
}

/// The types of votes that conflict with one of `vote_type`.
pub fn conflicting_types(vote_type: VoteType) -> (types: &'static [VoteType])
    ensures
        types@ == conflicts(vote_type),
{
    match vote_type {
        VoteType::Finalize => &[
            VoteType::NotarizeFallback,
            VoteType::Skip,
            VoteType::SkipFallback,
        ],
        VoteType::Notarize => &[VoteType::Skip, VoteType::NotarizeFallback],
        VoteType::NotarizeFallback => &[VoteType::Finalize, VoteType::Notarize],
        VoteType::Skip => &[VoteType::Finalize, VoteType::Notarize, VoteType::SkipFallback],
        VoteType::SkipFallback => &[VoteType::Skip, VoteType::Finalize],
        VoteType::Genesis => &[
            VoteType::Finalize,
            VoteType::Notarize,
            VoteType::NotarizeFallback,
            VoteType::Skip,
            VoteType::SkipFallback,
        ],
    }
}

/// No vote type conflicts with itself, and none is listed twice.
pub proof fn conflicts_are_distinct_others(vote_type: VoteType)
    ensures
        !conflicts(vote_type).contains(vote_type),
        conflicts(vote_type).no_duplicates(),
{
}

/// Conflicts go both ways between the vote types that are cast once the protocol runs.
pub proof fn conflicts_go_both_ways(a: VoteType, b: VoteType)
    requires
        a != VoteType::Genesis,
        b != VoteType::Genesis,
    ensures
        conflicts(a).contains(b) <==> conflicts(b).contains(a),
{
    conflicts_listed(a, b);
    conflicts_listed(b, a);
}

/// A genesis vote conflicts with every vote of another type.
pub proof fn genesis_conflicts_with_all_others(vote_type: VoteType)
    ensures
        conflicts(VoteType::Genesis).contains(vote_type) <==> vote_type != VoteType::Genesis,
{
    conflicts_listed(VoteType::Genesis, vote_type);
}

/// A list of conflicts holds a vote type if and only if one of its places does.
proof fn conflicts_listed(a: VoteType, b: VoteType)
    ensures
        conflicts(a).contains(b) <==> {
            ||| conflicts(a).len() > 0 && conflicts(a)[0] == b
            ||| conflicts(a).len() > 1 && conflicts(a)[1] == b
            ||| conflicts(a).len() > 2 && conflicts(a)[2] == b
            ||| conflicts(a).len() > 3 && conflicts(a)[3] == b
            ||| conflicts(a).len() > 4 && conflicts(a)[4] == b
        },
{
}

/// The certificates that a vote counts towards.
pub open spec fn certificates_of(vote: Vote) -> Seq<CertificateType> {
    match vote {
        Vote::Notarize(vote) => seq![
            CertificateType::Notarize(vote.slot, vote.block_id),
            CertificateType::NotarizeFallback(vote.slot, vote.block_id),
            CertificateType::FinalizeFast(vote.slot, vote.block_id),
        ],
        Vote::NotarizeFallback(vote) => seq![
            CertificateType::NotarizeFallback(vote.slot, vote.block_id),
        ],
        Vote::Finalize(vote) => seq![CertificateType::Finalize(vote.slot)],
        Vote::Skip(vote) => seq![CertificateType::Skip(vote.slot)],
        Vote::SkipFallback(vote) => seq![CertificateType::Skip(vote.slot)],
        Vote::Genesis(vote) => seq![CertificateType::Genesis(vote.slot, vote.block_id)],
    }
}

/// Lookup from `Vote` to the certificates the vote accounts for.
pub fn vote_to_cert_types(vote: &Vote) -> (types: Vec<CertificateType>)
    ensures
        types@ == certificates_of(*vote),
{
    match vote {
        Vote::Notarize(vote) => vec![
            CertificateType::Notarize(vote.slot, vote.block_id),
            CertificateType::NotarizeFallback(vote.slot, vote.block_id),
            CertificateType::FinalizeFast(vote.slot, vote.block_id),
        ],
        Vote::NotarizeFallback(vote) => vec![
            CertificateType::NotarizeFallback(vote.slot, vote.block_id),
        ],
        Vote::Finalize(vote) => vec![CertificateType::Finalize(vote.slot)],
        Vote::Skip(vote) => vec![CertificateType::Skip(vote.slot)],
        Vote::SkipFallback(vote) => vec![CertificateType::Skip(vote.slot)],
        Vote::Genesis(vote) => vec![CertificateType::Genesis(vote.slot, vote.block_id)],
    }
}

/// A vote counts towards at least one certificate and towards none twice, and each of them is
/// for the slot and the block that the vote is cast for.
pub proof fn certificates_match_the_vote(vote: Vote, certificate: CertificateType)
    ensures
        certificates_of(vote).len() > 0,
        certificates_of(vote).no_duplicates(),
        certificates_of(vote).contains(certificate) ==> certificate.slot() == vote.slot()
            && certificate.block_id() == vote.block_id(),
{
}

/// A notarization vote counts towards every certificate that a notarization fallback vote for
/// the same block counts towards, and a skip vote towards those of a skip fallback vote.
pub proof fn fallback_votes_add_no_certificates(
    notarize: crate::messages::NotarizationVote,
    notarize_fallback: crate::messages::NotarizationFallbackVote,
    skip: crate::messages::SkipVote,
    skip_fallback: crate::messages::SkipFallbackVote,
    certificate: CertificateType,
)
    requires
        notarize.slot == notarize_fallback.slot,
        notarize.block_id == notarize_fallback.block_id,
        skip.slot == skip_fallback.slot,
    ensures
        certificates_of(Vote::NotarizeFallback(notarize_fallback)).contains(certificate)
            ==> certificates_of(Vote::Notarize(notarize)).contains(certificate),
        certificates_of(Vote::SkipFallback(skip_fallback)) == certificates_of(Vote::Skip(skip)),
{
    assert(certificates_of(Vote::Notarize(notarize))[1] == CertificateType::NotarizeFallback(
        notarize.slot,
        notarize.block_id,
    ));
}

pub const MAX_ENTRIES_PER_PUBKEY_FOR_OTHER_TYPES: usize = 1;
pub const MAX_ENTRIES_PER_PUBKEY_FOR_NOTARIZE_LITE: usize = 3;
pub const MAX_NOTAR_FALLBACK_BLOCKS: usize = 7;

/// Share of notarize votes for a block that is enough for it to be safe to notarize.
pub fn safe_to_notar_min_notarize_only() -> (share: Fraction)
    ensures
        share == (Fraction { numerator: 40, denominator: 100 }),
{
    Fraction::from_percentage(40)
}

/// Share of notarize votes for a block that is needed where skip votes are counted too.
pub fn safe_to_notar_min_notarize_for_notarize_or_skip() -> (share: Fraction)
    ensures
        share == (Fraction { numerator: 20, denominator: 100 }),
{
    Fraction::from_percentage(20)
}

/// Share of notarize and skip votes together that is needed where both are counted.
pub fn safe_to_notar_min_notarize_and_skip() -> (share: Fraction)
    ensures
        share == (Fraction { numerator: 60, denominator: 100 }),
{
    Fraction::from_percentage(60)
}

/// Share of votes from which on it is safe to skip.
pub fn safe_to_skip_threshold() -> (share: Fraction)
    ensures
        share == (Fraction { numerator: 40, denominator: 100 }),
{
    Fraction::from_percentage(40)
}

/// Time bound assumed on network transmission delays during periods of synchrony.
pub fn delta() -> (span: Duration)
    ensures
        span@ == 250_000_000,
{
    Duration::from_millis(250)
}

/// Base timeout for when leader's first slice should arrive if they sent it immediately.
pub fn delta_timeout() -> (span: Duration)
    ensures
        span@ == 750_000_000,
{
    delta().checked_mul(3).unwrap()
}

/// Timeout for standstill detection mechanism.
pub fn delta_standstill() -> (span: Duration)
    ensures
        span@ == 10_000_000_000,
{
    Duration::from_millis(10_000)
}

/// [`max_standstill_timeout`] in nanoseconds.
pub const MAX_STANDSTILL_TIMEOUT_NANOS: u128 = 3_600_000_000_000;

/// The longest a timeout may grow to during a standstill: one hour.
pub fn max_standstill_timeout() -> (span: Duration)
    ensures
        span@ == MAX_STANDSTILL_TIMEOUT_NANOS,
{
    Duration::from_secs(3600)
}

/// Stored in place of a slot while there is no standstill.
const NO_STANDSTILL: u64 = u64::MAX;

/// Signal for standstill state under unknown network DELTA.
///
/// Holds either no active standstill, or the highest finalized slot at the moment standstill
/// was first detected. Read by every subsystem that needs to scale its network-DELTA-derived
/// timeouts (votor timer manager, repair). Its view is what it holds.
#[derive(Debug)]
pub struct StandstillSignal {
    inner: u64,
}

impl View for StandstillSignal {
    type V = Option<Slot>;

    closed spec fn view(&self) -> Option<Slot> {
        crate::standstill::stored(self.inner)
    }
}

impl Default for StandstillSignal {
    fn default() -> (signal: StandstillSignal)
        ensures
            signal@ is None,
    {
        StandstillSignal::new()
    }
}

impl StandstillSignal {
    /// No standstill.
    pub fn new() -> (signal: StandstillSignal)
        ensures
            signal@ is None,
    {
        StandstillSignal { inner: NO_STANDSTILL }
    }

    /// The highest finalized slot when the standstill began, if there is a standstill.
    pub fn get(&self) -> (slot: Option<Slot>)
        ensures
            slot == self@,
    {
        if self.inner == NO_STANDSTILL {
            None
        } else {
            Some(self.inner)
        }
    }

    /// Starts a standstill.
    pub fn set(&mut self, slot: Slot)
        ensures
            final(self)@ == crate::standstill::stored(slot),
    {
        self.inner = slot;
    }

    /// Ends the standstill.
    pub fn clear(&mut self)
        ensures
            final(self)@ is None,
    {
        self.inner = NO_STANDSTILL;
    }
}

/// Leader windows that have passed from `standstill_slot` to `slot`, none if `slot` comes first.
pub open spec fn windows_since(standstill_slot: Slot, slot: Slot) -> nat {
    if standstill_slot <= slot {
        ((slot - standstill_slot) / crate::leader_schedule::window_slots()) as nat
    } else {
        0
    }
}

/// The multiplier for a timeout of `slot`, `1.05^0` outside a standstill.
pub open spec fn timeout_multiplier(slot: Slot, standstill_slot: Option<Slot>) -> Multiplier {
    match standstill_slot {
        None => Multiplier::Power(0),
        Some(standstill_slot) => crate::multiplier::multiplier_after(
            windows_since(standstill_slot, slot),
        ),
    }
}

/// Multiplier applied to network-DELTA-derived timeouts under unknown DELTA.
pub fn calculate_timeout_multiplier(slot: Slot, standstill_slot: Option<Slot>) -> (multiplier:
    Multiplier)
    ensures
        multiplier == timeout_multiplier(slot, standstill_slot),
{
    match standstill_slot {
        None => Multiplier::Power(0),
        Some(standstill_slot) => {
            let slots_since_standstill: u64 = slot.saturating_sub(standstill_slot);
            let leader_windows: u64 = slots_since_standstill / num_consecutive_leader_slots();
            if leader_windows <= i32::MAX as u64 {
                Multiplier::Power(leader_windows as i32)
            } else {
                Multiplier::Infinite
            }
        },
    }
}

/// What a scaled timeout becomes under the cap: the cap itself where it is longer or has no
/// finite value.
pub open spec fn capped_at_max(scaled: Option<Duration>) -> nat {
    crate::multiplier::cut_off(scaled, MAX_STANDSTILL_TIMEOUT_NANOS as nat)
}

/// Caps a scaled timeout at [`max_standstill_timeout`].
pub fn cap_timeout(scaled: Option<Duration>) -> (timeout: Duration)
    ensures
        timeout@ == capped_at_max(scaled),
{
    let longest = max_standstill_timeout();
    match scaled {
        None => longest,
        Some(span) => if span.as_nanos() < longest.as_nanos() {
            span
        } else {
            longest
        },
    }
}

/// Whether `timeout` can be what `base` comes to when it is scaled for `slot` and capped.
pub open spec fn timeout_scales_to<F: Fn(Duration, i32) -> Option<Duration>>(
    product: F,
    base: Duration,
    slot: Slot,
    standstill_slot: Option<Slot>,
    timeout: Duration,
) -> bool {
    exists|scaled: Option<Duration>|
        #[trigger] crate::multiplier::scales_to(
            product,
            base,
            timeout_multiplier(slot, standstill_slot),
            scaled,
        ) && timeout@ == capped_at_max(scaled)
}

/// Scales a base timeout by the standstill multiplier and caps it at
/// [`max_standstill_timeout`]. See [`Multiplier::scale`] for `product`.
pub fn scale_standstill_timeout<F: Fn(Duration, i32) -> Option<Duration>>(
    base: Duration,
    slot: Slot,
    standstill_slot: Option<Slot>,
    product: F,
) -> (timeout: Duration)
    requires
        crate::multiplier::can_scale(product, base, timeout_multiplier(slot, standstill_slot)),
    ensures
        timeout_scales_to(product, base, slot, standstill_slot, timeout),
{
    let multiplier = calculate_timeout_multiplier(slot, standstill_slot);
    let scaled = multiplier.scale(base, product);
    cap_timeout(scaled)
}

/// A scaled timeout never exceeds the longest standstill timeout.
pub proof fn scaled_timeout_is_capped<F: Fn(Duration, i32) -> Option<Duration>>(
    product: F,
    base: Duration,
    slot: Slot,
    standstill_slot: Option<Slot>,
    timeout: Duration,
)
    requires
        timeout_scales_to(product, base, slot, standstill_slot, timeout),
    ensures
        timeout@ <= MAX_STANDSTILL_TIMEOUT_NANOS,
{
}

/// A timeout up to the longest one is not scaled outside a standstill, nor for a slot no later
/// than the standstill.
pub proof fn timeout_is_kept_without_elapsed_windows<F: Fn(Duration, i32) -> Option<Duration>>(
    product: F,
    base: Duration,
    slot: Slot,
    standstill_slot: Option<Slot>,
    timeout: Duration,
)
    requires
        base@ <= MAX_STANDSTILL_TIMEOUT_NANOS,
        standstill_slot is Some ==> slot <= standstill_slot->0,
        timeout_scales_to(product, base, slot, standstill_slot, timeout),
    ensures
        timeout@ == base@,
{
}

/// The exponent of the multiplier never falls from a slot to a later one, rises by one from a
/// leader window to the next while it fits, and the multiplier stays infinite once it is. It is
/// infinite for no slot that comes before the exponent would exceed an `i32`.
pub proof fn multiplier_grows_window_by_window(slot: Slot, later: Slot, standstill_slot: Slot)
    requires
        slot <= later,
    ensures
        match (
            timeout_multiplier(slot, Some(standstill_slot)),
            timeout_multiplier(later, Some(standstill_slot)),
        ) {
            (Multiplier::Power(exponent), Multiplier::Power(later_exponent)) => {
                &&& 0 <= exponent <= later_exponent
                &&& standstill_slot <= slot && later - slot
                    == crate::leader_schedule::window_slots() ==> later_exponent == exponent + 1
                &&& standstill_slot <= slot && later - slot == 4 ==> later_exponent == exponent + 1
                &&& later < slot + 4 ==> later_exponent <= exponent + 1
                &&& slot < standstill_slot + 4 ==> exponent == 0
            },
            (_, Multiplier::Infinite) => later - standstill_slot >= 4 * 0x8000_0000,
            (Multiplier::Infinite, Multiplier::Power(_)) => false,
        },
{
}

/// Where the product never falls, a timeout is no shorter for a later slot or a longer base, and
/// stays between its base and the longest standstill timeout.
pub proof fn later_slots_give_no_shorter_timeouts<F: Fn(Duration, i32) -> Option<Duration>>(
    product: F,
    base: Duration,
    slot: Slot,
    timeout: Duration,
    longer: Duration,
    later: Slot,
    later_timeout: Duration,
    standstill_slot: Option<Slot>,
)
    requires
        crate::multiplier::never_falls(product),
        base@ <= longer@,
        slot <= later,
        timeout_scales_to(product, base, slot, standstill_slot, timeout),
        timeout_scales_to(product, longer, later, standstill_slot, later_timeout),
    ensures
        timeout@ <= later_timeout@ <= MAX_STANDSTILL_TIMEOUT_NANOS,
        base@ <= MAX_STANDSTILL_TIMEOUT_NANOS ==> base@ <= timeout@,
{
    let multiplier = timeout_multiplier(slot, standstill_slot);
    let higher = timeout_multiplier(later, standstill_slot);
    let scaled = choose|scaled: Option<Duration>| #[trigger]
        crate::multiplier::scales_to(product, base, multiplier, scaled) && timeout@
            == capped_at_max(scaled);
    let later_scaled = choose|scaled: Option<Duration>| #[trigger]
        crate::multiplier::scales_to(product, longer, higher, scaled) && later_timeout@
            == capped_at_max(scaled);
    if standstill_slot is Some {
        multiplier_grows_window_by_window(slot, later, standstill_slot->0);
    }
    crate::multiplier::scaled_span_never_falls(
        product,
        base,
        multiplier,
        scaled,
        longer,
        higher,
        later_scaled,
    );
}

/// A timeout grows by 5% for each leader window that has passed, up to the longest standstill
/// timeout: it is off from `base * 1.05^n`, cut off there, by no more than the product is.
///
/// All amounts are multiplied by `20^n`, of which `1.05^n` is `21^n`.
pub proof fn scaled_timeout_grows_by_five_percent_per_window<
    F: Fn(Duration, i32) -> Option<Duration>,
>(
    product: F,
    base: Duration,
    slot: Slot,
    standstill_slot: Slot,
    timeout: Duration,
    error: nat,
)
    requires
        windows_since(standstill_slot, slot) <= i32::MAX,
        crate::multiplier::is_accurate(
            product,
            base,
            windows_since(standstill_slot, slot) as i32,
            error,
            MAX_STANDSTILL_TIMEOUT_NANOS as nat,
        ),
        timeout_scales_to(product, base, slot, Some(standstill_slot), timeout),
    ensures
        ({
            let n = windows_since(standstill_slot, slot);
            let unit = pow(20, n);
            let grown = base@ * pow(21, n);
            let longest = MAX_STANDSTILL_TIMEOUT_NANOS * unit;
            crate::multiplier::near(
                timeout@ * unit,
                if grown <= longest {
                    grown
                } else {
                    longest
                },
                error * unit,
            )
        }),
{
    let n = windows_since(standstill_slot, slot) as i32;
    let longest = MAX_STANDSTILL_TIMEOUT_NANOS as nat;
    let multiplier = timeout_multiplier(slot, Some(standstill_slot));
    let scaled = choose|scaled: Option<Duration>| #[trigger]
        crate::multiplier::scales_to(product, base, multiplier, scaled) && timeout@
            == capped_at_max(scaled);
    crate::multiplier::cut_off_product_is_accurate(product, base, n, scaled, error, longest);
}

/// Which vote types conflict: a skip or a finalization with what speaks for the other, a
/// notarization with a skip or with a notarization of another block as a fallback, the two ways to
/// skip with one another, and a genesis vote with all others. Nothing else conflicts, and nothing
/// is listed twice.
pub proof fn conflicting_pairs(a: VoteType, b: VoteType, types: &'static [VoteType])
    requires
        call_ensures(conflicting_types, (a,), types),
    ensures
        types@.no_duplicates(),
        types@.contains(b) <==> {
            ||| a == VoteType::Genesis && b != VoteType::Genesis
            ||| a == VoteType::Finalize && b == VoteType::NotarizeFallback
            ||| a == VoteType::NotarizeFallback && b == VoteType::Finalize
            ||| a == VoteType::Finalize && b == VoteType::Skip
            ||| a == VoteType::Skip && b == VoteType::Finalize
            ||| a == VoteType::Finalize && b == VoteType::SkipFallback
            ||| a == VoteType::SkipFallback && b == VoteType::Finalize
            ||| a == VoteType::Notarize && b == VoteType::Skip
            ||| a == VoteType::Skip && b == VoteType::Notarize
            ||| a == VoteType::Notarize && b == VoteType::NotarizeFallback
            ||| a == VoteType::NotarizeFallback && b == VoteType::Notarize
            ||| a == VoteType::Skip && b == VoteType::SkipFallback
            ||| a == VoteType::SkipFallback && b == VoteType::Skip
        },
{
    conflicts_listed(a, b);
}

/// Which votes count towards each certificate. A fast finalization and a notarization take the
/// notarization votes for the block, a notarization fallback also takes the fallback votes for it,
/// a finalization takes the finalization votes for the slot, a skip the skip votes and the skip
/// fallback votes for the slot, and a genesis certificate the genesis votes for the block. A vote
/// counts once towards each, and the certificates of a notarization vote are listed in the order
/// notarization, notarization fallback, fast finalization.
pub proof fn votes_that_count(
    vote: Vote,
    types: Vec<CertificateType>,
    slot: Slot,
    block_id: crate::messages::Hash,
)
    requires
        call_ensures(vote_to_cert_types, (&vote,), types),
    ensures
        types@.no_duplicates(),
        types@.contains(CertificateType::FinalizeFast(slot, block_id)) <==> (
        vote matches Vote::Notarize(cast) && cast.slot == slot && cast.block_id == block_id),
        types@.contains(CertificateType::Notarize(slot, block_id)) <==> (
        vote matches Vote::Notarize(cast) && cast.slot == slot && cast.block_id == block_id),
        types@.contains(CertificateType::NotarizeFallback(slot, block_id)) <==> {
            ||| vote matches Vote::Notarize(cast) && cast.slot == slot && cast.block_id == block_id
            ||| vote matches Vote::NotarizeFallback(cast) && cast.slot == slot && cast.block_id
                == block_id
        },
        types@.contains(CertificateType::Finalize(slot)) <==> (vote matches Vote::Finalize(cast)
            && cast.slot == slot),
        types@.contains(CertificateType::Skip(slot)) <==> {
            ||| vote matches Vote::Skip(cast) && cast.slot == slot
            ||| vote matches Vote::SkipFallback(cast) && cast.slot == slot
        },
        types@.contains(CertificateType::Genesis(slot, block_id)) <==> (
        vote matches Vote::Genesis(cast) && cast.slot == slot && cast.block_id == block_id),
        vote is Notarize ==> types@.len() == 3 && types@[0] is Notarize
            && types@[1] is NotarizeFallback && types@[2] is FinalizeFast,
        !(vote is Notarize) ==> types@.len() == 1,
{
    if let Vote::Notarize(cast) = vote {
        assert(types@[0] == CertificateType::Notarize(cast.slot, cast.block_id));
        assert(types@[1] == CertificateType::NotarizeFallback(cast.slot, cast.block_id));
        assert(types@[2] == CertificateType::FinalizeFast(cast.slot, cast.block_id));
    } else {
        assert(types@.contains(types@[0]));
    }
}

/// The base timeout is three times the bound on network delays, and a standstill is detected
/// after ten seconds. The thresholds are what the protocol fixes.
pub proof fn protocol_constants_are_related(
    delay: Duration,
    timeout: Duration,
    detection: Duration,
    longest: Duration,
    notarize: Fraction,
    either: Fraction,
    both: Fraction,
    skip: Fraction,
)
    requires
        call_ensures(delta, (), delay),
        call_ensures(delta_timeout, (), timeout),
        call_ensures(delta_standstill, (), detection),
        call_ensures(max_standstill_timeout, (), longest),
        call_ensures(safe_to_notar_min_notarize_only, (), notarize),
        call_ensures(safe_to_notar_min_notarize_for_notarize_or_skip, (), either),
        call_ensures(safe_to_notar_min_notarize_and_skip, (), both),
        call_ensures(safe_to_skip_threshold, (), skip),
    ensures
        delay@ == 250_000_000,
        timeout@ == 3 * delay@,
        detection@ == 10_000_000_000,
        longest@ == 3_600_000_000_000,
        notarize.denominator == 100 && either.denominator == 100 && both.denominator == 100
            && skip.denominator == 100,
        notarize.numerator == 40 && skip.numerator == 40,
        either.numerator == 20,
        both.numerator == 60,
{
}

/// A signal gives back the slot that it was set with last, but for the highest slot of all, which
/// stands for none. It gives none back while it is new and once it was cleared.
pub proof fn set_slots_are_read_back(
    fresh: StandstillSignal,
    default: StandstillSignal,
    fresh_slot: Option<Slot>,
    default_slot: Option<Slot>,
    set: &mut StandstillSignal,
    slot: Slot,
    set_slot: Option<Slot>,
    cleared: &mut StandstillSignal,
    cleared_slot: Option<Slot>,
)
    requires
        call_ensures(StandstillSignal::new, (), fresh),
        call_ensures(StandstillSignal::get, (&fresh,), fresh_slot),
        call_ensures(<StandstillSignal as Default>::default, (), default),
        call_ensures(StandstillSignal::get, (&default,), default_slot),
        call_ensures(StandstillSignal::set, (set, slot), ()),
        call_ensures(StandstillSignal::get, (&*final(set),), set_slot),
        call_ensures(StandstillSignal::clear, (cleared,), ()),
        call_ensures(StandstillSignal::get, (&*final(cleared),), cleared_slot),
    ensures
        fresh_slot is None,
        default_slot is None,
        slot < 0xffff_ffff_ffff_ffff ==> set_slot == Some(slot),
        slot == 0xffff_ffff_ffff_ffff ==> set_slot is None,
        cleared_slot is None,
{
}

/// The exponent of the multiplier is the number of whole groups of four slots that have passed
/// since the standstill. It is zero outside a standstill and before it, and the multiplier is
/// infinite exactly where that number exceeds an `i32`.
pub proof fn multiplier_counts_groups_of_four_slots(
    slot: Slot,
    standstill_slot: Slot,
    outside: Multiplier,
    multiplier: Multiplier,
)
    requires
        call_ensures(calculate_timeout_multiplier, (slot, None), outside),
        call_ensures(calculate_timeout_multiplier, (slot, Some(standstill_slot)), multiplier),
    ensures
        outside == Multiplier::Power(0),
        slot <= standstill_slot ==> multiplier == Multiplier::Power(0),
        standstill_slot <= slot && slot - standstill_slot < 4 * 0x8000_0000 ==> (
        multiplier matches Multiplier::Power(exponent) && 4 * exponent <= slot - standstill_slot < 4
            * exponent + 4),
        slot - standstill_slot >= 4 * 0x8000_0000 ==> multiplier == Multiplier::Infinite,
{
}

/// The multiplier of a slot is that same number.
pub proof fn timeout_multiplier_counts_groups_of_four_slots(slot: Slot, standstill_slot: Slot)
    ensures
        timeout_multiplier(slot, None) == Multiplier::Power(0),
        slot <= standstill_slot ==> timeout_multiplier(slot, Some(standstill_slot))
            == Multiplier::Power(0),
        standstill_slot <= slot && slot - standstill_slot < 4 * 0x8000_0000 ==> (
        timeout_multiplier(slot, Some(standstill_slot)) matches Multiplier::Power(exponent) && 4
            * exponent <= slot - standstill_slot < 4 * exponent + 4),
        slot - standstill_slot >= 4 * 0x8000_0000 ==> timeout_multiplier(
            slot,
            Some(standstill_slot),
        ) == Multiplier::Infinite,
{
}

/// A timeout is the product of its base and `1.05^n`, or one hour if that is longer or has no
/// finite value, where `n` counts the groups of four slots since the standstill. Where `n` is zero
/// it is the base, up to one hour.
pub proof fn timeout_is_the_capped_product<F: Fn(Duration, i32) -> Option<Duration>>(
    product: F,
    base: Duration,
    slot: Slot,
    standstill_slot: Option<Slot>,
    timeout: Duration,
)
    requires
        timeout_scales_to(product, base, slot, standstill_slot, timeout),
    ensures
        timeout@ <= 3_600_000_000_000,
        standstill_slot is None || slot - standstill_slot->0 < 4 ==> timeout@ == (if base@
            < 3_600_000_000_000 {
            base@
        } else {
            3_600_000_000_000
        }),
        standstill_slot is Some && slot - standstill_slot->0 >= 4 * 0x8000_0000 ==> timeout@
            == 3_600_000_000_000,
        standstill_slot is Some && 4 <= slot - standstill_slot->0 < 4 * 0x8000_0000 ==> exists|
            scaled: Option<Duration>,
        |
            {
                &&& #[trigger] call_ensures(
                    product,
                    (base, ((slot - standstill_slot->0) / 4) as i32),
                    scaled,
                )
                &&& scaled is None ==> timeout@ == 3_600_000_000_000
                &&& scaled is Some && scaled->0@ >= 3_600_000_000_000 ==> timeout@
                    == 3_600_000_000_000
                &&& scaled is Some && scaled->0@ < 3_600_000_000_000 ==> timeout@ == scaled->0@
            },
{
    let multiplier = timeout_multiplier(slot, standstill_slot);
    let scaled = choose|scaled: Option<Duration>| #[trigger]
        crate::multiplier::scales_to(product, base, multiplier, scaled) && timeout@
            == capped_at_max(scaled);
    assert(crate::multiplier::scales_to(product, base, multiplier, scaled));
}

/// Scaling a timeout gives that product, and may be done wherever the product may be asked for.
pub proof fn scaling_gives_the_capped_product<F: Fn(Duration, i32) -> Option<Duration>>(
    product: F,
    base: Duration,
    slot: Slot,
    standstill_slot: Option<Slot>,
    timeout: Duration,
)
    requires
        call_ensures(
            scale_standstill_timeout::<F>,
            (base, slot, standstill_slot, product),
            timeout,
        ),
    ensures
        timeout@ <= 3_600_000_000_000,
        standstill_slot is None || slot - standstill_slot->0 < 4 ==> timeout@ == (if base@
            < 3_600_000_000_000 {
            base@
        } else {
            3_600_000_000_000
        }),
        standstill_slot is Some && slot - standstill_slot->0 >= 4 * 0x8000_0000 ==> timeout@
            == 3_600_000_000_000,
        standstill_slot is Some && 4 <= slot - standstill_slot->0 < 4 * 0x8000_0000 ==> exists|
            scaled: Option<Duration>,
        |
            {
                &&& #[trigger] call_ensures(
                    product,
                    (base, ((slot - standstill_slot->0) / 4) as i32),
                    scaled,
                )
                &&& scaled is None ==> timeout@ == 3_600_000_000_000
                &&& scaled is Some && scaled->0@ >= 3_600_000_000_000 ==> timeout@
                    == 3_600_000_000_000
                &&& scaled is Some && scaled->0@ < 3_600_000_000_000 ==> timeout@ == scaled->0@
            },
        (standstill_slot is Some && 4 <= slot - standstill_slot->0 < 4 * 0x8000_0000
            ==> call_requires(product, (base, ((slot - standstill_slot->0) / 4) as i32)))
            ==> call_requires(
            scale_standstill_timeout::<F>,
            (base, slot, standstill_slot, product),
        ),
{
    timeout_is_the_capped_product(product, base, slot, standstill_slot, timeout);
}

/// A capped timeout is the scaled one if that is finite and shorter than one hour, and one hour
/// otherwise.
pub proof fn capped_timeouts_end_at_one_hour(scaled: Option<Duration>, timeout: Duration)
    requires
        call_ensures(cap_timeout, (scaled,), timeout),
    ensures
        scaled is None ==> timeout@ == 3_600_000_000_000,
        scaled matches Some(span) ==> {
            &&& timeout@ <= span@
            &&& timeout@ <= 3_600_000_000_000
            &&& timeout@ == span@ || timeout@ == 3_600_000_000_000
        },
{
}

} // verus!
