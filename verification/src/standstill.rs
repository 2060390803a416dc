//! The standstill signal, and the timeouts that back off while a standstill lasts.

pub use crate::common::{delta_standstill, max_standstill_timeout};
use crate::leader_schedule::num_consecutive_leader_slots;
use crate::multiplier::Multiplier;
use crate::time::Duration;
use solana_clock::Slot;
use vstd::arithmetic::power::pow;
use vstd::prelude::*;

verus! {

/// Stored in place of a slot while there is no standstill.
const NO_STANDSTILL: u64 = u64::MAX;

/// What a [`StandstillSignal`] tells: the highest finalized slot when the standstill began, if
/// there is one, and how many leader windows the backoff has reached.
pub struct SignalView {
    pub slot: Option<Slot>,
    pub windows: nat,
}

/// The slot that is read back once `slot` has been stored: the highest slot of all stands for
/// no standstill.
pub open spec fn stored(slot: Slot) -> Option<Slot> {
    if slot == u64::MAX {
        None
    } else {
        Some(slot)
    }
}

/// Leader windows from `standstill_slot` to `slot`, up to as many as a `u32` can count.
pub open spec fn counted_windows(standstill_slot: Slot, slot: Slot) -> nat {
    let windows = crate::common::windows_since(standstill_slot, slot);
    if windows <= u32::MAX {
        windows
    } else {
        u32::MAX as nat
    }
}

impl SignalView {
    /// There is no standstill.
    pub open spec fn quiet() -> SignalView {
        SignalView { slot: None, windows: 0 }
    }

    /// A standstill has just been detected, with `slot` the highest finalized one.
    pub open spec fn started(slot: Slot) -> SignalView {
        SignalView { slot: stored(slot), windows: 0 }
    }

    /// A timeout has been armed for `slot`.
    pub open spec fn recorded(self, slot: Slot) -> SignalView {
        match self.slot {
            Some(standstill_slot) if self.windows < counted_windows(
                standstill_slot,
                slot,
            ) => SignalView { windows: counted_windows(standstill_slot, slot), ..self },
            _ => self,
        }
    }

    /// Timeouts have been armed for `slots`, one after the other.
    pub open spec fn all_recorded(self, slots: Seq<Slot>) -> SignalView
        decreases slots.len(),
    {
        if slots.len() == 0 {
            self
        } else {
            self.all_recorded(slots.drop_last()).recorded(slots.last())
        }
    }

    /// The factor for timeouts.
    pub open spec fn multiplier(self) -> Multiplier {
        match self.slot {
            None => Multiplier::Power(0),
            Some(_) => crate::multiplier::multiplier_after(self.windows),
        }
    }
}

/// Signal for standstill state under unknown network DELTA.
///
/// Holds the highest finalized slot at the moment standstill was first detected (or no active
/// standstill), plus the backoff reached so far. Read by every subsystem that needs to scale
/// its network-DELTA-derived timeouts.
///
/// The backoff is published by votor via [`Self::record_timeout_slot`] as it arms each skip
/// timeout, and consumed by other subsystems via [`Self::scale`]. Votor's timer is the only
/// component that reliably advances while the cluster is stuck, so it is the authority on how
/// long the standstill has lasted; everyone else inherits that curve instead of deriving one
/// from their own local progress.
#[derive(Debug)]
pub struct StandstillSignal {
    /// Highest finalized slot when standstill began, or [`NO_STANDSTILL`].
    standstill_slot: u64,
    /// Leader windows elapsed since standstill began, as last published by votor.
    /// Zero when no standstill is active.
    backoff_windows: u32,
}

impl View for StandstillSignal {
    type V = SignalView;

    closed spec fn view(&self) -> SignalView {
        SignalView { slot: stored(self.standstill_slot), windows: self.backoff_windows as nat }
    }
}

impl Default for StandstillSignal {
    fn default() -> (signal: StandstillSignal)
        ensures
            signal@ == SignalView::quiet(),
    {
        StandstillSignal::new()
    }
}

impl StandstillSignal {
    #[verifier::type_invariant]
    spec fn no_backoff_without_standstill(self) -> bool {
        self.standstill_slot == NO_STANDSTILL ==> self.backoff_windows == 0
    }

    /// No standstill.
    pub fn new() -> (signal: StandstillSignal)
        ensures
            signal@ == SignalView::quiet(),
    {
        StandstillSignal { standstill_slot: NO_STANDSTILL, backoff_windows: 0 }
    }

    /// The highest finalized slot when the standstill began, if there is a standstill.
    pub fn get(&self) -> (slot: Option<Slot>)
        ensures
            slot == self@.slot,
            slot is None ==> self@.windows == 0,
    {
        proof {
            use_type_invariant(self);
        }
        if self.standstill_slot == NO_STANDSTILL {
            None
        } else {
            Some(self.standstill_slot)
        }
    }

    /// Starts a standstill, with no backoff yet.
    pub fn set(&mut self, slot: Slot)
        ensures
            final(self)@ == SignalView::started(slot),
    {
        *self = StandstillSignal { standstill_slot: slot, backoff_windows: 0 };
    }

    /// Ends the standstill.
    pub fn clear(&mut self)
        ensures
            final(self)@ == SignalView::quiet(),
    {
        *self = StandstillSignal { standstill_slot: NO_STANDSTILL, backoff_windows: 0 };
    }

    /// Publishes the slot votor is arming a timeout for, advancing the shared
    /// backoff. No-op outside standstill, or for a slot that does not advance it.
    pub fn record_timeout_slot(&mut self, slot: Slot)
        ensures
            final(self)@ == old(self)@.recorded(slot),
    {
        let standstill_slot: Slot = match self.get() {
            None => return,
            Some(standstill_slot) => standstill_slot,
        };
        let windows: u32 = leader_windows_between(standstill_slot, slot);
        if self.backoff_windows < windows {
            *self = StandstillSignal { standstill_slot, backoff_windows: windows };
        }
    }

    /// Current backoff multiplier, `1.05^0` outside standstill.
    pub fn multiplier(&self) -> (multiplier: Multiplier)
        ensures
            multiplier == self@.multiplier(),
    {
        match self.get() {
            None => Multiplier::Power(0),
            Some(_) => multiplier_for_windows(self.backoff_windows),
        }
    }

    /// Scales `base` by the current backoff, capped at [`max_standstill_timeout`]. See
    /// [`Multiplier::scale`] for `product`.
    ///
    /// This is the entry point for subsystems other than votor: it reuses the
    /// backoff votor has already reached rather than recomputing one from local
    /// state that may not advance while the cluster is stuck.
    pub fn scale<F: Fn(Duration, i32) -> Option<Duration>>(
        &self,
        base: Duration,
        product: F,
    ) -> (timeout: Duration)
        requires
            crate::multiplier::can_scale(product, base, self@.multiplier()),
        ensures
            clamps_to(product, base, self@.multiplier(), timeout),
    {
        let multiplier = self.multiplier();
        apply_multiplier(base, multiplier.scale(base, product))
    }
}

/// A scaled timeout, moved into the range from `base` to the longest standstill timeout. It is
/// that longest one if it has no finite value, or if there is no such range because `base` is
/// longer still.
pub open spec fn clamped(base: Duration, scaled: Option<Duration>) -> nat {
    let longest = crate::common::MAX_STANDSTILL_TIMEOUT_NANOS as nat;
    let capped = crate::multiplier::cut_off(scaled, longest);
    if base@ > longest {
        longest
    } else if capped < base@ {
        base@
    } else {
        capped
    }
}

/// Whether `timeout` can be what `base` comes to when it is scaled by `multiplier` and clamped.
pub open spec fn clamps_to<F: Fn(Duration, i32) -> Option<Duration>>(
    product: F,
    base: Duration,
    multiplier: Multiplier,
    timeout: Duration,
) -> bool {
    exists|scaled: Option<Duration>| #[trigger]
        crate::multiplier::scales_to(product, base, multiplier, scaled) && timeout@ == clamped(
            base,
            scaled,
        )
}

/// Scales a base timeout by the correct standstill multiplier and caps it at
/// [`max_standstill_timeout`]. See [`Multiplier::scale`] for `product`.
///
/// Gracefully handles overflow by clamping to [`max_standstill_timeout`],
/// and underflow (i.e. `slot` before standstill) by returning `base`.
pub fn scale_standstill_timeout<F: Fn(Duration, i32) -> Option<Duration>>(
    base: Duration,
    slot: Slot,
    standstill_slot: Option<Slot>,
    product: F,
) -> (timeout: Duration)
    requires
        crate::multiplier::can_scale(
            product,
            base,
            crate::common::timeout_multiplier(slot, standstill_slot),
        ),
    ensures
        clamps_to(
            product,
            base,
            crate::common::timeout_multiplier(slot, standstill_slot),
            timeout,
        ),
{
    let multiplier = calculate_timeout_multiplier(slot, standstill_slot);
    apply_multiplier(base, multiplier.scale(base, product))
}

/// Clamps a scaled `base` into `[base, max_standstill_timeout()]`. `None` is a product with a
/// multiplier that has no finite value. A `base` beyond that range is cut off at its end.
pub fn apply_multiplier(base: Duration, scaled: Option<Duration>) -> (timeout: Duration)
    ensures
        timeout@ == clamped(base, scaled),
{
    let longest = max_standstill_timeout();
    if base.as_nanos() > longest.as_nanos() {
        return longest;
    }
    match scaled {
        None => longest,
        Some(span) => if span.as_nanos() < base.as_nanos() {
            base
        } else if span.as_nanos() > longest.as_nanos() {
            longest
        } else {
            span
        },
    }
}

/// Leader windows elapsed from `standstill_slot` to `slot`, saturating at
/// [`u32::MAX`] and returning zero if `slot` precedes the standstill.
pub fn leader_windows_between(standstill_slot: Slot, slot: Slot) -> (windows: u32)
    ensures
        windows == counted_windows(standstill_slot, slot),
{
    let slots_since_standstill: u64 = slot.saturating_sub(standstill_slot);
    let windows: u64 = slots_since_standstill / num_consecutive_leader_slots();
    if windows <= u32::MAX as u64 {
        windows as u32
    } else {
        u32::MAX
    }
}

/// Multiplier for a given number of elapsed leader windows.
///
/// Returns `1.05^n`, or infinity once `n` exceeds an `i32`.
pub fn multiplier_for_windows(windows: u32) -> (multiplier: Multiplier)
    ensures
        multiplier == crate::multiplier::multiplier_after(windows as nat),
{
    if windows <= i32::MAX as u32 {
        Multiplier::Power(windows as i32)
    } else {
        Multiplier::Infinite
    }
}

/// Multiplier applied to network-DELTA-derived timeouts under unknown DELTA.
///
/// Returns `1.05^0` outside standstill. During standstill, returns `1.05^n` where
/// `n` is the number of leader windows elapsed since standstill began. Used
/// to discover the actual network DELTA by exponentially growing every retry
/// timeout, see Alpenglow partial-synchrony recovery.
pub fn calculate_timeout_multiplier(slot: Slot, standstill_slot: Option<Slot>) -> (multiplier:
    Multiplier)
    ensures
        multiplier == crate::common::timeout_multiplier(slot, standstill_slot),
{
    match standstill_slot {
        None => Multiplier::Power(0),
        Some(standstill_slot) => multiplier_for_windows(
            leader_windows_between(standstill_slot, slot),
        ),
    }
}

/// The slot that a standstill was started with is read back, but for the highest slot of all.
pub proof fn started_standstill_is_read_back(slot: Slot)
    requires
        slot != u64::MAX,
    ensures
        SignalView::started(slot).slot == Some(slot),
{
}

/// Outside a standstill, recording a slot changes nothing and timeouts do not grow.
pub proof fn nothing_grows_outside_a_standstill(slot: Slot)
    ensures
        SignalView::quiet().recorded(slot) == SignalView::quiet(),
        SignalView::quiet().multiplier() == Multiplier::Power(0),
{
}

/// The backoff only grows while a standstill lasts: no slot walks it back.
pub proof fn backoff_never_shrinks(signal: SignalView, slot: Slot)
    ensures
        signal.windows <= signal.recorded(slot).windows,
        signal.recorded(slot).slot == signal.slot,
{
}

/// A new standstill starts without backoff, as one does that no other came before.
pub proof fn new_standstill_starts_from_scratch(slot: Slot)
    ensures
        SignalView::started(slot).windows == 0,
        SignalView::started(slot).multiplier() == Multiplier::Power(0),
{
}

/// The order in which slots are recorded does not matter, nor that one is recorded twice.
pub proof fn recording_order_is_irrelevant(signal: SignalView, first: Slot, second: Slot)
    ensures
        signal.recorded(first).recorded(second) == signal.recorded(second).recorded(first),
        signal.recorded(first).recorded(first) == signal.recorded(first),
{
}

/// The multiplier that is read once timeouts for `slots` have been recorded, in any order, is the
/// one of the highest of them. It is `1.05^0` if there are none.
pub proof fn recorded_multiplier_is_that_of_the_highest_slot(
    standstill_slot: Slot,
    slots: Seq<Slot>,
    highest: Slot,
)
    requires
        standstill_slot != u64::MAX,
        slots.len() > 0 ==> slots.contains(highest),
        forall|i: int| 0 <= i < slots.len() ==> #[trigger] slots[i] <= highest,
    ensures
        ({
            let signal = SignalView::started(standstill_slot).all_recorded(slots);
            &&& signal.slot == Some(standstill_slot)
            &&& slots.len() > 0 ==> signal.multiplier() == crate::common::timeout_multiplier(
                highest,
                Some(standstill_slot),
            )
            &&& slots.len() == 0 ==> signal.multiplier() == Multiplier::Power(0)
            &&& slots.len() > 0 && highest <= standstill_slot ==> signal.multiplier()
                == Multiplier::Power(0)
            &&& slots.len() > 0 && standstill_slot <= highest && highest - standstill_slot < 4
                * 0x8000_0000 ==> (signal.multiplier() matches Multiplier::Power(exponent) && 4
                * exponent <= highest - standstill_slot < 4 * exponent + 4)
            &&& slots.len() > 0 && highest - standstill_slot >= 4 * 0x8000_0000
                ==> signal.multiplier() == Multiplier::Infinite
        }),
{
    let signal = SignalView::started(standstill_slot).all_recorded(slots);
    recorded_windows_are_the_most(standstill_slot, slots);
    if slots.len() > 0 {
        let at = choose|i: int| 0 <= i < slots.len() && slots[i] == highest;
        assert(counted_windows(standstill_slot, slots[at]) <= signal.windows);
    }
}

/// The backoff that is reached once timeouts for `slots` have been recorded is the most that one
/// of them gives.
proof fn recorded_windows_are_the_most(standstill_slot: Slot, slots: Seq<Slot>)
    requires
        standstill_slot != u64::MAX,
    ensures
        ({
            let signal = SignalView::started(standstill_slot).all_recorded(slots);
            &&& signal.slot == Some(standstill_slot)
            &&& forall|i: int|
                0 <= i < slots.len() ==> counted_windows(standstill_slot, #[trigger] slots[i])
                    <= signal.windows
            &&& slots.len() == 0 ==> signal.windows == 0
            &&& slots.len() > 0 ==> exists|i: int|
                0 <= i < slots.len() && counted_windows(standstill_slot, #[trigger] slots[i])
                    == signal.windows
        }),
    decreases slots.len(),
{
    if slots.len() > 0 {
        let rest = slots.drop_last();
        recorded_windows_are_the_most(standstill_slot, rest);
        let before = SignalView::started(standstill_slot).all_recorded(rest);
        let last = slots.len() - 1;
        assert forall|i: int| 0 <= i < slots.len() implies counted_windows(
            standstill_slot,
            #[trigger] slots[i],
        ) <= before.recorded(slots[last]).windows by {
            if i < last {
                assert(rest[i] == slots[i]);
            }
        }
        if counted_windows(standstill_slot, slots[last]) <= before.windows && rest.len() > 0 {
            let i = choose|i: int|
                0 <= i < rest.len() && counted_windows(standstill_slot, #[trigger] rest[i])
                    == before.windows;
            assert(slots[i] == rest[i]);
        }
    }
}

/// Once timeouts have been recorded, in any order, the signal scales a base as it is scaled for
/// the highest slot of them. With none recorded it leaves a base up to the longest timeout as it
/// is.
pub proof fn signal_scales_as_for_the_highest_slot<F: Fn(Duration, i32) -> Option<Duration>>(
    product: F,
    base: Duration,
    standstill_slot: Slot,
    slots: Seq<Slot>,
    highest: Slot,
    timeout: Duration,
    slot_timeout: Duration,
)
    requires
        crate::multiplier::is_function(product),
        standstill_slot != u64::MAX,
        slots.len() > 0 ==> slots.contains(highest),
        forall|i: int| 0 <= i < slots.len() ==> #[trigger] slots[i] <= highest,
        clamps_to(
            product,
            base,
            SignalView::started(standstill_slot).all_recorded(slots).multiplier(),
            timeout,
        ),
        clamps_to(
            product,
            base,
            crate::common::timeout_multiplier(highest, Some(standstill_slot)),
            slot_timeout,
        ),
    ensures
        slots.len() > 0 ==> timeout@ == slot_timeout@,
        slots.len() == 0 && base@ <= crate::common::MAX_STANDSTILL_TIMEOUT_NANOS ==> timeout@
            == base@,
{
    recorded_multiplier_is_that_of_the_highest_slot(standstill_slot, slots, highest);
}

/// A timeout never rises above the longest standstill timeout, nor falls below a base that does
/// not.
pub proof fn clamped_timeout_is_in_range<F: Fn(Duration, i32) -> Option<Duration>>(
    product: F,
    base: Duration,
    multiplier: Multiplier,
    timeout: Duration,
)
    requires
        clamps_to(product, base, multiplier, timeout),
    ensures
        timeout@ <= crate::common::MAX_STANDSTILL_TIMEOUT_NANOS,
        base@ <= crate::common::MAX_STANDSTILL_TIMEOUT_NANOS ==> base@ <= timeout@,
        base@ >= crate::common::MAX_STANDSTILL_TIMEOUT_NANOS ==> timeout@
            == crate::common::MAX_STANDSTILL_TIMEOUT_NANOS,
{
}

/// Where the product never falls, a longer base or a higher multiplier gives no shorter timeout.
proof fn clamped_timeout_never_falls<F: Fn(Duration, i32) -> Option<Duration>>(
    product: F,
    base: Duration,
    multiplier: Multiplier,
    timeout: Duration,
    longer: Duration,
    higher: Multiplier,
    longer_timeout: Duration,
)
    requires
        crate::multiplier::never_falls(product),
        base@ <= longer@,
        crate::multiplier::multiplier_after(0).no_higher(multiplier),
        multiplier.no_higher(higher),
        clamps_to(product, base, multiplier, timeout),
        clamps_to(product, longer, higher, longer_timeout),
    ensures
        timeout@ <= longer_timeout@,
{
    let scaled = choose|scaled: Option<Duration>| #[trigger]
        crate::multiplier::scales_to(product, base, multiplier, scaled) && timeout@ == clamped(
            base,
            scaled,
        );
    let longer_scaled = choose|scaled: Option<Duration>| #[trigger]
        crate::multiplier::scales_to(product, longer, higher, scaled) && longer_timeout@
            == clamped(longer, scaled);
    crate::multiplier::scaled_span_never_falls(
        product,
        base,
        multiplier,
        scaled,
        longer,
        higher,
        longer_scaled,
    );
}

/// Where the product never falls, a timeout is no shorter for a later slot or a longer base.
pub proof fn later_slots_give_no_shorter_timeouts<F: Fn(Duration, i32) -> Option<Duration>>(
    product: F,
    base: Duration,
    slot: Slot,
    timeout: Duration,
    longer: Duration,
    later: Slot,
    later_timeout: Duration,
    standstill_slot: Option<Slot>,
)
    requires
        crate::multiplier::never_falls(product),
        base@ <= longer@,
        slot <= later,
        clamps_to(
            product,
            base,
            crate::common::timeout_multiplier(slot, standstill_slot),
            timeout,
        ),
        clamps_to(
            product,
            longer,
            crate::common::timeout_multiplier(later, standstill_slot),
            later_timeout,
        ),
    ensures
        timeout@ <= later_timeout@ <= crate::common::MAX_STANDSTILL_TIMEOUT_NANOS,
        base@ <= crate::common::MAX_STANDSTILL_TIMEOUT_NANOS ==> base@ <= timeout@,
{
    let multiplier = crate::common::timeout_multiplier(slot, standstill_slot);
    let higher = crate::common::timeout_multiplier(later, standstill_slot);
    if standstill_slot is Some {
        crate::common::multiplier_grows_window_by_window(slot, later, standstill_slot->0);
    }
    clamped_timeout_never_falls(
        product,
        base,
        multiplier,
        timeout,
        longer,
        higher,
        later_timeout,
    );
}

/// Where the product never falls, a signal gives no shorter timeout for a longer base, nor once
/// more slots have been recorded.
pub proof fn signal_timeouts_never_fall<F: Fn(Duration, i32) -> Option<Duration>>(
    product: F,
    signal: SignalView,
    slots: Seq<Slot>,
    base: Duration,
    timeout: Duration,
    longer: Duration,
    longer_timeout: Duration,
)
    requires
        crate::multiplier::never_falls(product),
        base@ <= longer@,
        clamps_to(product, base, signal.multiplier(), timeout),
        clamps_to(product, longer, signal.all_recorded(slots).multiplier(), longer_timeout),
    ensures
        timeout@ <= longer_timeout@ <= crate::common::MAX_STANDSTILL_TIMEOUT_NANOS,
        base@ <= crate::common::MAX_STANDSTILL_TIMEOUT_NANOS ==> base@ <= timeout@,
{
    recording_never_shrinks(signal, slots);
    clamped_timeout_never_falls(
        product,
        base,
        signal.multiplier(),
        timeout,
        longer,
        signal.all_recorded(slots).multiplier(),
        longer_timeout,
    );
}

/// The backoff does not shrink over any number of recorded slots.
proof fn recording_never_shrinks(signal: SignalView, slots: Seq<Slot>)
    ensures
        signal.all_recorded(slots).slot == signal.slot,
        signal.windows <= signal.all_recorded(slots).windows,
    decreases slots.len(),
{
    if slots.len() > 0 {
        recording_never_shrinks(signal, slots.drop_last());
    }
}

/// Without a standstill a signal leaves a base up to the longest timeout as it is.
pub proof fn signal_keeps_the_base_without_standstill<F: Fn(Duration, i32) -> Option<Duration>>(
    product: F,
    signal: SignalView,
    base: Duration,
    timeout: Duration,
)
    requires
        signal.slot is None,
        base@ <= crate::common::MAX_STANDSTILL_TIMEOUT_NANOS,
        clamps_to(product, base, signal.multiplier(), timeout),
    ensures
        timeout@ == base@,
{
}

/// A timeout stays as it is outside a standstill, and for a slot no later than the standstill.
pub proof fn base_is_kept_without_elapsed_windows<F: Fn(Duration, i32) -> Option<Duration>>(
    product: F,
    base: Duration,
    slot: Slot,
    standstill_slot: Option<Slot>,
    timeout: Duration,
)
    requires
        base@ <= crate::common::MAX_STANDSTILL_TIMEOUT_NANOS,
        standstill_slot is Some ==> slot <= standstill_slot->0,
        clamps_to(
            product,
            base,
            crate::common::timeout_multiplier(slot, standstill_slot),
            timeout,
        ),
    ensures
        timeout@ == base@,
{
}

/// A standstill of more windows than an exponent can hold gives the longest timeout.
pub proof fn overflow_gives_the_longest_timeout<F: Fn(Duration, i32) -> Option<Duration>>(
    product: F,
    base: Duration,
    slot: Slot,
    standstill_slot: Slot,
    timeout: Duration,
)
    requires
        crate::common::windows_since(standstill_slot, slot) > i32::MAX,
        clamps_to(
            product,
            base,
            crate::common::timeout_multiplier(slot, Some(standstill_slot)),
            timeout,
        ),
    ensures
        timeout@ == crate::common::MAX_STANDSTILL_TIMEOUT_NANOS,
{
}

/// A timeout grows by 5% for each leader window that has passed, up to the longest standstill
/// timeout: it is off from `base * 1.05^n`, cut off there, by no more than the product is.
///
/// All amounts are multiplied by `20^n`, of which `1.05^n` is `21^n`.
pub proof fn timeout_grows_by_five_percent_per_window<F: Fn(Duration, i32) -> Option<Duration>>(
    product: F,
    base: Duration,
    slot: Slot,
    standstill_slot: Slot,
    timeout: Duration,
    error: nat,
)
    requires
        base@ <= crate::common::MAX_STANDSTILL_TIMEOUT_NANOS,
        crate::common::windows_since(standstill_slot, slot) <= i32::MAX,
        crate::multiplier::is_accurate(
            product,
            base,
            crate::common::windows_since(standstill_slot, slot) as i32,
            error,
            crate::common::MAX_STANDSTILL_TIMEOUT_NANOS as nat,
        ),
        clamps_to(
            product,
            base,
            crate::common::timeout_multiplier(slot, Some(standstill_slot)),
            timeout,
        ),
    ensures
        ({
            let n = crate::common::windows_since(standstill_slot, slot);
            let unit = pow(20, n);
            let grown = base@ * pow(21, n);
            let longest = crate::common::MAX_STANDSTILL_TIMEOUT_NANOS * unit;
            crate::multiplier::near(
                timeout@ * unit,
                if grown <= longest {
                    grown
                } else {
                    longest
                },
                error * unit,
            )
        }),
{
    let n = crate::common::windows_since(standstill_slot, slot) as i32;
    let longest = crate::common::MAX_STANDSTILL_TIMEOUT_NANOS as nat;
    let multiplier = crate::common::timeout_multiplier(slot, Some(standstill_slot));
    let scaled = choose|scaled: Option<Duration>| #[trigger]
        crate::multiplier::scales_to(product, base, multiplier, scaled) && timeout@ == clamped(
            base,
            scaled,
        );
    crate::multiplier::cut_off_product_is_accurate(product, base, n, scaled, error, longest);
    crate::multiplier::powers_grow_apart(n as nat);
    let unit = pow(20, n as nat);
    let factor = pow(21, n as nat);
    let low = base@ as int;
    let high = longest as int;
    let capped = crate::multiplier::cut_off(scaled, longest) as int;
    assert(low * unit <= low * factor && low * unit <= high * unit) by (nonlinear_arith)
        requires
            0 <= low <= high,
            1 <= unit <= factor,
    ;
    assert(capped < low ==> capped * unit <= low * unit) by (nonlinear_arith)
        requires
            unit >= 1,
    ;
}

/// A signal gives back the slot that it was set with last, but for the highest slot of all, which
/// stands for none. It gives none back while it is new and once it was cleared. Timeouts are not
/// scaled in any of these states.
pub proof fn set_slots_are_read_back(
    fresh: StandstillSignal,
    default: StandstillSignal,
    fresh_read: (Option<Slot>, Multiplier),
    default_read: (Option<Slot>, Multiplier),
    set: &mut StandstillSignal,
    slot: Slot,
    set_read: (Option<Slot>, Multiplier),
    cleared: &mut StandstillSignal,
    cleared_read: (Option<Slot>, Multiplier),
)
    requires
        call_ensures(StandstillSignal::new, (), fresh),
        call_ensures(StandstillSignal::get, (&fresh,), fresh_read.0),
        call_ensures(StandstillSignal::multiplier, (&fresh,), fresh_read.1),
        call_ensures(<StandstillSignal as Default>::default, (), default),
        call_ensures(StandstillSignal::get, (&default,), default_read.0),
        call_ensures(StandstillSignal::multiplier, (&default,), default_read.1),
        call_ensures(StandstillSignal::set, (set, slot), ()),
        call_ensures(StandstillSignal::get, (&*final(set),), set_read.0),
        call_ensures(StandstillSignal::multiplier, (&*final(set),), set_read.1),
        call_ensures(StandstillSignal::clear, (cleared,), ()),
        call_ensures(StandstillSignal::get, (&*final(cleared),), cleared_read.0),
        call_ensures(StandstillSignal::multiplier, (&*final(cleared),), cleared_read.1),
    ensures
        fresh_read.0 is None && fresh_read.1 == Multiplier::Power(0),
        default_read.0 is None && default_read.1 == Multiplier::Power(0),
        slot < 0xffff_ffff_ffff_ffff ==> set_read.0 == Some(slot),
        slot == 0xffff_ffff_ffff_ffff ==> set_read.0 is None,
        set_read.1 == Multiplier::Power(0),
        cleared_read.0 is None && cleared_read.1 == Multiplier::Power(0),
{
}

/// Recording a slot raises the exponent of the multiplier to the number of whole groups of four
/// slots from the standstill to that slot, if it is not that high already, and to infinity where
/// the number exceeds an `i32`. It does not change which slot is read back, and changes nothing
/// outside a standstill.
pub proof fn recording_raises_the_exponent(
    signal: &mut StandstillSignal,
    slot: Slot,
    before: (Option<Slot>, Multiplier),
    after: (Option<Slot>, Multiplier),
)
    requires
        call_ensures(StandstillSignal::get, (&*signal,), before.0),
        call_ensures(StandstillSignal::multiplier, (&*signal,), before.1),
        call_ensures(StandstillSignal::record_timeout_slot, (signal, slot), ()),
        call_ensures(StandstillSignal::get, (&*final(signal),), after.0),
        call_ensures(StandstillSignal::multiplier, (&*final(signal),), after.1),
    ensures
        after.0 == before.0,
        before.0 is None ==> before.1 == Multiplier::Power(0) && after.1 == Multiplier::Power(0),
        before.0 matches Some(start) ==> {
            &&& slot < start + 4 ==> after.1 == before.1
            &&& before.1 == Multiplier::Infinite ==> after.1 == Multiplier::Infinite
            &&& slot - start >= 4 * 0x8000_0000 ==> after.1 == Multiplier::Infinite
            &&& start <= slot && slot - start < 4 * 0x8000_0000 ==> match (before.1, after.1) {
                (Multiplier::Power(exponent), Multiplier::Power(raised)) => {
                    &&& 0 <= exponent <= raised
                    &&& slot - start < 4 * raised + 4
                    &&& raised == exponent || 4 * raised <= slot - start
                },
                (Multiplier::Infinite, _) => true,
                (Multiplier::Power(_), Multiplier::Infinite) => false,
            }
        },
{
}

/// Whole leader windows of four slots are counted, none before the standstill, and no more than a
/// `u32` can count.
pub proof fn windows_are_groups_of_four_slots(standstill_slot: Slot, slot: Slot, windows: u32)
    requires
        call_ensures(leader_windows_between, (standstill_slot, slot), windows),
    ensures
        slot <= standstill_slot ==> windows == 0,
        standstill_slot <= slot ==> 4 * windows <= slot - standstill_slot,
        standstill_slot <= slot && windows < 0xffff_ffff ==> slot - standstill_slot < 4 * windows
            + 4,
{
}

/// The exponent of the multiplier is the number of windows, and the multiplier is infinite exactly
/// where that exceeds an `i32`.
pub proof fn exponents_are_window_counts(windows: u32, multiplier: Multiplier)
    requires
        call_ensures(multiplier_for_windows, (windows,), multiplier),
    ensures
        windows < 0x8000_0000 ==> (multiplier matches Multiplier::Power(exponent) && exponent
            == windows),
        windows >= 0x8000_0000 ==> multiplier == Multiplier::Infinite,
{
}

/// The exponent of the multiplier is the number of whole groups of four slots that have passed
/// since the standstill. It is zero outside a standstill and before it, and the multiplier is
/// infinite exactly where that number exceeds an `i32`.
pub proof fn multiplier_counts_groups_of_four_slots(
    slot: Slot,
    standstill_slot: Slot,
    outside: Multiplier,
    multiplier: Multiplier,
)
    requires
        call_ensures(calculate_timeout_multiplier, (slot, None), outside),
        call_ensures(calculate_timeout_multiplier, (slot, Some(standstill_slot)), multiplier),
    ensures
        outside == Multiplier::Power(0),
        slot <= standstill_slot ==> multiplier == Multiplier::Power(0),
        standstill_slot <= slot && slot - standstill_slot < 4 * 0x8000_0000 ==> (
        multiplier matches Multiplier::Power(exponent) && 4 * exponent <= slot - standstill_slot < 4
            * exponent + 4),
        slot - standstill_slot >= 4 * 0x8000_0000 ==> multiplier == Multiplier::Infinite,
{
}

/// A scaled timeout is moved no further than needed into the range from its base to one hour. It
/// is one hour if it has no finite value or if the base is longer.
pub proof fn clamping_moves_into_the_range(
    base: Duration,
    scaled: Option<Duration>,
    timeout: Duration,
)
    requires
        call_ensures(apply_multiplier, (base, scaled), timeout),
    ensures
        base@ >= 3_600_000_000_000 || scaled is None ==> timeout@ == 3_600_000_000_000,
        base@ <= 3_600_000_000_000 ==> base@ <= timeout@ <= 3_600_000_000_000,
        base@ <= 3_600_000_000_000 && scaled is Some ==> {
            ||| timeout@ == scaled->0@
            ||| timeout@ == base@ && scaled->0@ < base@
            ||| timeout@ == 3_600_000_000_000 && scaled->0@ > 3_600_000_000_000
        },
        call_requires(apply_multiplier, (base, scaled)),
{
}

/// A timeout is the product of its base and `1.05^n`, moved into the range from the base to one
/// hour, where `n` counts the groups of four slots since the standstill. It is the base where `n`
/// is zero, and one hour where `n` exceeds an `i32` or the base is longer than that. It may be
/// asked for wherever the product may.
pub proof fn scaling_gives_the_clamped_product<F: Fn(Duration, i32) -> Option<Duration>>(
    product: F,
    base: Duration,
    slot: Slot,
    standstill_slot: Option<Slot>,
    timeout: Duration,
)
    requires
        call_ensures(
            scale_standstill_timeout::<F>,
            (base, slot, standstill_slot, product),
            timeout,
        ),
    ensures
        base@ >= 3_600_000_000_000 ==> timeout@ == 3_600_000_000_000,
        base@ <= 3_600_000_000_000 && (standstill_slot is None || slot - standstill_slot->0 < 4)
            ==> timeout@ == base@,
        standstill_slot is Some && slot - standstill_slot->0 >= 4 * 0x8000_0000 ==> timeout@
            == 3_600_000_000_000,
        base@ <= 3_600_000_000_000 && standstill_slot is Some && 4 <= slot - standstill_slot->0 < 4
            * 0x8000_0000 ==> exists|scaled: Option<Duration>|
            {
                &&& #[trigger] call_ensures(
                    product,
                    (base, ((slot - standstill_slot->0) / 4) as i32),
                    scaled,
                )
                &&& scaled is None ==> timeout@ == 3_600_000_000_000
                &&& scaled is Some && scaled->0@ >= 3_600_000_000_000 ==> timeout@
                    == 3_600_000_000_000
                &&& scaled is Some && scaled->0@ <= base@ ==> timeout@ == base@
                &&& scaled is Some && base@ <= scaled->0@ <= 3_600_000_000_000 ==> timeout@
                    == scaled->0@
            },
        (standstill_slot is Some && 4 <= slot - standstill_slot->0 < 4 * 0x8000_0000
            ==> call_requires(product, (base, ((slot - standstill_slot->0) / 4) as i32)))
            ==> call_requires(
            scale_standstill_timeout::<F>,
            (base, slot, standstill_slot, product),
        ),
{
    let multiplier = crate::common::timeout_multiplier(slot, standstill_slot);
    let scaled = choose|scaled: Option<Duration>| #[trigger]
        crate::multiplier::scales_to(product, base, multiplier, scaled) && timeout@ == clamped(
            base,
            scaled,
        );
    assert(crate::multiplier::scales_to(product, base, multiplier, scaled));
}

/// A signal scales a base by the multiplier that is read from it, and moves it into the range from
/// the base to one hour. It may be asked to wherever the product may.
pub proof fn signal_scales_by_its_multiplier<F: Fn(Duration, i32) -> Option<Duration>>(
    signal: &StandstillSignal,
    product: F,
    base: Duration,
    multiplier: Multiplier,
    timeout: Duration,
)
    requires
        call_ensures(StandstillSignal::multiplier, (signal,), multiplier),
        call_ensures(StandstillSignal::scale::<F>, (signal, base, product), timeout),
    ensures
        base@ >= 3_600_000_000_000 ==> timeout@ == 3_600_000_000_000,
        base@ <= 3_600_000_000_000 && multiplier == Multiplier::Power(0) ==> timeout@ == base@,
        multiplier == Multiplier::Infinite ==> timeout@ == 3_600_000_000_000,
        base@ <= 3_600_000_000_000 && multiplier is Power && multiplier->Power_0 != 0 ==> exists|
            scaled: Option<Duration>,
        |
            {
                &&& #[trigger] call_ensures(product, (base, multiplier->Power_0), scaled)
                &&& scaled is None ==> timeout@ == 3_600_000_000_000
                &&& scaled is Some && scaled->0@ >= 3_600_000_000_000 ==> timeout@
                    == 3_600_000_000_000
                &&& scaled is Some && scaled->0@ <= base@ ==> timeout@ == base@
                &&& scaled is Some && base@ <= scaled->0@ <= 3_600_000_000_000 ==> timeout@
                    == scaled->0@
            },
        (multiplier is Power && multiplier->Power_0 != 0 ==> call_requires(
            product,
            (base, multiplier->Power_0),
        )) ==> call_requires(StandstillSignal::scale::<F>, (signal, base, product)),
{
    let scaled = choose|scaled: Option<Duration>| #[trigger]
        crate::multiplier::scales_to(product, base, multiplier, scaled) && timeout@ == clamped(
            base,
            scaled,
        );
    assert(crate::multiplier::scales_to(product, base, multiplier, scaled));
}

} // verus!
