//! The factor by which timeouts grow while the cluster stands still.

use crate::time::Duration;
use vstd::arithmetic::power::pow;
use vstd::prelude::*;

verus! {

/// A power of 1.05, the growth of a timeout per leader window, kept as its exponent.
#[derive(Clone, Copy, Debug, PartialEq, Eq, Structural)]
pub enum Multiplier {
    /// `1.05^n`, where `n` counts leader windows.
    Power(i32),
    /// A power whose exponent does not fit an `i32`.
    Infinite,
}

/// The multiplier once `windows` leader windows have passed: `1.05^windows`.
pub open spec fn multiplier_after(windows: nat) -> Multiplier {
    if windows <= i32::MAX {
        Multiplier::Power(windows as i32)
    } else {
        Multiplier::Infinite
    }
}

/// Whether `scaled` can be what `base` times `multiplier` comes to when `product` works out
/// the product with a power of 1.05. `None` stands for a multiplier without a finite value.
///
/// A power with exponent zero is one, and leaves `base` as it is.
pub open spec fn scales_to<F: Fn(Duration, i32) -> Option<Duration>>(
    product: F,
    base: Duration,
    multiplier: Multiplier,
    scaled: Option<Duration>,
) -> bool {
    match multiplier {
        Multiplier::Infinite => scaled is None,
        Multiplier::Power(exponent) => if exponent == 0 {
            scaled == Some(base)
        } else {
            call_ensures(product, (base, exponent), scaled)
        },
    }
}

/// Whether `product` may be called for `base` and `multiplier`, where it is called at all.
pub open spec fn can_scale<F: Fn(Duration, i32) -> Option<Duration>>(
    product: F,
    base: Duration,
    multiplier: Multiplier,
) -> bool {
    multiplier matches Multiplier::Power(exponent) ==> exponent == 0 || call_requires(
        product,
        (base, exponent),
    )
}

impl Multiplier {
    /// `base` times this multiplier, or `None` where the multiplier has no finite value.
    ///
    /// `product(base, n)` works out `base` times `1.05^n` in floating point. It is `None`
    /// where `1.05^n` overflows, and the longest span where only the product does.
    pub fn scale<F: Fn(Duration, i32) -> Option<Duration>>(
        self,
        base: Duration,
        product: F,
    ) -> (scaled: Option<Duration>)
        requires
            can_scale(product, base, self),
        ensures
            scales_to(product, base, self, scaled),
    {
        match self {
            Multiplier::Infinite => None,
            Multiplier::Power(exponent) => if exponent == 0 {
                Some(base)
            } else {
                product(base, exponent)
            },
        }
    }
}

/// Whether what `product` gives for `base` and an exponent `n` above zero is off from `base`
/// times `1.05^n`, that is from `base * 21^n / 20^n`, by at most `error` nanoseconds. Where that
/// product is at least `limit`, it may also be any other span from `limit` on, or none at all.
pub open spec fn is_accurate<F: Fn(Duration, i32) -> Option<Duration>>(
    product: F,
    base: Duration,
    n: i32,
    error: nat,
    limit: nat,
) -> bool {
    let unit = pow(20, n as nat);
    let grown = base@ * pow(21, n as nat);
    n > 0 ==> forall|scaled: Option<Duration>| #[trigger]
        call_ensures(product, (base, n), scaled) ==> {
            ||| grown >= limit * unit && (scaled is Some ==> scaled->0@ >= limit)
            ||| scaled is Some && near(scaled->0@ * unit, grown, error * unit)
        }
}

/// Whether a scaled span `a` is no longer than `b`. One without a finite value is the longest.
pub open spec fn no_longer(a: Option<Duration>, b: Option<Duration>) -> bool {
    match (a, b) {
        (_, None) => true,
        (None, Some(_)) => false,
        (Some(span), Some(other)) => span@ <= other@,
    }
}

/// Whether `product` never falls: for an exponent above zero it gives no less than the span that
/// is multiplied, and a longer span or a higher exponent gives no shorter product.
pub open spec fn never_falls<F: Fn(Duration, i32) -> Option<Duration>>(product: F) -> bool {
    &&& forall|base: Duration, n: i32, scaled: Option<Duration>|
        0 < n && #[trigger] call_ensures(product, (base, n), scaled) ==> no_longer(
            Some(base),
            scaled,
        )
    &&& forall|
        base: Duration,
        n: i32,
        scaled: Option<Duration>,
        longer: Duration,
        higher: i32,
        longer_scaled: Option<Duration>,
    |
        0 < n <= higher && base@ <= longer@ && #[trigger] call_ensures(product, (base, n), scaled)
            && #[trigger] call_ensures(product, (longer, higher), longer_scaled) ==> no_longer(
            scaled,
            longer_scaled,
        )
}

/// Whether `product` gives one result for each span and exponent.
pub open spec fn is_function<F: Fn(Duration, i32) -> Option<Duration>>(product: F) -> bool {
    forall|base: Duration, n: i32, a: Option<Duration>, b: Option<Duration>| #[trigger]
        call_ensures(product, (base, n), a) && #[trigger] call_ensures(product, (base, n), b) ==> a
            == b
}

impl Multiplier {
    /// Whether this multiplier is no higher than `other`.
    pub open spec fn no_higher(self, other: Multiplier) -> bool {
        match (self, other) {
            (_, Multiplier::Infinite) => true,
            (Multiplier::Infinite, Multiplier::Power(_)) => false,
            (Multiplier::Power(exponent), Multiplier::Power(other_exponent)) => exponent
                <= other_exponent,
        }
    }
}

/// Where the product never falls, a longer span or a higher multiplier gives no shorter span, and
/// none gives less than the span that is scaled.
pub proof fn scaled_span_never_falls<F: Fn(Duration, i32) -> Option<Duration>>(
    product: F,
    base: Duration,
    multiplier: Multiplier,
    scaled: Option<Duration>,
    longer: Duration,
    higher: Multiplier,
    longer_scaled: Option<Duration>,
)
    requires
        never_falls(product),
        base@ <= longer@,
        multiplier_after(0).no_higher(multiplier),
        multiplier.no_higher(higher),
        scales_to(product, base, multiplier, scaled),
        scales_to(product, longer, higher, longer_scaled),
    ensures
        no_longer(Some(base), scaled),
        no_longer(scaled, longer_scaled),
{
}

/// Whether two numbers differ by at most `error`.
pub open spec fn near(a: int, b: int, error: int) -> bool {
    a - b <= error && b - a <= error
}

/// What a scaled span becomes when it is cut off at `limit`.
pub open spec fn cut_off(scaled: Option<Duration>, limit: nat) -> nat {
    match scaled {
        Some(span) if span@ < limit => span@,
        _ => limit,
    }
}

/// A scaled span that is cut off at `limit` differs from `base * 1.05^n`, cut off there, by no
/// more than the product is off.
///
/// All amounts are multiplied by `20^n`, of which `1.05^n` is `21^n`.
pub proof fn cut_off_product_is_accurate<F: Fn(Duration, i32) -> Option<Duration>>(
    product: F,
    base: Duration,
    n: i32,
    scaled: Option<Duration>,
    error: nat,
    limit: nat,
)
    requires
        0 <= n,
        is_accurate(product, base, n, error, limit),
        scales_to(product, base, Multiplier::Power(n), scaled),
    ensures
        ({
            let unit = pow(20, n as nat);
            let grown = base@ * pow(21, n as nat);
            near(
                cut_off(scaled, limit) * unit,
                if grown <= limit * unit {
                    grown
                } else {
                    limit * unit
                },
                error * unit,
            )
        }),
{
    let unit = pow(20, n as nat);
    powers_grow_apart(n as nat);
    assert(0 <= error * unit) by (nonlinear_arith)
        requires
            unit >= 1,
    ;
    if n == 0 {
        reveal(pow);
    }
    match scaled {
        None => {},
        Some(span) => {
            let s = span@ as int;
            let high = limit as int;
            assert(s >= high ==> s * unit >= high * unit) by (nonlinear_arith)
                requires
                    unit >= 1,
            ;
            assert(s < high ==> s * unit <= high * unit) by (nonlinear_arith)
                requires
                    unit >= 1,
            ;
        },
    }
}

/// The powers that make up 1.05 grow apart.
pub(crate) proof fn powers_grow_apart(n: nat)
    ensures
        1 <= pow(20, n) <= pow(21, n),
    decreases n,
{
    reveal(pow);
    if n > 0 {
        powers_grow_apart((n - 1) as nat);
    }
}

/// A span is scaled by calling the product with it and the exponent, and left as it is where the
/// exponent is zero. It has no finite value where the multiplier has none. The product may be
/// asked for what it is called with.
pub proof fn scaling_asks_for_the_product<F: Fn(Duration, i32) -> Option<Duration>>(
    product: F,
    base: Duration,
    exponent: i32,
    scaled: Option<Duration>,
    infinite: Option<Duration>,
)
    requires
        call_ensures(
            Multiplier::scale::<F>,
            (Multiplier::Power(exponent), base, product),
            scaled,
        ),
        call_ensures(Multiplier::scale::<F>, (Multiplier::Infinite, base, product), infinite),
    ensures
        exponent == 0 ==> scaled == Some(base),
        exponent != 0 ==> call_ensures(product, (base, exponent), scaled),
        infinite is None,
        exponent == 0 || call_requires(product, (base, exponent)) ==> call_requires(
            Multiplier::scale::<F>,
            (Multiplier::Power(exponent), base, product),
        ),
        call_requires(Multiplier::scale::<F>, (Multiplier::Infinite, base, product)),
{
}

} // verus!
