//! Integer arithmetic shared by the ledgers: range tests, floor division and
//! basis-point scaling that reports an overflow instead of wrapping.

use vstd::prelude::*;

verus! {

/// The divisor of a quantity given in basis points.
pub const BASIS_POINTS: i128 = 10000;

/// Seconds in a day.
pub const DAY_SECONDS: u64 = 86400;

/// Seconds in a week.
pub const WEEK_SECONDS: u64 = 604800;

/// Whether `x` can be held in an `i128`.
pub open spec fn fits_i128(x: int) -> bool {
    i128::MIN <= x <= i128::MAX
}

/// Division that rounds toward zero, for a positive divisor.
pub open spec fn trunc_div(n: int, d: int) -> int {
    if n >= 0 {
        n / d
    } else {
        -((-n) / d)
    }
}

/// Whole weeks that have passed at `now` since `start`; none before `start`.
pub open spec fn weeks_between(start: u64, now: u64) -> int {
    if now >= start {
        (now - start) / 604800
    } else {
        0
    }
}

/// A quotient by a positive divisor is no larger in size than the dividend.
pub proof fn lemma_quotient_bounds(n: int, d: int)
    requires
        d > 0,
    ensures
        n >= 0 ==> 0 <= n / d <= n,
        n < 0 ==> n <= n / d < 0,
{
    if n >= 0 {
        assert(0 <= n / d <= n) by (nonlinear_arith)
            requires
                n >= 0,
                d > 0,
        ;
    } else {
        assert(n <= n / d < 0) by (nonlinear_arith)
            requires
                n < 0,
                d > 0,
        ;
    }
}

/// `n / d` rounded down, for a positive divisor.
pub fn floor_div(n: i128, d: i128) -> (q: i128)
    requires
        d > 0,
    ensures
        q == n / d,
{
    proof {
        lemma_quotient_bounds(n as int, d as int);
    }
    match n.checked_div_euclid(d) {
        Some(q) => q,
        None => 0,
    }
}

/// `n / d` rounded toward zero, for a positive divisor.
pub fn div_toward_zero(n: i128, d: i128) -> (q: i128)
    requires
        d > 0,
    ensures
        q == trunc_div(n as int, d as int),
{
    proof {
        lemma_quotient_bounds(n as int, d as int);
        lemma_quotient_bounds(-(n as int), d as int);
        assert((n * -1) == -(n as int));
        assert(((-(n as int)) / (d as int)) * -1 == -((-(n as int)) / (d as int)));
    }
    match n.checked_div(d) {
        Some(q) => q,
        None => 0,
    }
}

/// `amount * factor / divisor`, rounded down; `None` where the product cannot be held.
pub fn scale_floor(amount: i128, factor: i128, divisor: i128) -> (scaled: Option<i128>)
    requires
        divisor > 0,
    ensures
        scaled == (if fits_i128(amount * factor) {
            Some(((amount * factor) / (divisor as int)) as i128)
        } else {
            None
        }),
        fits_i128(amount * factor) ==> fits_i128((amount * factor) / (divisor as int)),
{
    match amount.checked_mul(factor) {
        Some(product) => {
            proof {
                lemma_quotient_bounds(product as int, divisor as int);
            }
            Some(floor_div(product, divisor))
        },
        None => None,
    }
}

/// `amount * factor / divisor`, rounded toward zero; `None` where the product
/// cannot be held.
pub fn scale_toward_zero(amount: i128, factor: i128, divisor: i128) -> (scaled: Option<i128>)
    requires
        divisor > 0,
    ensures
        scaled == (if fits_i128(amount * factor) {
            Some(trunc_div(amount * factor, divisor as int) as i128)
        } else {
            None
        }),
        fits_i128(amount * factor) ==> fits_i128(trunc_div(amount * factor, divisor as int)),
{
    match amount.checked_mul(factor) {
        Some(product) => {
            proof {
                lemma_quotient_bounds(product as int, divisor as int);
                lemma_quotient_bounds(-(product as int), divisor as int);
            }
            Some(div_toward_zero(product, divisor))
        },
        None => None,
    }
}

/// Whole weeks that have passed at `now` since `start`; none before `start`.
pub fn weeks_elapsed(start: u64, now: u64) -> (weeks: u64)
    ensures
        weeks == weeks_between(start, now),
{
    if now >= start {
        (now - start) / WEEK_SECONDS
    } else {
        0
    }
}

} // verus!
