//! The utilization-based annual interest rate curve of a pool.
//!
//! Utilization is `(total - available) / total` in a `100_000_000` = 100%
//! scale. Below the panic threshold the rate rises linearly from the base rate
//! toward the panic rate; at or above it, along a much steeper line toward the
//! maximum rate. Rates are in the `SCALE` fixed point (`200_000` is 2%).
use crate::fixed::{div_nonneg, fits, lemma_tdiv_nonneg, SCALE};
use crate::pool::Error;
use vstd::prelude::*;

verus! {

/// Rate of an idle pool: 2%.
pub const BASE_INTEREST_RATE: i128 = 200_000;

/// Rate reached at the panic threshold: 10%.
pub const INTEREST_RATE_AT_PANIC: i128 = 1_000_000;

/// Rate approached as utilization reaches 100%: 30%.
pub const MAX_INTEREST_RATE: i128 = 3_000_000;

/// Intercept of the steep segment, chosen so that it meets the panic rate at
/// the threshold and the maximum rate at full utilization.
pub const PANIC_BASE_RATE: i128 = -17_000_000;

/// Utilization (90%) at which the steep segment starts.
pub const PANIC_RATES_THRESHOLD: i128 = 90_000_000;

/// Full utilization in the utilization scale.
pub const FULL_UTILIZATION: i128 = 100_000_000;

/// Slope of the segment below the panic threshold, per `SCALE` of
/// utilization: the rise from the base rate to the panic rate over the
/// threshold, `(1_000_000 - 200_000) * SCALE / 90_000_000`, truncated.
pub const SLOPE_BEFORE_PANIC: i128 = 88_888;

/// Slope of the segment at and above the panic threshold: the rise from the
/// panic rate to the maximum rate over the remaining 10% of utilization,
/// `(3_000_000 - 1_000_000) * SCALE / 10_000_000`.
pub const SLOPE_AFTER_PANIC: i128 = 2_000_000;

/// Utilization of a pool holding `total` tokens of which `available` are not
/// lent out, truncated, in the `FULL_UTILIZATION` scale.
pub open spec fn utilization(total: int, available: int) -> int {
    (total - available) * FULL_UTILIZATION / total
}

/// The two-segment curve at a given utilization.
pub open spec fn rate_at_utilization(u: int) -> int {
    if u < PANIC_RATES_THRESHOLD {
        SLOPE_BEFORE_PANIC * u / (SCALE as int) + BASE_INTEREST_RATE
    } else {
        SLOPE_AFTER_PANIC * u / (SCALE as int) + PANIC_BASE_RATE
    }
}

/// Annual interest rate of a pool with the given balances; an empty pool
/// pays the base rate.
pub open spec fn annual_rate(total: int, available: int) -> int {
    if total > 0 {
        rate_at_utilization(utilization(total, available))
    } else {
        BASE_INTEREST_RATE as int
    }
}

/// The rate can be computed in `i128`: the scaled lent-out amount fits.
pub open spec fn annual_rate_defined(total: int, available: int) -> bool {
    total <= 0 || fits((total - available) * FULL_UTILIZATION)
}

/// Every rate of the curve lies between the base rate and the maximum rate.
pub proof fn lemma_rate_bounds(u: int)
    requires
        0 <= u <= FULL_UTILIZATION,
    ensures
        BASE_INTEREST_RATE <= rate_at_utilization(u) <= MAX_INTEREST_RATE,
{
    if u < PANIC_RATES_THRESHOLD {
        assert(0 <= 88_888 * u / 10_000_000 <= 800_000) by (nonlinear_arith)
            requires
                0 <= u < 90_000_000,
        ;
    } else {
        assert(18_000_000 <= 2_000_000 * u / 10_000_000 <= 20_000_000) by (nonlinear_arith)
            requires
                90_000_000 <= u <= 100_000_000,
        ;
    }
}

/// Annual interest rate for a pool holding `total` tokens of which
/// `available` are not lent out. Fails with `ArithmeticOverflow` only when the
/// lent-out amount is too large to scale in `i128`.
pub fn get_interest(total: i128, available: i128) -> (r: Result<i128, Error>)
    requires
        0 <= available <= total,
    ensures
        match r {
            Ok(rate) => annual_rate_defined(total as int, available as int) && rate == annual_rate(
                total as int,
                available as int,
            ),
            Err(e) => !annual_rate_defined(total as int, available as int) && e
                == Error::ArithmeticOverflow,
        },
        r is Ok ==> BASE_INTEREST_RATE <= r->Ok_0 <= MAX_INTEREST_RATE,
{
    if total > 0 {
        let lent = total - available;
        let scaled = match lent.checked_mul(FULL_UTILIZATION) {
            Some(s) => s,
            None => return Err(Error::ArithmeticOverflow),
        };
        proof {
            assert(0 <= scaled <= total * FULL_UTILIZATION) by (nonlinear_arith)
                requires
                    0 <= lent <= total,
                    scaled == lent * FULL_UTILIZATION,
            ;
            assert(scaled / total <= FULL_UTILIZATION) by (nonlinear_arith)
                requires
                    0 <= scaled <= total * FULL_UTILIZATION,
                    total > 0,
            ;
            lemma_tdiv_nonneg(scaled as int, total as int);
        }
        let ratio = div_nonneg(scaled, total);
        proof {
            lemma_rate_bounds(ratio as int);
        }
        if ratio < PANIC_RATES_THRESHOLD {
            Ok(div_nonneg(SLOPE_BEFORE_PANIC * ratio, SCALE) + BASE_INTEREST_RATE)
        } else {
            Ok(div_nonneg(SLOPE_AFTER_PANIC * ratio, SCALE) + PANIC_BASE_RATE)
        }
    } else {
        Ok(BASE_INTEREST_RATE)
    }
}

} // verus!
