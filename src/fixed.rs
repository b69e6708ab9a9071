//! Fixed-point conventions and the mathematics of checked `i128` arithmetic.
use vstd::prelude::*;

verus! {

/// One whole unit in the fixed-point scale used for indices, rates and
/// health factors (`10_000_000` stands for 1.0).
pub const SCALE: i128 = 10_000_000;

/// Seconds in a year, used to turn elapsed time into a fraction of a year.
pub const SECONDS_IN_YEAR: u64 = 31_556_926;

/// Whether a mathematical integer is representable as an `i128`.
pub open spec fn fits(x: int) -> bool {
    i128::MIN <= x <= i128::MAX
}

/// Integer division truncating toward zero, as Rust's `/` on signed integers.
pub open spec fn tdiv(x: int, d: int) -> int {
    if x == 0 {
        0
    } else if x > 0 && d > 0 {
        x / d
    } else if x < 0 && d < 0 {
        (x * -1) / (d * -1)
    } else if x < 0 {
        ((x * -1) / d) * -1
    } else {
        (x / (d * -1)) * -1
    }
}

/// A checked division `x / d` is defined: the divisor is not zero and the
/// truncated quotient fits.
pub open spec fn div_ok(x: int, d: int) -> bool {
    d != 0 && fits(tdiv(x, d))
}

/// For non-negative operands truncating and Euclidean division agree.
pub proof fn lemma_tdiv_nonneg(x: int, d: int)
    requires
        x >= 0,
        d > 0,
    ensures
        tdiv(x, d) == x / d,
        0 <= x / d <= x,
{
    assert(x / d <= x) by (nonlinear_arith)
        requires
            x >= 0,
            d > 0,
    ;
    assert(0 <= x / d) by (nonlinear_arith)
        requires
            x >= 0,
            d > 0,
    ;
}

/// A product of non-negative factors is non-negative and grows with each factor.
pub proof fn lemma_mul_nonneg(a: int, b: int)
    requires
        a >= 0,
        b >= 0,
    ensures
        a * b >= 0,
        b >= 1 ==> a * b >= a,
{
    assert(a * b >= 0) by (nonlinear_arith)
        requires
            a >= 0,
            b >= 0,
    ;
    assert(b >= 1 ==> a * b >= a) by (nonlinear_arith)
        requires
            a >= 0,
            b >= 0,
    ;
}

/// Quotient of a non-negative dividend by a positive divisor.
pub fn div_nonneg(x: i128, d: i128) -> (q: i128)
    requires
        x >= 0,
        d > 0,
    ensures
        q == x / d,
        0 <= q <= x,
{
    proof {
        lemma_tdiv_nonneg(x as int, d as int);
    }
    match x.checked_div(d) {
        Some(q) => q,
        None => 0,
    }
}

} // verus!
