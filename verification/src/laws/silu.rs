//! Theorems about the SiLU function, over the reals.

use vstd::prelude::*;

use super::meaning::exponential_is_positive;
use super::numbers::{
    distance, lemma_distribute, lemma_over_sign, lemma_quotient, lemma_times_nonneg,
};
use crate::nn::kan_lut::silu_value;
use crate::scalar::{is_exponential, Algebra};

verus! {

/// SiLU is zero at zero.
pub proof fn silu_at_zero()
    ensures
        silu_value(0real) == 0real,
{
    exponential_is_positive(-0real);
    lemma_over_sign(0real, 1real + (-0real).exponential());
}

/// Opposite arguments have reciprocal exponentials.
pub proof fn exponentials_are_reciprocal(x: real)
    ensures
        x.exponential() * (-x).exponential() == 1real,
{
    let f = choose|f: spec_fn(real) -> real| is_exponential(f);
    if is_exponential(f) {
        let one = f(0real);
        assert(f(x + (-x)) == f(x) * f(-x));
        assert(f(0real + 0real) == f(0real) * f(0real));
        assert(f(0real) >= 1real + 0real);
        assert(one == 1real) by (nonlinear_arith)
            requires
                one == one * one,
                one >= 1real,
        ;
    } else {
        assert(1real * 1real == 1real) by (nonlinear_arith);
    }
}

/// A quotient by one more than `e`, where the dividend is not negative.
proof fn lemma_over_one_more(x: real, e: real)
    requires
        x >= 0real,
        e > 0real,
    ensures
        0real <= x - x / (1real + e) <= x * e,
        0real <= x / (1real + e) <= x,
        (x / (1real + e)) * e <= x,
{
    let q = x / (1real + e);
    lemma_over_sign(x, 1real + e);
    lemma_distribute(q, 1real, e);
    assert(q * 1real == q) by (nonlinear_arith);
    lemma_times_nonneg(q, e);
    // x - q is q * e, which is at most x * e.
    lemma_times_nonneg(x - q, e);
    lemma_distribute(e, x, -q);
    assert((-q) * e == -(q * e)) by (nonlinear_arith);
}

/// For arguments that are not negative, SiLU is close to the identity, and for
/// their opposites it is close to zero: the error is at most `x * exp(-x)`.
pub proof fn silu_is_close_far_out(x: real)
    requires
        x >= 0real,
    ensures
        0real <= x - silu_value(x) <= x * (-x).exponential(),
        -(x * (-x).exponential()) <= silu_value(-x) <= 0real,
{
    let e = x.exponential();
    let r = (-x).exponential();
    exponential_is_positive(x);
    exponential_is_positive(-x);
    exponentials_are_reciprocal(x);
    lemma_over_one_more(x, r);
    lemma_over_one_more(x, e);
    // SiLU of -x is the opposite of x / (1 + e).
    let q = x / (1real + e);
    assert(-(-x) == x);
    lemma_over_sign(x, 1real + e);
    assert((-q) * (1real + e) == -(q * (1real + e))) by (nonlinear_arith);
    lemma_quotient(-x, 1real + e, -q);
    // q * e is at most x, so that q is at most x * r.
    lemma_times_nonneg(x - q * e, r);
    lemma_distribute(r, x, -(q * e));
    assert((-(q * e)) * r == -(q * (e * r))) by (nonlinear_arith);
    assert(q * 1real == q) by (nonlinear_arith);
}

/// The square of a number that is bounded below.
proof fn lemma_square_at_least(a: real, low: real, most: real)
    requires
        a >= low,
        low >= 0real,
        low * low >= most,
    ensures
        a * a >= most,
{
    lemma_times_nonneg(a - low, a + low);
    assert((a - low) * (a + low) == a * a - low * low) by (nonlinear_arith);
}

/// The exponential of ten exceeds ten thousand.
proof fn lemma_exponential_of_ten()
    requires
        exists|f: spec_fn(real) -> real| is_exponential(f),
    ensures
        10real.exponential() > 10000real,
{
    let f = choose|f: spec_fn(real) -> real| is_exponential(f);
    // Start at 10 / 128 and double the argument seven times.
    let x = 10real / 128real;
    assert(f(x) >= 1real + x);
    assert(f(x + x) == f(x) * f(x));
    lemma_square_at_least(f(x), 1078real / 1000real, 1162real / 1000real);
    let x = x + x;
    assert(f(x + x) == f(x) * f(x));
    lemma_square_at_least(f(x), 1162real / 1000real, 135real / 100real);
    let x = x + x;
    assert(f(x + x) == f(x) * f(x));
    lemma_square_at_least(f(x), 135real / 100real, 182real / 100real);
    let x = x + x;
    assert(f(x + x) == f(x) * f(x));
    lemma_square_at_least(f(x), 182real / 100real, 331real / 100real);
    let x = x + x;
    assert(f(x + x) == f(x) * f(x));
    lemma_square_at_least(f(x), 331real / 100real, 109real / 10real);
    let x = x + x;
    assert(f(x + x) == f(x) * f(x));
    lemma_square_at_least(f(x), 109real / 10real, 118real);
    let x = x + x;
    assert(f(x + x) == f(x) * f(x));
    lemma_square_at_least(f(x), 118real, 13900real);
    assert(x + x == 10real);
}

/// SiLU is within a thousandth of ten at ten, and within a thousandth of zero at
/// minus ten. That there is an exponential function is a premise, since it does
/// not follow from arithmetic alone.
pub proof fn silu_at_ten()
    requires
        exists|f: spec_fn(real) -> real| is_exponential(f),
    ensures
        distance(silu_value(10real), 10real) < 1real / 1000real,
        distance(silu_value(-10real), 0real) < 1real / 1000real,
{
    let e = 10real.exponential();
    let r = (-10real).exponential();
    lemma_exponential_of_ten();
    exponential_is_positive(-10real);
    exponentials_are_reciprocal(10real);
    silu_is_close_far_out(10real);
    assert(r < 1real / 10000real) by (nonlinear_arith)
        requires
            e * r == 1real,
            e > 10000real,
            r > 0real,
    ;
}

} // verus!
