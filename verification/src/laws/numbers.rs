//! Real arithmetic, and finite sums.

use vstd::prelude::*;

verus! {

/// The sum of the first `n` numbers of a sequence.
pub open spec fn sum(s: Seq<real>, n: nat) -> real
    decreases n,
{
    if n == 0 {
        0real
    } else {
        sum(s, (n - 1) as nat) + s[n - 1]
    }
}

/// The distance between two numbers.
pub open spec fn distance(a: real, b: real) -> real {
    if a < b {
        b - a
    } else {
        a - b
    }
}

/// A product with zero is zero.
#[verifier::spinoff_prover]
pub(crate) proof fn lemma_times_zero(a: real, b: real)
    requires
        b == 0real,
    ensures
        a * b == 0real,
        b * a == 0real,
{
    assert(a * b == 0real && b * a == 0real) by (nonlinear_arith)
        requires
            b == 0real,
    ;
}

/// A product of numbers that are not negative is not negative.
#[verifier::spinoff_prover]
pub(crate) proof fn lemma_times_nonneg(a: real, b: real)
    requires
        a >= 0real,
        b >= 0real,
    ensures
        a * b >= 0real,
{
    assert(a * b >= 0real) by (nonlinear_arith)
        requires
            a >= 0real,
            b >= 0real,
    ;
}

/// A quotient by a positive number has the sign of the dividend.
#[verifier::spinoff_prover]
pub(crate) proof fn lemma_over_sign(a: real, d: real)
    requires
        d > 0real,
    ensures
        a >= 0real ==> a / d >= 0real,
        a > 0real ==> a / d > 0real,
        a == 0real ==> a / d == 0real,
        a / d * d == a,
{
    assert(a >= 0real ==> a / d >= 0real) by (nonlinear_arith)
        requires
            d > 0real,
    ;
    assert(a > 0real ==> a / d > 0real) by (nonlinear_arith)
        requires
            d > 0real,
    ;
    assert(a == 0real ==> a / d == 0real) by (nonlinear_arith)
        requires
            d > 0real,
    ;
    assert(a / d * d == a) by (nonlinear_arith)
        requires
            d > 0real,
    ;
}

/// A product of two bounded numbers is bounded.
#[verifier::spinoff_prover]
pub(crate) proof fn lemma_bounded_product(a: real, a_most: real, b: real, b_most: real)
    requires
        -a_most <= a <= a_most,
        -b_most <= b <= b_most,
    ensures
        -(a_most * b_most) <= a * b <= a_most * b_most,
{
    lemma_times_nonneg(a_most - a, b_most + b);
    lemma_times_nonneg(a_most + a, b_most - b);
    lemma_times_nonneg(a_most - a, b_most - b);
    lemma_times_nonneg(a_most + a, b_most + b);
    assert((a_most - a) * (b_most + b) + (a_most + a) * (b_most - b) == 2real * (a_most * b_most)
        - 2real * (a * b)) by (nonlinear_arith);
    assert((a_most - a) * (b_most - b) + (a_most + a) * (b_most + b) == 2real * (a_most * b_most)
        + 2real * (a * b)) by (nonlinear_arith);
}

/// A quotient is determined by the product with the divisor.
#[verifier::spinoff_prover]
pub(crate) proof fn lemma_quotient(n: real, d: real, q: real)
    requires
        d != 0real,
        n == q * d,
    ensures
        n / d == q,
{
    assert(q * d / d == q) by (nonlinear_arith)
        requires
            d != 0real,
    ;
}

/// To divide is to multiply by the reciprocal.
#[verifier::spinoff_prover]
pub(crate) proof fn lemma_over_is_times(a: real, d: real)
    requires
        d > 0real,
    ensures
        a / d == a * (1real / d),
        1real / d > 0real,
{
    let v = 1real / d;
    lemma_over_sign(1real, d);
    assert(v * d == 1real);
    assert(a * v * d == a * (v * d)) by (nonlinear_arith);
    assert(a * 1real == a) by (nonlinear_arith);
    lemma_quotient(a, d, a * v);
}

/// Multiplication distributes over addition.
#[verifier::spinoff_prover]
pub(crate) proof fn lemma_distribute(a: real, b: real, c: real)
    ensures
        a * (b + c) == a * b + a * c,
        (b + c) * a == b * a + c * a,
{
    assert(a * (b + c) == a * b + a * c && (b + c) * a == b * a + c * a) by (nonlinear_arith);
}

/// Factors can be moved past each other.
#[verifier::spinoff_prover]
pub(crate) proof fn lemma_rearrange(a: real, b: real, c: real)
    ensures
        a * b == b * a,
        a * (b * c) == b * (a * c),
        (a * b) * c == a * (b * c),
{
    assert(a * b == b * a) by (nonlinear_arith);
    assert(a * (b * c) == b * (a * c) && (a * b) * c == a * (b * c)) by (nonlinear_arith);
}

/// A square is not negative.
#[verifier::spinoff_prover]
pub(crate) proof fn lemma_square_nonneg(a: real)
    ensures
        a * a >= 0real,
{
    if a >= 0real {
        lemma_times_nonneg(a, a);
    } else {
        lemma_times_nonneg(-a, -a);
        assert((-a) * (-a) == a * a) by (nonlinear_arith);
    }
}

} // verus!
