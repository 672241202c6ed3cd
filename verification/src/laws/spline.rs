//! Theorems about B-spline basis functions, over the reals.

use vstd::prelude::*;

use super::numbers::{lemma_over_sign, lemma_times_nonneg, lemma_times_zero, sum};
use crate::basis::spline::{basis_value, basis_values, blend, indicator};

verus! {

/// Whether knots are in order. They may coincide.
pub open spec fn nondecreasing(knots: Seq<real>) -> bool {
    forall|i: int, j: int| 0 <= i <= j < knots.len() ==> knots[i] <= knots[j]
}

/// The weight of the `i`-th basis function of degree `p - 1` in the `i`-th one
/// of degree `p`.
#[verifier::opaque]
pub open spec fn rise(x: real, knots: Seq<real>, p: nat, i: int) -> real {
    if knots[i + p] == knots[i] {
        0real
    } else {
        (x - knots[i]) / (knots[i + p] - knots[i])
    }
}

/// The weight of the `i + 1`-st basis function of degree `p - 1` in the `i`-th
/// one of degree `p`.
#[verifier::opaque]
pub open spec fn fall(x: real, knots: Seq<real>, p: nat, i: int) -> real {
    if knots[i + p + 1] == knots[i + 1] {
        0real
    } else {
        (knots[i + p + 1] - x) / (knots[i + p + 1] - knots[i + 1])
    }
}

/// Over the reals, one step of the recursion is a combination with these two
/// weights.
pub(crate) proof fn lemma_recursion(x: real, knots: Seq<real>, p: nat, i: int)
    requires
        p >= 1,
    ensures
        basis_value(x, knots, p, i) == rise(x, knots, p, i) * basis_value(
            x,
            knots,
            (p - 1) as nat,
            i,
        ) + fall(x, knots, p, i) * basis_value(x, knots, (p - 1) as nat, i + 1),
{
    reveal(rise);
    reveal(fall);
    let left = basis_value(x, knots, (p - 1) as nat, i);
    let right = basis_value(x, knots, (p - 1) as nat, i + 1);
    assert(basis_value(x, knots, p, i) == blend(x, knots, p, i, left, right));
    lemma_times_zero(left, 0real);
    lemma_times_zero(right, 0real);
}

/// A basis function is zero outside of its support, which reaches from its first
/// knot to right before its last. The one exception is the last basis function,
/// which goes on behind the last knot and, if its degree is zero, at it.
pub proof fn local_support(x: real, knots: Seq<real>, p: nat, i: int)
    requires
        nondecreasing(knots),
        0 <= i,
        i + p + 1 < knots.len(),
        !(knots[i] <= x < knots[i + p + 1]),
        i + p + 1 == knots.len() - 1 ==> x < knots.last() || x == knots.last() && p > 0,
    ensures
        basis_value(x, knots, p, i) == 0real,
    decreases p,
{
    if p > 0 {
        if x == knots.last() {
            lemma_zero_at_end(x, knots, p, i);
        } else {
            let below = (p - 1) as nat;
            local_support(x, knots, below, i);
            local_support(x, knots, below, i + 1);
            lemma_recursion(x, knots, p, i);
            lemma_times_zero(rise(x, knots, p, i), basis_value(x, knots, below, i));
            lemma_times_zero(fall(x, knots, p, i), basis_value(x, knots, below, i + 1));
        }
    }
}

/// At the last knot, all basis functions of degree one or higher are zero.
proof fn lemma_zero_at_end(x: real, knots: Seq<real>, p: nat, i: int)
    requires
        1 <= p,
        0 <= i,
        i + p + 1 < knots.len(),
        x == knots.last(),
    ensures
        basis_value(x, knots, p, i) == 0real,
    decreases p,
{
    let below = (p - 1) as nat;
    lemma_recursion(x, knots, p, i);
    if p > 1 {
        lemma_zero_at_end(x, knots, below, i);
        lemma_zero_at_end(x, knots, below, i + 1);
        lemma_times_zero(rise(x, knots, p, i), basis_value(x, knots, below, i));
        lemma_times_zero(fall(x, knots, p, i), basis_value(x, knots, below, i + 1));
    } else {
        lemma_times_zero(rise(x, knots, p, i), 0real);
        if i + 2 == knots.len() - 1 {
            reveal(fall);
            let d = knots[i + 2] - knots[i + 1];
            assert(d != 0real ==> 0real / d == 0real) by (nonlinear_arith);
            assert(fall(x, knots, p, i) == 0real);
            lemma_times_zero(basis_value(x, knots, below, i + 1), fall(x, knots, p, i));
        } else {
            lemma_times_zero(fall(x, knots, p, i), basis_value(x, knots, below, i + 1));
        }
    }
}

/// Behind the last knot, the last basis function is negative at most for odd
/// degrees and positive at most for even ones.
proof fn lemma_behind_end(x: real, knots: Seq<real>, p: nat, i: int)
    requires
        nondecreasing(knots),
        0 <= i,
        i + p + 1 == knots.len() - 1,
        x > knots.last(),
    ensures
        p % 2 == 0 ==> basis_value(x, knots, p, i) >= 0real,
        p % 2 == 1 ==> basis_value(x, knots, p, i) <= 0real,
    decreases p,
{
    if p > 0 {
        let below = (p - 1) as nat;
        let value = basis_value(x, knots, below, i + 1);
        let weight = fall(x, knots, p, i);
        lemma_behind_end(x, knots, below, i + 1);
        local_support(x, knots, below, i);
        lemma_recursion(x, knots, p, i);
        lemma_times_zero(rise(x, knots, p, i), basis_value(x, knots, below, i));
        assert(weight <= 0real) by {
            reveal(fall);
            let a = x - knots[i + p + 1];
            let d = knots[i + p + 1] - knots[i + 1];
            if d != 0real {
                lemma_over_sign(a, d);
                assert((-a) / d == -(a / d)) by (nonlinear_arith)
                    requires
                        d != 0real,
                ;
            }
        }
        if p % 2 == 0 {
            lemma_times_nonneg(-weight, -value);
            assert((-weight) * (-value) == weight * value) by (nonlinear_arith);
        } else {
            lemma_times_nonneg(-weight, value);
            assert((-weight) * value == -(weight * value)) by (nonlinear_arith);
        }
    }
}

/// No basis function is negative. The one exception is the last one behind the
/// last knot, if its degree is odd.
pub proof fn non_negative(x: real, knots: Seq<real>, p: nat, i: int)
    requires
        nondecreasing(knots),
        0 <= i,
        i + p + 1 < knots.len(),
        i + p + 1 == knots.len() - 1 ==> x <= knots.last() || p % 2 == 0,
    ensures
        basis_value(x, knots, p, i) >= 0real,
    decreases p,
{
    if p > 0 {
        if x == knots.last() {
            lemma_zero_at_end(x, knots, p, i);
        } else if x > knots.last() && i + p + 1 == knots.len() - 1 {
            lemma_behind_end(x, knots, p, i);
        } else if x > knots.last() {
            local_support(x, knots, p, i);
        } else {
            reveal(rise);
            reveal(fall);
            let below = (p - 1) as nat;
            let left = basis_value(x, knots, below, i);
            let right = basis_value(x, knots, below, i + 1);
            non_negative(x, knots, below, i);
            non_negative(x, knots, below, i + 1);
            lemma_recursion(x, knots, p, i);
            if knots[i] <= x && knots[i] != knots[i + p] {
                lemma_over_sign(x - knots[i], knots[i + p] - knots[i]);
            }
            if knots[i] <= x {
                lemma_times_nonneg(rise(x, knots, p, i), left);
            } else {
                local_support(x, knots, below, i);
                lemma_times_zero(rise(x, knots, p, i), left);
            }
            if x < knots[i + p + 1] && knots[i + 1] != knots[i + p + 1] {
                lemma_over_sign(knots[i + p + 1] - x, knots[i + p + 1] - knots[i + 1]);
            }
            if x < knots[i + p + 1] {
                lemma_times_nonneg(fall(x, knots, p, i), right);
            } else {
                local_support(x, knots, below, i + 1);
                lemma_times_zero(fall(x, knots, p, i), right);
            }
        }
    }
}

/// What a basis function gives away to its two successors is all of it.
proof fn lemma_weights_complete(x: real, knots: Seq<real>, p: nat, i: int)
    requires
        nondecreasing(knots),
        1 <= p,
        0 <= i,
        i + p + 1 < knots.len(),
        x < knots.last(),
    ensures
        fall(x, knots, p, i) * basis_value(x, knots, (p - 1) as nat, i + 1) == (1real - rise(
            x,
            knots,
            p,
            i + 1,
        )) * basis_value(x, knots, (p - 1) as nat, i + 1),
{
    reveal(rise);
    reveal(fall);
    let value = basis_value(x, knots, (p - 1) as nat, i + 1);
    if knots[i + p + 1] == knots[i + 1] {
        local_support(x, knots, (p - 1) as nat, i + 1);
        lemma_times_zero(fall(x, knots, p, i), value);
        lemma_times_zero(1real - rise(x, knots, p, i + 1), value);
    } else {
        let a = x - knots[i + 1];
        let d = knots[i + p + 1] - knots[i + 1];
        assert((d - a) / d == 1real - a / d) by (nonlinear_arith)
            requires
                d != 0real,
        ;
    }
}

/// The sum of the first `n` basis functions of degree `p`, in terms of those of
/// degree `p - 1`.
proof fn lemma_partial_sum(x: real, knots: Seq<real>, p: nat, n: nat)
    requires
        nondecreasing(knots),
        1 <= p,
        n + p < knots.len(),
        x < knots.last(),
        basis_value(x, knots, (p - 1) as nat, 0) == 0real,
    ensures
        sum(basis_values(x, knots, p), n) == sum(
            basis_values(x, knots, (p - 1) as nat),
            n + 1,
        ) - rise(x, knots, p, n as int) * basis_value(x, knots, (p - 1) as nat, n as int),
    decreases n,
{
    let below = (p - 1) as nat;
    if n == 0 {
        assert(sum(basis_values(x, knots, below), 0) == 0real);
        assert(sum(basis_values(x, knots, below), 1) == basis_values(x, knots, below)[0]);
        lemma_times_zero(rise(x, knots, p, 0), basis_value(x, knots, below, 0));
    } else {
        let m = (n - 1) as nat;
        lemma_partial_sum(x, knots, p, m);
        lemma_recursion(x, knots, p, m as int);
        lemma_weights_complete(x, knots, p, m as int);
        let value = basis_value(x, knots, below, n as int);
        let r = rise(x, knots, p, n as int);
        assert((1real - r) * value == value - r * value) by (nonlinear_arith);
        assert(basis_values(x, knots, p)[m as int] == basis_value(x, knots, p, m as int));
        assert(basis_values(x, knots, below)[n as int] == value);
    }
}

/// Of the first `n` intervals between knots, `x` lies in one at most.
proof fn lemma_indicator_sum(x: real, knots: Seq<real>, n: nat)
    requires
        nondecreasing(knots),
        n < knots.len(),
        knots[0] <= x < knots.last(),
    ensures
        sum(basis_values(x, knots, 0), n) == (if x < knots[n as int] {
            1real
        } else {
            0real
        }),
    decreases n,
{
    if n > 0 {
        lemma_indicator_sum(x, knots, (n - 1) as nat);
        assert(basis_values(x, knots, 0)[n - 1] == indicator(x, knots, n - 1));
    }
}

/// At the last knot, the basis functions of degree zero sum to one.
proof fn lemma_indicator_sum_at_end(x: real, knots: Seq<real>, n: nat)
    requires
        n < knots.len(),
        x == knots.last(),
    ensures
        sum(basis_values(x, knots, 0), n) == (if n == knots.len() - 1 && n > 0 {
            1real
        } else {
            0real
        }),
    decreases n,
{
    if n > 0 {
        lemma_indicator_sum_at_end(x, knots, (n - 1) as nat);
        assert(basis_values(x, knots, 0)[n - 1] == indicator(x, knots, n - 1));
    }
}

/// The basis functions of degree `k` sum to one wherever all of them that could
/// reach there exist: `k` knots away from either end.
pub proof fn partition_of_unity(x: real, knots: Seq<real>, k: nat)
    requires
        nondecreasing(knots),
        2 * k + 1 < knots.len(),
        knots[k as int] <= x <= knots[knots.len() - 1 - k],
        x < knots.last() || k == 0,
    ensures
        sum(basis_values(x, knots, k), basis_values(x, knots, k).len()) == 1real,
{
    if k == 0 {
        let n = (knots.len() - 1) as nat;
        if x < knots.last() {
            lemma_indicator_sum(x, knots, n);
        } else {
            lemma_indicator_sum_at_end(x, knots, n);
        }
    } else {
        lemma_sums_equal(x, knots, k, k);
    }
}

/// For every degree up to `k`, the basis functions sum to one.
proof fn lemma_sums_equal(x: real, knots: Seq<real>, k: nat, p: nat)
    requires
        nondecreasing(knots),
        1 <= k,
        p <= k,
        2 * k + 1 < knots.len(),
        knots[k as int] <= x <= knots[knots.len() - 1 - k],
        x < knots.last(),
    ensures
        sum(basis_values(x, knots, p), (knots.len() - 1 - p) as nat) == 1real,
    decreases p,
{
    let n = (knots.len() - 1 - p) as nat;
    if p == 0 {
        lemma_indicator_sum(x, knots, n);
    } else {
        let below = (p - 1) as nat;
        lemma_sums_equal(x, knots, k, below);
        local_support(x, knots, below, 0);
        lemma_partial_sum(x, knots, p, n);
        let value = basis_value(x, knots, below, n as int);
        if x < knots[n as int] {
            local_support(x, knots, below, n as int);
            lemma_times_zero(rise(x, knots, p, n as int), value);
        } else {
            assert(x == knots[n as int]);
            reveal(rise);
            if knots[(n + p) as int] != knots[n as int] {
                lemma_over_sign(x - knots[n as int], knots[(n + p) as int] - knots[n as int]);
            }
            lemma_times_zero(value, rise(x, knots, p, n as int));
        }
    }
}

} // verus!
