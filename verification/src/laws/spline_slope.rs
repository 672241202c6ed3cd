//! The slopes of B-spline basis functions are their derivatives, over the reals.
//!
//! A basis function consists of polynomials, one for each interval between two
//! knots. The polynomials have derivatives by the product rule, and where two of
//! them meet, they have the same value and, from degree two on, the same slope.

use vstd::prelude::*;

use super::derivative::{has_derivative, touches};
use super::numbers::{
    distance, lemma_bounded_product, lemma_distribute, lemma_over_is_times, lemma_over_sign,
    lemma_quotient, lemma_rearrange, lemma_square_nonneg, lemma_times_nonneg, lemma_times_zero,
};
use super::spline::{fall, lemma_recursion, rise};
use crate::basis::spline::{basis_slope, basis_value};

verus! {

/// Whether no two knots coincide and all are in order.
pub open spec fn increasing(knots: Seq<real>) -> bool {
    forall|i: int, j: int| 0 <= i < j < knots.len() ==> knots[i] < knots[j]
}

/// The polynomial that the `i`-th basis function of degree `p` is on the `j`-th
/// interval between two knots, at any point.
spec fn piece(x: real, knots: Seq<real>, p: nat, i: int, j: int) -> real
    decreases p,
{
    if p == 0 {
        if i == j {
            1real
        } else {
            0real
        }
    } else {
        let below = (p - 1) as nat;
        rise(x, knots, p, i) * piece(x, knots, below, i, j) + fall(x, knots, p, i) * piece(
            x,
            knots,
            below,
            i + 1,
            j,
        )
    }
}

/// Whether `x` lies in the `j`-th interval. The interval in front of the first
/// knot has the number -1, and the last one has no end.
spec fn in_piece(x: real, knots: Seq<real>, j: int) -> bool {
    &&& -1 <= j < knots.len() - 1
    &&& j >= 0 ==> knots[j] <= x
    &&& j + 1 < knots.len() - 1 ==> x < knots[j + 1]
}

/// On an interval, a basis function is its polynomial.
proof fn lemma_is_piece(x: real, knots: Seq<real>, p: nat, i: int, j: int)
    requires
        increasing(knots),
        0 <= i,
        i + p + 1 < knots.len(),
        in_piece(x, knots, j),
    ensures
        basis_value(x, knots, p, i) == piece(x, knots, p, i, j),
    decreases p,
{
    if p == 0 {
        let last = knots.len() - 1;
        if j >= 0 && i < j {
            assert(knots[i + 1] <= knots[j]);
        } else if i > j {
            assert(j + 1 < last);
            assert(knots[j + 1] <= knots[i]);
        }
        if j < last - 1 {
            assert(x < knots[j + 1]);
            assert(knots[j + 1] < knots[last]);
        }
    } else {
        let below = (p - 1) as nat;
        lemma_is_piece(x, knots, below, i, j);
        lemma_is_piece(x, knots, below, i + 1, j);
        lemma_recursion(x, knots, p, i);
    }
}

/// Every point lies in some interval.
proof fn lemma_some_piece(x: real, knots: Seq<real>, n: nat) -> (j: int)
    requires
        n < knots.len() - 1,
        n == knots.len() - 2 || x < knots[n as int + 1],
    ensures
        in_piece(x, knots, j),
    decreases n,
{
    if x >= knots[n as int] {
        n as int
    } else if n == 0 {
        -1
    } else {
        lemma_some_piece(x, knots, (n - 1) as nat)
    }
}

/// The `i`-th polynomial of degree `q`, divided by the width of the support.
#[verifier::opaque]
spec fn per_width(x: real, knots: Seq<real>, q: nat, i: int, j: int) -> real {
    piece(x, knots, q, i, j) / (knots[i + q + 1] - knots[i])
}

/// The derivative of a polynomial by the product rule.
spec fn derivative(x: real, knots: Seq<real>, p: nat, i: int, j: int) -> real
    decreases p,
{
    if p == 0 {
        0real
    } else {
        let below = (p - 1) as nat;
        (per_width(x, knots, below, i, j) + rise(x, knots, p, i) * derivative(
            x,
            knots,
            below,
            i,
            j,
        )) + (-per_width(x, knots, below, i + 1, j) + fall(x, knots, p, i) * derivative(
            x,
            knots,
            below,
            i + 1,
            j,
        ))
    }
}

/// `b0 / w0 - b1 / w1`, where the two are made of three values one degree lower.
#[verifier::spinoff_prover]
proof fn lemma_slope_step(
    x: real,
    t0: real,
    t1: real,
    tp: real,
    tq: real,
    s0: real,
    s1: real,
    s2: real,
)
    requires
        t0 < tp,
        t1 < tq,
    ensures
        ((x - t0) / (tp - t0)) * (s0 - s1) + ((tq - x) / (tq - t1)) * (s1 - s2) == ((x - t0) * s0
            + (tp - x) * s1) / (tp - t0) - ((x - t1) * s1 + (tq - x) * s2) / (tq - t1),
{
    let w = tp - t0;
    let v = tq - t1;
    let a = (x - t0) / w;
    let c = (tq - x) / v;
    lemma_over_sign(x - t0, w);
    lemma_over_sign(tq - x, v);
    // (tp - x) = (1 - a) w and (x - t1) = (1 - c) v.
    assert((a * s0 + (1real - a) * s1) * w == (a * w) * s0 + (w - a * w) * s1)
        by (nonlinear_arith);
    assert(w - a * w == tp - x);
    lemma_quotient((x - t0) * s0 + (tp - x) * s1, w, a * s0 + (1real - a) * s1);
    assert(((1real - c) * s1 + c * s2) * v == (v - c * v) * s1 + (c * v) * s2)
        by (nonlinear_arith);
    assert(v - c * v == x - t1);
    lemma_quotient((x - t1) * s1 + (tq - x) * s2, v, (1real - c) * s1 + c * s2);
    assert(a * (s0 - s1) + c * (s1 - s2) == a * s0 + (1real - a) * s1 - ((1real - c) * s1 + c
        * s2)) by (nonlinear_arith);
}

/// A weight times a value is a length times the value per width.
#[verifier::spinoff_prover]
proof fn lemma_regroup(a: real, u: real, c: real)
    requires
        u > 0real,
    ensures
        a / u * c == a * (c / u),
{
    let v = 1real / u;
    lemma_over_is_times(a, u);
    lemma_over_is_times(c, u);
    assert(a * v * c == a * (c * v)) by (nonlinear_arith);
}

/// A polynomial in terms of two of the next lower degree, each per width.
#[verifier::spinoff_prover]
proof fn lemma_value_split(x: real, knots: Seq<real>, p: nat, i: int, j: int)
    requires
        increasing(knots),
        1 <= p,
        0 <= i,
        i + p + 1 < knots.len(),
    ensures
        piece(x, knots, p, i, j) == (x - knots[i]) * per_width(x, knots, (p - 1) as nat, i, j) + (
        knots[i + p + 1] - x) * per_width(x, knots, (p - 1) as nat, i + 1, j),
{
    reveal(rise);
    reveal(fall);
    reveal(per_width);
    lemma_regroup(
        x - knots[i],
        knots[i + p] - knots[i],
        piece(x, knots, (p - 1) as nat, i, j),
    );
    lemma_regroup(
        knots[i + p + 1] - x,
        knots[i + p + 1] - knots[i + 1],
        piece(x, knots, (p - 1) as nat, i + 1, j),
    );
}

/// The difference of two neighbours per width is a combination of such
/// differences of the next lower degree.
#[verifier::spinoff_prover]
proof fn lemma_slope_recursion(x: real, knots: Seq<real>, p: nat, i: int, j: int)
    requires
        increasing(knots),
        2 <= p,
        0 <= i,
        i + p + 1 < knots.len(),
    ensures
        rise(x, knots, p, i) * (per_width(x, knots, (p - 2) as nat, i, j) - per_width(
            x,
            knots,
            (p - 2) as nat,
            i + 1,
            j,
        )) + fall(x, knots, p, i) * (per_width(x, knots, (p - 2) as nat, i + 1, j) - per_width(
            x,
            knots,
            (p - 2) as nat,
            i + 2,
            j,
        )) == per_width(x, knots, (p - 1) as nat, i, j) - per_width(
            x,
            knots,
            (p - 1) as nat,
            i + 1,
            j,
        ),
{
    let s0 = per_width(x, knots, (p - 2) as nat, i, j);
    let s1 = per_width(x, knots, (p - 2) as nat, i + 1, j);
    let s2 = per_width(x, knots, (p - 2) as nat, i + 2, j);
    lemma_value_split(x, knots, (p - 1) as nat, i, j);
    lemma_value_split(x, knots, (p - 1) as nat, i + 1, j);
    lemma_slope_step(x, knots[i], knots[i + 1], knots[i + p], knots[i + p + 1], s0, s1, s2);
    assert(rise(x, knots, p, i) == (x - knots[i]) / (knots[i + p] - knots[i])) by {
        reveal(rise);
    }
    assert(fall(x, knots, p, i) == (knots[i + p + 1] - x) / (knots[i + p + 1] - knots[i + 1])) by {
        reveal(fall);
    }
    assert(per_width(x, knots, (p - 1) as nat, i, j) == piece(x, knots, (p - 1) as nat, i, j) / (
    knots[i + p] - knots[i])) by {
        reveal(per_width);
    }
    assert(per_width(x, knots, (p - 1) as nat, i + 1, j) == piece(
        x,
        knots,
        (p - 1) as nat,
        i + 1,
        j,
    ) / (knots[i + p + 1] - knots[i + 1])) by {
        reveal(per_width);
    }
}

/// The product rule leads to the formula for the slope.
#[verifier::spinoff_prover]
proof fn lemma_derivative_formula(x: real, knots: Seq<real>, p: nat, i: int, j: int)
    requires
        increasing(knots),
        1 <= p,
        0 <= i,
        i + p + 1 < knots.len(),
    ensures
        derivative(x, knots, p, i, j) == (p as int as real) * (per_width(
            x,
            knots,
            (p - 1) as nat,
            i,
            j,
        ) - per_width(x, knots, (p - 1) as nat, i + 1, j)),
    decreases p,
{
    let below = (p - 1) as nat;
    let a = rise(x, knots, p, i);
    let c = fall(x, knots, p, i);
    let g = per_width(x, knots, below, i, j) - per_width(x, knots, below, i + 1, j);
    let d0 = derivative(x, knots, below, i, j);
    let d1 = derivative(x, knots, below, i + 1, j);
    assert(derivative(x, knots, p, i, j) == g + a * d0 + c * d1);
    if p == 1 {
        lemma_times_zero(a, d0);
        lemma_times_zero(c, d1);
        assert(1real * g == g) by (nonlinear_arith);
    } else {
        let low = (p - 2) as nat;
        lemma_derivative_formula(x, knots, below, i, j);
        lemma_derivative_formula(x, knots, below, i + 1, j);
        lemma_slope_recursion(x, knots, p, i, j);
        let e0 = per_width(x, knots, low, i, j) - per_width(x, knots, low, i + 1, j);
        let e1 = per_width(x, knots, low, i + 1, j) - per_width(x, knots, low, i + 2, j);
        lemma_scaled_sum(a, c, below as int as real, e0, e1, g);
    }
}

/// `g` and `n` times `g`, when `g` is a sum of two products.
#[verifier::spinoff_prover]
proof fn lemma_scaled_sum(a: real, c: real, n: real, e0: real, e1: real, g: real)
    requires
        a * e0 + c * e1 == g,
    ensures
        g + a * (n * e0) + c * (n * e1) == (n + 1real) * g,
{
    lemma_rearrange(a, n, e0);
    lemma_rearrange(c, n, e1);
    lemma_distribute(n, a * e0, c * e1);
    lemma_distribute(g, n, 1real);
    assert(1real * g == g) by (nonlinear_arith);
}

/// How far a product of a linear function and a function with a derivative is
/// from its tangent.
#[verifier::spinoff_prover]
proof fn lemma_product_error(
    weight_y: real,
    weight: real,
    rate: real,
    delta: real,
    value_y: real,
    value: real,
    slope: real,
    m: real,
    most: real,
)
    requires
        weight_y == weight + delta * rate,
        distance(value_y, value + delta * slope) <= m * (delta * delta),
        -most <= weight_y <= most,
        m >= 0real,
    ensures
        distance(
            weight_y * value_y,
            weight * value + delta * (rate * value + weight * slope),
        ) <= (most * m + distance(rate * slope, 0real)) * (delta * delta),
{
    let line = value + delta * slope;
    let e = value_y - line;
    let sq = delta * delta;
    let r = rate * slope;
    let s = distance(r, 0real);
    lemma_square_nonneg(delta);
    // weight_y * value_y is weight * value, the tangent, and what is left over.
    lemma_distribute(weight_y, line, e);
    lemma_distribute(line, weight, delta * rate);
    lemma_distribute(weight, value, delta * slope);
    lemma_distribute(delta * rate, value, delta * slope);
    lemma_distribute(delta, rate * value, weight * slope);
    lemma_rearrange(weight, delta, slope);
    lemma_rearrange(delta, rate, value);
    lemma_rearrange(delta, rate, delta * slope);
    lemma_rearrange(rate, delta, slope);
    lemma_rearrange(delta, delta, r);
    assert(weight_y * line == weight * value + delta * (rate * value + weight * slope) + sq * r);
    assert(weight_y * value_y == weight_y * line + weight_y * e);
    // What is left over is bounded.
    lemma_bounded_product(weight_y, most, e, m * sq);
    lemma_bounded_product(r, s, sq, sq);
    lemma_rearrange(sq, r, 0real);
    lemma_distribute(sq, most * m, s);
    lemma_rearrange(most, m, sq);
}

/// The slope of the two weights of the recursion that grow and fall over the
/// width of `p` intervals from the `i`-th knot on.
#[verifier::opaque]
spec fn rate(knots: Seq<real>, p: nat, i: int) -> real {
    1real / (knots[i + p] - knots[i])
}

/// A bound for the two weights between `start` and `end`.
#[verifier::opaque]
spec fn reach(knots: Seq<real>, p: nat, i: int, start: real, end: real) -> real {
    (end - start) / (knots[i + p] - knots[i])
}

/// A weight of the recursion is a linear function of the point, and on an interval
/// that holds the knots it is bounded.
#[verifier::spinoff_prover]
proof fn lemma_weight_linear(x: real, y: real, from: real, to: real, start: real, end: real)
    requires
        from < to,
        start <= from,
        to <= end,
        start <= y <= end,
    ensures
        (y - from) / (to - from) == (x - from) / (to - from) + (y - x) * (1real / (to - from)),
        (to - y) / (to - from) == (to - x) / (to - from) + (y - x) * -(1real / (to - from)),
        -((end - start) / (to - from)) <= (y - from) / (to - from) <= (end - start) / (to - from),
        -((end - start) / (to - from)) <= (to - y) / (to - from) <= (end - start) / (to - from),
        (end - start) / (to - from) >= 0real,
{
    let w = to - from;
    let v = 1real / w;
    lemma_over_is_times(y - from, w);
    lemma_over_is_times(x - from, w);
    lemma_over_is_times(to - y, w);
    lemma_over_is_times(to - x, w);
    lemma_over_is_times(end - start, w);
    assert((y - from) * v == (x - from) * v + (y - x) * v) by (nonlinear_arith);
    assert((to - y) * v == (to - x) * v + (y - x) * -v) by (nonlinear_arith);
    let big = end - start;
    lemma_bounded_product(y - from, big, v, v);
    lemma_bounded_product(to - y, big, v, v);
    lemma_times_nonneg(big, v);
}

/// The weight that grows is linear and bounded.
#[verifier::spinoff_prover]
proof fn lemma_rise_linear(
    x: real,
    y: real,
    knots: Seq<real>,
    p: nat,
    i: int,
    start: real,
    end: real,
)
    requires
        increasing(knots),
        1 <= p,
        0 <= i,
        i + p < knots.len(),
        start <= knots[i],
        knots[i + p] <= end,
        start <= y <= end,
    ensures
        rise(y, knots, p, i) == rise(x, knots, p, i) + (y - x) * rate(knots, p, i),
        -reach(knots, p, i, start, end) <= rise(y, knots, p, i) <= reach(knots, p, i, start, end),
        reach(knots, p, i, start, end) >= 0real,
{
    reveal(rise);
    reveal(rate);
    reveal(reach);
    lemma_weight_linear(x, y, knots[i], knots[i + p], start, end);
}

/// The weight that falls is linear and bounded.
#[verifier::spinoff_prover]
proof fn lemma_fall_linear(
    x: real,
    y: real,
    knots: Seq<real>,
    p: nat,
    i: int,
    start: real,
    end: real,
)
    requires
        increasing(knots),
        1 <= p,
        0 <= i,
        i + p + 1 < knots.len(),
        start <= knots[i + 1],
        knots[i + p + 1] <= end,
        start <= y <= end,
    ensures
        fall(y, knots, p, i) == fall(x, knots, p, i) + (y - x) * -rate(knots, p, i + 1),
        -reach(knots, p, i + 1, start, end) <= fall(y, knots, p, i) <= reach(
            knots,
            p,
            i + 1,
            start,
            end,
        ),
        reach(knots, p, i + 1, start, end) >= 0real,
{
    reveal(fall);
    reveal(rate);
    reveal(reach);
    lemma_weight_linear(x, y, knots[i + 1], knots[i + p + 1], start, end);
}

/// A value per width is the value times the slope of the weights.
#[verifier::spinoff_prover]
proof fn lemma_per_width(x: real, knots: Seq<real>, p: nat, i: int, j: int)
    requires
        increasing(knots),
        1 <= p,
        0 <= i,
        i + p < knots.len(),
    ensures
        per_width(x, knots, (p - 1) as nat, i, j) == rate(knots, p, i) * piece(
            x,
            knots,
            (p - 1) as nat,
            i,
            j,
        ),
{
    reveal(per_width);
    reveal(rate);
    let b = piece(x, knots, (p - 1) as nat, i, j);
    let w = knots[i + p] - knots[i];
    lemma_over_is_times(b, w);
    lemma_rearrange(b, 1real / w, 0real);
}

/// A product with a negated factor.
#[verifier::spinoff_prover]
proof fn lemma_negated_product(a: real, b: real)
    ensures
        (-a) * b == -(a * b),
{
    assert((-a) * b == -(a * b)) by (nonlinear_arith);
}

/// How far one step of the recursion is from its tangent, as a multiple of the
/// square of the distance.
spec fn step_bound(
    knots: Seq<real>,
    p: nat,
    i: int,
    start: real,
    end: real,
    d0: real,
    d1: real,
    m0: real,
    m1: real,
) -> real {
    (reach(knots, p, i, start, end) * m0 + distance(rate(knots, p, i) * d0, 0real)) + (reach(
        knots,
        p,
        i + 1,
        start,
        end,
    ) * m1 + distance((-rate(knots, p, i + 1)) * d1, 0real))
}

/// The error of the tangent of one step of the recursion.
#[verifier::spinoff_prover]
proof fn lemma_step_error(
    x: real,
    y: real,
    knots: Seq<real>,
    p: nat,
    i: int,
    j: int,
    start: real,
    end: real,
    d0: real,
    d1: real,
    m0: real,
    m1: real,
)
    requires
        increasing(knots),
        1 <= p,
        0 <= i,
        i + p + 1 < knots.len(),
        start <= knots[0],
        knots.last() <= end,
        start <= y <= end,
        m0 >= 0real,
        m1 >= 0real,
        distance(
            piece(y, knots, (p - 1) as nat, i, j),
            piece(x, knots, (p - 1) as nat, i, j) + (y - x) * d0,
        ) <= m0 * ((y - x) * (y - x)),
        distance(
            piece(y, knots, (p - 1) as nat, i + 1, j),
            piece(x, knots, (p - 1) as nat, i + 1, j) + (y - x) * d1,
        ) <= m1 * ((y - x) * (y - x)),
    ensures
        distance(
            piece(y, knots, p, i, j),
            piece(x, knots, p, i, j) + (y - x) * ((per_width(x, knots, (p - 1) as nat, i, j)
                + rise(x, knots, p, i) * d0) + (-per_width(x, knots, (p - 1) as nat, i + 1, j)
                + fall(x, knots, p, i) * d1)),
        ) <= step_bound(knots, p, i, start, end, d0, d1, m0, m1) * ((y - x) * (y - x)),
{
    let below = (p - 1) as nat;
    let delta = y - x;
    let sq = delta * delta;
    let a = rise(x, knots, p, i);
    let c = fall(x, knots, p, i);
    let b0 = piece(x, knots, below, i, j);
    let b1 = piece(x, knots, below, i + 1, j);
    let b0y = piece(y, knots, below, i, j);
    let b1y = piece(y, knots, below, i + 1, j);
    let r0 = rate(knots, p, i);
    let r1 = -rate(knots, p, i + 1);
    let k0 = reach(knots, p, i, start, end);
    let k1 = reach(knots, p, i + 1, start, end);
    lemma_rise_linear(x, y, knots, p, i, start, end);
    lemma_fall_linear(x, y, knots, p, i, start, end);
    lemma_per_width(x, knots, p, i, j);
    lemma_per_width(x, knots, p, i + 1, j);
    lemma_negated_product(rate(knots, p, i + 1), b1);
    lemma_product_error(rise(y, knots, p, i), a, r0, delta, b0y, b0, d0, m0, k0);
    lemma_product_error(fall(y, knots, p, i), c, r1, delta, b1y, b1, d1, m1, k1);
    let e0 = k0 * m0 + distance(r0 * d0, 0real);
    let e1 = k1 * m1 + distance(r1 * d1, 0real);
    lemma_distribute(sq, e0, e1);
    lemma_distribute(delta, r0 * b0 + a * d0, r1 * b1 + c * d1);
}

/// Whether the tangent of a polynomial at `x` is off by at most `m` times the
/// square of the distance, between `start` and `end`.
spec fn piece_touches(
    x: real,
    knots: Seq<real>,
    p: nat,
    i: int,
    j: int,
    start: real,
    end: real,
    m: real,
) -> bool {
    forall|y: real|
        start <= y <= end ==> distance(
            #[trigger] piece(y, knots, p, i, j),
            piece(x, knots, p, i, j) + (y - x) * derivative(x, knots, p, i, j),
        ) <= m * ((y - x) * (y - x))
}

/// A polynomial has the derivative that the product rule gives.
#[verifier::spinoff_prover]
proof fn lemma_piece_touches(
    x: real,
    knots: Seq<real>,
    p: nat,
    i: int,
    j: int,
    start: real,
    end: real,
) -> (m: real)
    requires
        increasing(knots),
        0 <= i,
        i + p + 1 < knots.len(),
        start <= knots[0],
        knots.last() <= end,
        start <= x <= end,
    ensures
        m >= 0real,
        piece_touches(x, knots, p, i, j, start, end, m),
    decreases p,
{
    if p == 0 {
        assert forall|y: real| start <= y <= end implies distance(
            #[trigger] piece(y, knots, p, i, j),
            piece(x, knots, p, i, j) + (y - x) * derivative(x, knots, p, i, j),
        ) <= 0real * ((y - x) * (y - x)) by {
            lemma_times_zero(y - x, derivative(x, knots, p, i, j));
            lemma_times_zero((y - x) * (y - x), 0real);
        }
        0real
    } else {
        let below = (p - 1) as nat;
        let m0 = lemma_piece_touches(x, knots, below, i, j, start, end);
        let m1 = lemma_piece_touches(x, knots, below, i + 1, j, start, end);
        let d0 = derivative(x, knots, below, i, j);
        let d1 = derivative(x, knots, below, i + 1, j);
        let m = step_bound(knots, p, i, start, end, d0, d1, m0, m1);
        assert(m >= 0real) by {
            lemma_rise_linear(x, x, knots, p, i, start, end);
            lemma_fall_linear(x, x, knots, p, i, start, end);
            lemma_times_nonneg(reach(knots, p, i, start, end), m0);
            lemma_times_nonneg(reach(knots, p, i + 1, start, end), m1);
        }
        assert forall|y: real| start <= y <= end implies distance(
            #[trigger] piece(y, knots, p, i, j),
            piece(x, knots, p, i, j) + (y - x) * derivative(x, knots, p, i, j),
        ) <= m * ((y - x) * (y - x)) by {
            assert(distance(
                piece(y, knots, below, i, j),
                piece(x, knots, below, i, j) + (y - x) * d0,
            ) <= m0 * ((y - x) * (y - x)));
            assert(distance(
                piece(y, knots, below, i + 1, j),
                piece(x, knots, below, i + 1, j) + (y - x) * d1,
            ) <= m1 * ((y - x) * (y - x)));
            lemma_step_error(x, y, knots, p, i, j, start, end, d0, d1, m0, m1);
        }
        m
    }
}

/// Where two intervals meet, the polynomials of degree one and higher have the
/// same value.
#[verifier::spinoff_prover]
proof fn lemma_pieces_meet(knots: Seq<real>, p: nat, i: int, j: int)
    requires
        increasing(knots),
        1 <= p,
        0 <= i,
        i + p + 1 < knots.len(),
        0 <= j < knots.len() - 1,
    ensures
        piece(knots[j], knots, p, i, j - 1) == piece(knots[j], knots, p, i, j),
    decreases p,
{
    let x = knots[j];
    let below = (p - 1) as nat;
    if p == 1 {
        reveal(rise);
        reveal(fall);
        if i == j {
            lemma_over_sign(x - knots[i], knots[i + 1] - knots[i]);
        }
        if i == j - 1 {
            lemma_quotient(x - knots[i], knots[i + 1] - knots[i], 1real);
            lemma_quotient(knots[i + 2] - x, knots[i + 2] - knots[i + 1], 1real);
        }
        if i == j - 2 {
            lemma_over_sign(knots[i + 2] - x, knots[i + 2] - knots[i + 1]);
        }
        assert(piece(x, knots, 1, i, j - 1) == rise(x, knots, 1, i) * piece(x, knots, 0, i, j - 1)
            + fall(x, knots, 1, i) * piece(x, knots, 0, i + 1, j - 1));
        assert(piece(x, knots, 1, i, j) == rise(x, knots, 1, i) * piece(x, knots, 0, i, j) + fall(
            x,
            knots,
            1,
            i,
        ) * piece(x, knots, 0, i + 1, j));
        lemma_times_zero(rise(x, knots, 1, i), 0real);
        lemma_times_zero(fall(x, knots, 1, i), 0real);
        assert(rise(x, knots, 1, i) * 1real == rise(x, knots, 1, i)) by (nonlinear_arith);
        assert(fall(x, knots, 1, i) * 1real == fall(x, knots, 1, i)) by (nonlinear_arith);
    } else {
        lemma_pieces_meet(knots, below, i, j);
        lemma_pieces_meet(knots, below, i + 1, j);
    }
}

/// Where two intervals meet, the polynomials of degree two and higher have the
/// same slope.
proof fn lemma_slopes_meet(knots: Seq<real>, p: nat, i: int, j: int)
    requires
        increasing(knots),
        2 <= p,
        0 <= i,
        i + p + 1 < knots.len(),
        0 <= j < knots.len() - 1,
    ensures
        derivative(knots[j], knots, p, i, j - 1) == derivative(knots[j], knots, p, i, j),
{
    let x = knots[j];
    lemma_derivative_formula(x, knots, p, i, j - 1);
    lemma_derivative_formula(x, knots, p, i, j);
    lemma_pieces_meet(knots, (p - 1) as nat, i, j);
    lemma_pieces_meet(knots, (p - 1) as nat, i + 1, j);
    reveal(per_width);
}

/// Where no two knots coincide, the slope of a basis function is that of its
/// polynomial.
#[verifier::spinoff_prover]
proof fn lemma_slope_formula(x: real, knots: Seq<real>, k: usize, i: int, j: int)
    requires
        increasing(knots),
        1 <= k,
        0 <= i,
        i + k + 1 < knots.len(),
        in_piece(x, knots, j),
    ensures
        basis_slope(x, knots, k, i) == derivative(x, knots, k as nat, i, j),
{
    lemma_derivative_formula(x, knots, k as nat, i, j);
    lemma_is_piece(x, knots, (k - 1) as nat, i, j);
    lemma_is_piece(x, knots, (k - 1) as nat, i + 1, j);
    reveal(per_width);
    assert(knots[i] < knots[i + k]);
    assert(knots[i + 1] < knots[i + k + 1]);
}

/// The basis function as a function of the point.
pub open spec fn basis_function(knots: Seq<real>, k: usize, i: int) -> spec_fn(real) -> real {
    |y: real| basis_value(y, knots, k as nat, i)
}

/// How far around a point one can go without leaving the interval on its right.
spec fn room_right(x: real, knots: Seq<real>, j: int) -> real {
    if j + 1 < knots.len() - 1 && knots[j + 1] - x < 1real {
        knots[j + 1] - x
    } else {
        1real
    }
}

/// How far around a point one can go to the left without getting in front of the
/// `j`-th knot.
spec fn room_left(x: real, knots: Seq<real>, j: int) -> real {
    if j >= 0 && x - knots[j] < 1real {
        x - knots[j]
    } else {
        1real
    }
}

/// The slope of a basis function is its derivative, at every point. The one
/// exception are linear splines, which have kinks at their knots, other than the
/// last.
pub proof fn slope_is_derivative(x: real, knots: Seq<real>, k: usize, i: int)
    requires
        increasing(knots),
        1 <= k,
        0 <= i,
        i + k + 1 < knots.len(),
        k >= 2 || forall|j: int| 0 <= j < knots.len() - 1 ==> knots[j] != x,
    ensures
        has_derivative(basis_function(knots, k, i), x, basis_slope(x, knots, k, i)),
{
    let p = k as nat;
    let f = basis_function(knots, k, i);
    let slope = basis_slope(x, knots, k, i);
    let j = lemma_some_piece(x, knots, (knots.len() - 2) as nat);
    let start = if x - 1real < knots[0] {
        x - 1real
    } else {
        knots[0]
    };
    let end = if x + 1real > knots.last() {
        x + 1real
    } else {
        knots.last()
    };
    let right = lemma_piece_touches(x, knots, p, i, j, start, end);
    lemma_slope_formula(x, knots, k, i, j);
    lemma_is_piece(x, knots, p, i, j);
    let at_knot = j >= 0 && knots[j] == x;
    let before = if at_knot {
        j - 1
    } else {
        j
    };
    let left = lemma_piece_touches(x, knots, p, i, before, start, end);
    if at_knot {
        lemma_pieces_meet(knots, p, i, j);
        lemma_slopes_meet(knots, p, i, j);
    }
    let r0 = room_left(x, knots, before);
    let r1 = room_right(x, knots, j);
    let r = if r0 < r1 {
        r0
    } else {
        r1
    };
    let m = left + right;
    assert(r > 0real);
    assert forall|y: real| x - r < y < x + r implies distance(
        #[trigger] f(y),
        f(x) + (y - x) * slope,
    ) <= m * ((y - x) * (y - x)) by {
        let sq = (y - x) * (y - x);
        lemma_square_nonneg(y - x);
        lemma_distribute(sq, left, right);
        lemma_times_nonneg(left, sq);
        lemma_times_nonneg(right, sq);
        assert(start <= y <= end);
        let side = if y < x {
            before
        } else {
            j
        };
        assert(in_piece(y, knots, side));
        lemma_is_piece(y, knots, p, i, side);
        assert(piece(y, knots, p, i, side) == f(y));
    }
    assert(touches(f, x, slope, r, m));
}

} // verus!
