//! Differences of ReLU-KAN basis functions are close to their slopes, over the
//! reals.

use vstd::prelude::*;

use super::bump::{lemma_bump_inside, lemma_normalizer, zero_outside_support};
use super::bump_slope::{
    bump_slope_is_derivative, bumps_at, curvature, lemma_leaving, lemma_slope_inside, slope_at,
};
use super::numbers::{
    distance, lemma_bounded_product, lemma_distribute, lemma_over_sign, lemma_rearrange,
    lemma_square_nonneg, lemma_times_nonneg, lemma_times_zero,
};
use crate::basis::bump::{bump_value, in_support, normalizer, slope_sum};
use crate::scalar::dot;

verus! {

/// How far the difference quotient of a bump with the step `h` can be from its
/// slope at `x`: of second order if both sides are inside of the support, nothing
/// if they do not reach it, and of first order in between.
#[verifier::opaque]
pub open spec fn difference_error(x: real, h: real, s: real, e: real) -> real {
    if s < x - h && x + h < e {
        2real * (normalizer(e - s) * (distance(e - x, x - s) * (h * h)))
    } else if x + h <= s || e <= x - h || e <= s {
        0real
    } else if !in_support(x, s, e) {
        curvature(s, e) / 6real * h
    } else {
        curvature(s, e) * h
    }
}

/// Both sides inside of the support.
#[verifier::spinoff_prover]
proof fn lemma_difference_inside(x: real, h: real, s: real, e: real)
    requires
        h > 0real,
        s < x - h,
        x + h < e,
    ensures
        bump_value(x + h, s, e) - bump_value(x - h, s, e) - 2real * (h * slope_at(x, s, e))
            == -(2real * (h * (2real * (normalizer(e - s) * (((e - x) - (x - s)) * (h * h)))))),
{
    let n = normalizer(e - s);
    let u = e - x;
    let v = x - s;
    let c = u - v;
    let p = u * v;
    let sq = h * h;
    lemma_bump_inside(x + h, s, e);
    lemma_bump_inside(x - h, s, e);
    lemma_slope_inside(x, s, e);
    let above = (u - h) * (v + h);
    let below = (u + h) * (v - h);
    assert(e - (x + h) == u - h && (x + h) - s == v + h);
    assert(e - (x - h) == u + h && (x - h) - s == v - h);
    let hc = h * c;
    assert(above == p + hc - sq) by (nonlinear_arith)
        requires
            above == (u - h) * (v + h),
            p == u * v,
            hc == h * (u - v),
            sq == h * h,
    ;
    assert(below == p - hc - sq) by (nonlinear_arith)
        requires
            below == (u + h) * (v - h),
            p == u * v,
            hc == h * (u - v),
            sq == h * h,
    ;
    let t = p - sq;
    assert(above * above - below * below == 4real * (hc * t)) by (nonlinear_arith)
        requires
            above == t + hc,
            below == t - hc,
    ;
    let aa = above * above;
    let bb = below * below;
    assert(n * aa - n * bb == n * (aa - bb)) by (nonlinear_arith);
    lemma_distribute(hc, p, -sq);
    assert(hc * -sq == -(hc * sq)) by (nonlinear_arith);
    let a = hc * p;
    let b = hc * sq;
    assert(n * (4real * (a - b)) == 4real * (n * a) - 4real * (n * b)) by (nonlinear_arith);
    assert(h * (n * (2real * (p * c))) == 2real * (n * a)) by (nonlinear_arith)
        requires
            a == (h * c) * p,
    ;
    assert(h * (2real * (n * (c * sq))) == 2real * (n * b)) by (nonlinear_arith)
        requires
            b == (h * c) * sq,
    ;
}

/// The difference of a bump over two steps and its slope.
#[verifier::spinoff_prover]
proof fn lemma_difference(x: real, h: real, s: real, e: real)
    requires
        h > 0real,
    ensures
        distance(
            bump_value(x + h, s, e) - bump_value(x - h, s, e),
            2real * (h * slope_at(x, s, e)),
        ) <= 2real * (h * difference_error(x, h, s, e)),
{
    reveal(difference_error);
    let slope = slope_at(x, s, e);
    let n = normalizer(e - s);
    if s < x - h && x + h < e {
        lemma_difference_inside(x, h, s, e);
        lemma_normalizer(e - s);
        let c = (e - x) - (x - s);
        let size = distance(e - x, x - s);
        let sq = h * h;
        lemma_square_nonneg(h);
        lemma_bounded_product(c, size, sq, sq);
        let most = size * sq;
        let off = c * sq;
        lemma_bounded_product(n, n, off, most);
        lemma_bounded_product(h, h, 2real * (n * off), 2real * (n * most));
    } else if x + h <= s || e <= x - h || e <= s {
        zero_outside_support(x + h, s, e);
        zero_outside_support(x - h, s, e);
        lemma_times_zero(h, 0real);
    } else if !in_support(x, s, e) {
        lemma_difference_outside(x, h, s, e);
    } else {
        bump_slope_is_derivative(x, x + h, s, e);
        bump_slope_is_derivative(x, x - h, s, e);
        let k = curvature(s, e);
        assert((x + h) - x == h && (x - h) - x == -h);
        assert((-h) * (-h) == h * h && (-h) * slope == -(h * slope)) by (nonlinear_arith);
        assert(k * (h * h) == h * (k * h)) by (nonlinear_arith);
    }
}

/// A point outside of the support with a side that can reach into it.
#[verifier::spinoff_prover]
proof fn lemma_difference_outside(x: real, h: real, s: real, e: real)
    requires
        h > 0real,
        s < e,
        x <= s || e <= x,
    ensures
        distance(
            bump_value(x + h, s, e) - bump_value(x - h, s, e),
            2real * (h * slope_at(x, s, e)),
        ) <= 2real * (h * (curvature(s, e) / 6real * h)),
{
    let n = normalizer(e - s);
    let w = e - s;
    let c = n * (w * w);
    let sq = h * h;
    lemma_normalizer(w);
    lemma_times_zero(h, 0real);
    lemma_square_nonneg(h);
    lemma_times_nonneg(n, w * w);
    lemma_times_nonneg(c, sq);
    assert(curvature(s, e) / 6real == c / 2real);
    let half = c / 2real;
    assert(2real * (h * (half * h)) == (2real * half) * (h * h)) by (nonlinear_arith);
    if x <= s {
        zero_outside_support(x - h, s, e);
        lemma_reaching_in(x, x + h, s, e);
    } else {
        zero_outside_support(x + h, s, e);
        lemma_reaching_in(x, x - h, s, e);
        assert((-h) * (-h) == h * h) by (nonlinear_arith);
    }
}

/// How large a bump can be at `y`, as seen from outside of its support.
#[verifier::spinoff_prover]
proof fn lemma_reaching_in(x: real, y: real, s: real, e: real)
    requires
        s < e,
        x <= s || e <= x,
    ensures
        0real <= bump_value(y, s, e) <= normalizer(e - s) * ((e - s) * (e - s)) * ((y - x) * (y
            - x)),
{
    let n = normalizer(e - s);
    let w = e - s;
    let d = y - x;
    lemma_normalizer(w);
    lemma_square_nonneg(d);
    lemma_times_nonneg(n, w * w);
    lemma_times_nonneg(n * (w * w), d * d);
    if in_support(y, s, e) {
        let u = e - y;
        let v = y - s;
        lemma_bump_inside(y, s, e);
        lemma_square_nonneg(u * v);
        lemma_times_nonneg(n, (u * v) * (u * v));
        if x <= s {
            lemma_leaving(n, w, v, u, d);
        } else {
            lemma_leaving(n, w, u, v, d);
            lemma_rearrange(u, v, 0real);
        }
    } else {
        zero_outside_support(y, s, e);
    }
}

/// How far the difference quotient of a weighted sum of bumps can be from its
/// slope.
pub open spec fn total_difference_error(
    x: real,
    h: real,
    starts: Seq<real>,
    ends: Seq<real>,
    weights: Seq<real>,
    n: nat,
) -> real
    decreases n,
{
    if n == 0 {
        0real
    } else {
        total_difference_error(x, h, starts, ends, weights, (n - 1) as nat) + distance(
            weights[n - 1],
            0real,
        ) * difference_error(x, h, starts[n - 1], ends[n - 1])
    }
}

/// A weight scales the error of a difference.
#[verifier::spinoff_prover]
proof fn lemma_weighted_difference(
    w: real,
    above: real,
    below: real,
    h: real,
    slope: real,
    error: real,
)
    requires
        distance(above - below, 2real * (h * slope)) <= 2real * (h * error),
    ensures
        ({
            let off = w * above - w * below - 2real * (h * (w * slope));
            let most = 2real * (h * (distance(w, 0real) * error));
            -most <= off <= most
        }),
{
    let size = distance(w, 0real);
    let off = (above - below) - 2real * (h * slope);
    lemma_bounded_product(w, size, off, 2real * (h * error));
    assert(w * off == w * above - w * below - 2real * (h * (w * slope))) by (nonlinear_arith)
        requires
            off == (above - below) - 2real * (h * slope),
    ;
    assert(size * (2real * (h * error)) == 2real * (h * (size * error))) by (nonlinear_arith);
}

/// The difference of a weighted sum of bumps over two steps and its slope.
#[verifier::spinoff_prover]
proof fn lemma_total_difference(
    x: real,
    h: real,
    starts: Seq<real>,
    ends: Seq<real>,
    weights: Seq<real>,
    n: nat,
)
    requires
        n <= starts.len(),
        h > 0real,
    ensures
        distance(
            dot(weights, bumps_at(x + h, starts, ends), n) - dot(
                weights,
                bumps_at(x - h, starts, ends),
                n,
            ),
            2real * (h * slope_sum(x, starts, ends, weights, n)),
        ) <= 2real * (h * total_difference_error(x, h, starts, ends, weights, n)),
    decreases n,
{
    if n == 0 {
        lemma_times_zero(h, 0real);
    } else {
        let m = (n - 1) as nat;
        let s = starts[m as int];
        let e = ends[m as int];
        let w = weights[m as int];
        let size = distance(w, 0real);
        lemma_total_difference(x, h, starts, ends, weights, m);
        lemma_difference(x, h, s, e);
        let above = bump_value(x + h, s, e);
        let below = bump_value(x - h, s, e);
        let slope = slope_at(x, s, e);
        let error = difference_error(x, h, s, e);
        assert(bumps_at(x + h, starts, ends)[m as int] == above);
        assert(bumps_at(x - h, starts, ends)[m as int] == below);
        let before = slope_sum(x, starts, ends, weights, m);
        lemma_times_zero(w, 0real);
        assert(slope_sum(x, starts, ends, weights, n) == before + w * slope);
        lemma_weighted_difference(w, above, below, h, slope, error);
        lemma_distribute(h, before, w * slope);
        let rest = total_difference_error(x, h, starts, ends, weights, m);
        lemma_distribute(h, rest, size * error);
    }
}

/// What the backward operation adds to the gradient of a point is close to a
/// difference quotient of what the forward operation computes on both sides of
/// it.
pub proof fn bump_gradient_is_close_to_differences(
    x: real,
    h: real,
    starts: Seq<real>,
    ends: Seq<real>,
    weights: Seq<real>,
    n: nat,
)
    requires
        n <= starts.len(),
        h > 0real,
    ensures
        distance(
            (dot(weights, bumps_at(x + h, starts, ends), n) - dot(
                weights,
                bumps_at(x - h, starts, ends),
                n,
            )) / (2real * h),
            slope_sum(x, starts, ends, weights, n),
        ) <= total_difference_error(x, h, starts, ends, weights, n),
{
    let above = dot(weights, bumps_at(x + h, starts, ends), n);
    let below = dot(weights, bumps_at(x - h, starts, ends), n);
    let g = slope_sum(x, starts, ends, weights, n);
    let error = total_difference_error(x, h, starts, ends, weights, n);
    lemma_total_difference(x, h, starts, ends, weights, n);
    let q = (above - below) / (2real * h);
    lemma_over_sign(above - below, 2real * h);
    lemma_divided_error(q, g, error, h);
}

/// An error of a difference, divided by the steps.
proof fn lemma_divided_error(q: real, g: real, error: real, h: real)
    requires
        h > 0real,
        -(2real * (h * error)) <= q * (2real * h) - 2real * (h * g) <= 2real * (h * error),
    ensures
        distance(q, g) <= error,
{
    let off = q - g;
    assert(q * (2real * h) - 2real * (h * g) == 2real * (off * h)) by (nonlinear_arith)
        requires
            off == q - g,
    ;
    assert(-error <= off <= error) by (nonlinear_arith)
        requires
            h > 0real,
            -(h * error) <= off * h <= h * error,
    ;
}

} // verus!
