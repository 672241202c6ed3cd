//! The slopes of ReLU-KAN basis functions are their derivatives, over the reals.

use vstd::prelude::*;

use super::bump::{lemma_bump_inside, lemma_normalizer, zero_outside_support};
use super::numbers::{
    distance, lemma_bounded_product, lemma_distribute, lemma_rearrange, lemma_square_nonneg,
    lemma_times_nonneg, lemma_times_zero,
};
use crate::basis::bump::{bump_slope, bump_value, in_support, normalizer, slope_sum};
use crate::scalar::{dot, zero, Algebra};

verus! {

/// The slope of a bump at any point: outside of its support, a bump is flat.
pub open spec fn slope_at(x: real, s: real, e: real) -> real {
    if in_support(x, s, e) {
        bump_slope(x, s, e)
    } else {
        0real
    }
}

/// How fast a bump can leave its tangent, as a multiple of the square of the
/// distance.
pub open spec fn curvature(s: real, e: real) -> real {
    if s < e {
        3real * (normalizer(e - s) * ((e - s) * (e - s)))
    } else {
        0real
    }
}

/// The slope inside of the support, in terms of the distances to its ends.
#[verifier::spinoff_prover]
pub(crate) proof fn lemma_slope_inside(x: real, s: real, e: real)
    requires
        s < x < e,
    ensures
        bump_slope(x, s, e) == normalizer(e - s) * (2real * (((e - x) * (x - s)) * ((e - x) - (x
            - s)))),
{
    let n = normalizer(e - s);
    let u = e - x;
    let v = x - s;
    let d = u - v;
    assert(bump_slope(x, s, e) == 2real * n * u * v * d);
    assert(2real * n * u * v * d == n * (2real * ((u * v) * d))) by (nonlinear_arith);
}

/// Distances of points inside of an interval, and the products of two.
#[verifier::spinoff_prover]
proof fn lemma_square_bound(a: real, w: real)
    requires
        -w <= a <= w,
    ensures
        a * a <= w * w,
{
    lemma_bounded_product(a, w, a, w);
}

/// The remainder of the tangent, inside of the support, in a closed form.
#[verifier::spinoff_prover]
proof fn lemma_remainder(u: real, v: real, d: real)
    ensures
        ((u - d) * (v + d)) * ((u - d) * (v + d)) - (u * v) * (u * v) - d * (2real * ((u * v) * (u
            - v))) == (d * d) * ((u - v - d) * (u - v - d) - 2real * (u * v)),
{
    let p = u * v;
    let c = u - v;
    let f = c - d;
    // The product at the other point is p + d * f.
    assert((u - d) * (v + d) == p + d * f) by (nonlinear_arith)
        requires
            p == u * v,
            f == u - v - d,
    ;
    let g = d * f;
    assert((p + g) * (p + g) == p * p + 2real * (p * g) + g * g) by (nonlinear_arith);
    assert(p * (d * f) == d * (p * f)) by (nonlinear_arith);
    assert((d * f) * (d * f) == (d * d) * (f * f)) by (nonlinear_arith);
    assert(p * f == p * c - p * d) by (nonlinear_arith)
        requires
            f == c - d,
    ;
    lemma_distribute(d, p * c, -(p * d));
    assert(d * -(p * d) == -((d * d) * p)) by (nonlinear_arith);
    assert(d * (2real * (p * c)) == 2real * (d * (p * c))) by (nonlinear_arith);
    let sq = d * d;
    assert(sq * (f * f - 2real * p) == sq * (f * f) - 2real * (sq * p)) by (nonlinear_arith);
}

/// Both points inside of the support.
#[verifier::spinoff_prover]
proof fn lemma_both_inside(x: real, y: real, s: real, e: real)
    requires
        s < x < e,
        s < y < e,
    ensures
        distance(
            bump_value(y, s, e),
            bump_value(x, s, e) + (y - x) * bump_slope(x, s, e),
        ) <= curvature(s, e) * ((y - x) * (y - x)),
{
    let n = normalizer(e - s);
    let w = e - s;
    let ww = w * w;
    let u = e - x;
    let v = x - s;
    let d = y - x;
    let sq = d * d;
    let f = u - v - d;
    lemma_normalizer(w);
    lemma_bump_inside(x, s, e);
    lemma_bump_inside(y, s, e);
    lemma_slope_inside(x, s, e);
    let p = u * v;
    let py = (e - y) * (y - s);
    let k = 2real * (p * (u - v));
    assert(e - y == u - d && y - s == v + d);
    lemma_remainder(u, v, d);
    let r = f * f - 2real * p;
    assert(py * py == p * p + d * k + sq * r);
    // The difference is n * (sq * r).
    lemma_distribute(n, p * p + d * k, sq * r);
    lemma_distribute(n, p * p, d * k);
    lemma_rearrange(n, d, k);
    lemma_rearrange(n, sq, r);
    // r is between -2 * ww and ww.
    lemma_square_nonneg(f);
    lemma_square_bound(f, w);
    lemma_times_nonneg(u, v);
    lemma_bounded_product(u, w, v, w);
    lemma_square_nonneg(d);
    lemma_times_nonneg(n, sq);
    lemma_bounded_product(n * sq, n * sq, r, 3real * ww);
    lemma_rearrange(n, sq, 3real * ww);
    let c = n * ww;
    assert(sq * (n * (3real * ww)) == (3real * (n * ww)) * sq) by (nonlinear_arith);
    assert((n * sq) * r == n * (sq * r)) by (nonlinear_arith);
    assert((n * sq) * (3real * ww) == sq * (n * (3real * ww))) by (nonlinear_arith);
}

/// One point inside of the support, the other beyond an end that is `near` away.
#[verifier::spinoff_prover]
pub(crate) proof fn lemma_leaving(n: real, w: real, near: real, far: real, d: real)
    requires
        n >= 0real,
        near >= 0real,
        far >= 0real,
        near + far == w,
        near <= d || near <= -d,
    ensures
        n * ((far * near) * (far * near)) <= n * (w * w) * (d * d),
        -(2real * (n * (w * w) * (d * d))) <= d * (n * (2real * ((far * near) * (far - near)))) <= 2real
            * (n * (w * w) * (d * d)),
{
    let ww = w * w;
    let sq = d * d;
    lemma_square_nonneg(d);
    lemma_square_bound(near, if d >= 0real { d } else { -d });
    assert((-d) * (-d) == d * d) by (nonlinear_arith);
    // far * near squared.
    lemma_square_bound(far, w);
    lemma_square_nonneg(far);
    lemma_square_nonneg(near);
    lemma_bounded_product(far * far, ww, near * near, sq);
    assert((far * near) * (far * near) == (far * far) * (near * near)) by (nonlinear_arith);
    let m = (far * near) * (far * near);
    lemma_times_nonneg(n, ww * sq - m);
    lemma_distribute(n, ww * sq, -m);
    assert(n * -m == -(n * m)) by (nonlinear_arith);
    lemma_rearrange(n, ww, sq);
    // d * near is at most sq in size, far * (far - near) at most ww.
    let a = if d >= 0real { d } else { -d };
    lemma_bounded_product(d, a, near, a);
    assert(a * a == sq);
    lemma_bounded_product(far, w, far - near, w);
    let dn = d * near;
    let ff = far * (far - near);
    lemma_bounded_product(dn, sq, ff, ww);
    let t = dn * ff;
    lemma_times_nonneg(n, sq * ww - t);
    lemma_times_nonneg(n, sq * ww + t);
    lemma_distribute(n, sq * ww, -t);
    lemma_distribute(n, sq * ww, t);
    assert(n * -t == -(n * t)) by (nonlinear_arith);
    lemma_rearrange(sq, ww, 0real);
    assert(d * (n * (2real * ((far * near) * (far - near)))) == 2real * (n * ((d * near) * (far * (
    far - near))))) by (nonlinear_arith);
}

/// `x` inside of the support, `y` outside.
#[verifier::spinoff_prover]
proof fn lemma_from_inside(x: real, y: real, s: real, e: real)
    requires
        s < x < e,
        y <= s || e <= y,
    ensures
        distance(0real, bump_value(x, s, e) + (y - x) * bump_slope(x, s, e)) <= curvature(s, e) * ((
        y - x) * (y - x)),
{
    let n = normalizer(e - s);
    let w = e - s;
    let u = e - x;
    let v = x - s;
    let d = y - x;
    let sq = d * d;
    let c = n * (w * w);
    lemma_normalizer(w);
    lemma_bump_inside(x, s, e);
    lemma_slope_inside(x, s, e);
    lemma_square_nonneg(u * v);
    lemma_times_nonneg(n, (u * v) * (u * v));
    if y <= s {
        lemma_leaving(n, w, v, u, d);
    } else {
        lemma_leaving(n, w, u, v, d);
        lemma_rearrange(u, v, 0real);
        assert(d * (n * (2real * ((u * v) * (u - v)))) == -(d * (n * (2real * ((v * u) * (v
            - u)))))) by (nonlinear_arith);
    }
    assert((3real * c) * sq == 3real * (c * sq)) by (nonlinear_arith);
}

/// `x` outside of the support, `y` inside.
#[verifier::spinoff_prover]
proof fn lemma_from_outside(x: real, y: real, s: real, e: real)
    requires
        s < y < e,
        x <= s || e <= x,
    ensures
        distance(bump_value(y, s, e), 0real) <= curvature(s, e) * ((y - x) * (y - x)),
{
    let n = normalizer(e - s);
    let w = e - s;
    let u = e - y;
    let v = y - s;
    let d = y - x;
    let sq = d * d;
    let c = n * (w * w);
    lemma_normalizer(w);
    lemma_bump_inside(y, s, e);
    if x <= s {
        lemma_leaving(n, w, v, u, d);
    } else {
        lemma_leaving(n, w, u, v, d);
        lemma_rearrange(u, v, 0real);
    }
    let m = (u * v) * (u * v);
    lemma_square_nonneg(u * v);
    lemma_times_nonneg(n, m);
    lemma_square_nonneg(d);
    lemma_square_nonneg(w);
    lemma_times_nonneg(n, w * w);
    lemma_times_nonneg(c, sq);
    assert((3real * c) * sq == 3real * (c * sq)) by (nonlinear_arith);
}

/// The slope of a bump is its derivative, at every point: the error of the
/// tangent is at most proportional to the square of the distance.
#[verifier::spinoff_prover]
pub proof fn bump_slope_is_derivative(x: real, y: real, s: real, e: real)
    ensures
        distance(
            bump_value(y, s, e),
            bump_value(x, s, e) + (y - x) * slope_at(x, s, e),
        ) <= curvature(s, e) * ((y - x) * (y - x)),
{
    lemma_square_nonneg(y - x);
    if !in_support(x, s, e) {
        zero_outside_support(x, s, e);
        lemma_times_zero(y - x, 0real);
    }
    if !in_support(y, s, e) {
        zero_outside_support(y, s, e);
    }
    if in_support(x, s, e) && in_support(y, s, e) {
        lemma_both_inside(x, y, s, e);
    } else if in_support(x, s, e) {
        lemma_from_inside(x, y, s, e);
    } else if in_support(y, s, e) {
        lemma_from_outside(x, y, s, e);
    } else if s < e {
        let w = e - s;
        lemma_normalizer(w);
        lemma_times_nonneg(normalizer(w), w * w);
        lemma_times_nonneg(curvature(s, e), (y - x) * (y - x));
    } else {
        lemma_times_zero((y - x) * (y - x), 0real);
    }
}

/// A point that no bump reaches receives no gradient. This holds for every kind
/// of number, and whatever the weights are.
#[verifier::spinoff_prover]
pub proof fn no_gradient_outside<T: Algebra>(
    x: T,
    starts: Seq<T>,
    ends: Seq<T>,
    weights: Seq<T>,
    n: nat,
)
    requires
        forall|i: int| 0 <= i < n ==> !in_support(x, #[trigger] starts[i], ends[i]),
    ensures
        slope_sum(x, starts, ends, weights, n) == zero::<T>(),
    decreases n,
{
    if n > 0 {
        no_gradient_outside(x, starts, ends, weights, (n - 1) as nat);
        assert(!in_support(x, starts[n - 1], ends[n - 1]));
    }
}

/// The values of all bumps at `x`.
pub open spec fn bumps_at(x: real, starts: Seq<real>, ends: Seq<real>) -> Seq<real> {
    Seq::new(starts.len(), |i: int| bump_value(x, starts[i], ends[i]))
}

/// How fast a weighted sum of bumps can leave its tangent.
pub open spec fn total_curvature(
    starts: Seq<real>,
    ends: Seq<real>,
    weights: Seq<real>,
    n: nat,
) -> real
    decreases n,
{
    if n == 0 {
        0real
    } else {
        total_curvature(starts, ends, weights, (n - 1) as nat) + distance(weights[n - 1], 0real)
            * curvature(starts[n - 1], ends[n - 1])
    }
}

/// What the backward operation adds to the gradient of a point is the derivative
/// of the weighted sum of the basis values that the forward operation computes
/// there.
#[verifier::spinoff_prover]
pub proof fn bump_gradient_is_derivative(
    x: real,
    y: real,
    starts: Seq<real>,
    ends: Seq<real>,
    weights: Seq<real>,
    n: nat,
)
    requires
        n <= starts.len(),
    ensures
        distance(
            dot(weights, bumps_at(y, starts, ends), n),
            dot(weights, bumps_at(x, starts, ends), n) + (y - x) * slope_sum(
                x,
                starts,
                ends,
                weights,
                n,
            ),
        ) <= total_curvature(starts, ends, weights, n) * ((y - x) * (y - x)),
    decreases n,
{
    let d = y - x;
    let sq = d * d;
    if n == 0 {
        lemma_times_zero(d, 0real);
        lemma_times_zero(sq, 0real);
    } else {
        let m = (n - 1) as nat;
        let s = starts[m as int];
        let e = ends[m as int];
        let w = weights[m as int];
        let c = curvature(s, e);
        let size = distance(w, 0real);
        bump_gradient_is_derivative(x, y, starts, ends, weights, m);
        bump_slope_is_derivative(x, y, s, e);
        let slope = slope_at(x, s, e);
        let before = slope_sum(x, starts, ends, weights, m);
        lemma_times_zero(w, 0real);
        assert(slope_sum(x, starts, ends, weights, n) == before + w * slope);
        let ry = bump_value(y, s, e);
        let rx = bump_value(x, s, e);
        assert(bumps_at(y, starts, ends)[m as int] == ry);
        assert(bumps_at(x, starts, ends)[m as int] == rx);
        lemma_weighted_error(w, ry, rx, d, slope, c * sq);
        lemma_distribute(d, before, w * slope);
        let rest = total_curvature(starts, ends, weights, m);
        lemma_distribute(sq, rest, size * c);
        lemma_rearrange(size, c, sq);
    }
}

/// A weight scales the error of a tangent.
#[verifier::spinoff_prover]
proof fn lemma_weighted_error(
    w: real,
    ry: real,
    rx: real,
    d: real,
    slope: real,
    error: real,
)
    requires
        distance(ry, rx + d * slope) <= error,
    ensures
        -(distance(w, 0real) * error) <= w * ry - (w * rx + d * (w * slope)) <= distance(w, 0real)
            * error,
{
    let t = ry - (rx + d * slope);
    lemma_bounded_product(w, distance(w, 0real), t, error);
    lemma_rearrange(d, w, slope);
    lemma_distribute(w, rx, d * slope);
    lemma_distribute(w, rx + d * slope, t);
}

} // verus!
