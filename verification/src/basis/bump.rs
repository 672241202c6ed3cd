//! The bump functions that a ReLU-KAN layer is built from:
//! `[ReLU(e - x) * ReLU(x - s)]^2 * 16 / (e - s)^4`.

use vstd::prelude::*;

use crate::scalar::{zero, Algebra, Scalar};

verus! {

/// The factor that makes a bump of width `width` peak at one.
pub open spec fn normalizer<T: Algebra>(width: T) -> T {
    T::of_count(16).over(width.times(width).times(width).times(width))
}

/// The bump between `s` and `e` at `x`.
pub open spec fn bump_value<T: Algebra>(x: T, s: T, e: T) -> T {
    let u = e.minus(x).larger(zero());
    let v = x.minus(s).larger(zero());
    let width = e.minus(s);
    let norm = if zero::<T>().less(width) {
        normalizer(width)
    } else {
        zero()
    };
    norm.times(u.times(v)).times(u.times(v))
}

/// Whether `x` lies strictly inside the support of the bump between `s` and `e`.
pub open spec fn in_support<T: Algebra>(x: T, s: T, e: T) -> bool {
    !x.at_most(s) && !e.at_most(x)
}

/// The derivative at `x`, inside its support, of the bump between `s` and `e`.
pub open spec fn bump_slope<T: Algebra>(x: T, s: T, e: T) -> T {
    let u = e.minus(x);
    let v = x.minus(s);
    T::of_count(2).times(normalizer(e.minus(s))).times(u).times(v).times(u.minus(v))
}

/// The sum of the slopes of the first `n` bumps at `x`, each weighted by
/// `weights`. Bumps that `x` is not inside of are passed over.
pub open spec fn slope_sum<T: Algebra>(
    x: T,
    starts: Seq<T>,
    ends: Seq<T>,
    weights: Seq<T>,
    n: nat,
) -> T
    decreases n,
{
    if n == 0 {
        zero()
    } else {
        let rest = slope_sum(x, starts, ends, weights, (n - 1) as nat);
        let i = n - 1;
        if in_support(x, starts[i], ends[i]) {
            rest.plus(weights[i].times(bump_slope(x, starts[i], ends[i])))
        } else {
            rest
        }
    }
}

/// Computes the normalizing factor.
fn normalize<T: Scalar>(width: T) -> (r: T)
    ensures
        r == normalizer(width),
{
    T::from_count(16).div(width.mul(width).mul(width).mul(width))
}

/// Evaluates the bump between `s` and `e` at `x`.
pub fn bump<T: Scalar>(x: T, s: T, e: T) -> (r: T)
    ensures
        r == bump_value(x, s, e),
{
    let nil: T = T::from_count(0);
    let u: T = e.sub(x).max(nil);
    let v: T = x.sub(s).max(nil);
    let width: T = e.sub(s);
    let norm: T = if nil.is_less(width) {
        normalize(width)
    } else {
        nil
    };
    let uv: T = u.mul(v);
    norm.mul(uv).mul(uv)
}

/// Adds up the weighted slopes at `x` of the `width` bumps whose starts are at
/// the front of `grid` and whose ends follow. The weights begin at `offset`.
pub fn weighted_slopes<T: Scalar>(
    x: T,
    grid: &Vec<T>,
    width: usize,
    weights: &Vec<T>,
    offset: usize,
) -> (r: T)
    requires
        2 * width <= grid.len(),
        offset + width <= weights.len(),
    ensures
        r == slope_sum(
            x,
            grid@.take(width as int),
            grid@.subrange(width as int, 2 * width),
            weights@.subrange(offset as int, offset + width),
            width as nat,
        ),
{
    let ghost starts = grid@.take(width as int);
    let ghost ends = grid@.subrange(width as int, 2 * width);
    let ghost own = weights@.subrange(offset as int, offset + width);
    let mut sum: T = T::from_count(0);
    for i in 0..width
        invariant
            2 * width <= grid.len(),
            offset + width <= weights.len(),
            starts == grid@.take(width as int),
            ends == grid@.subrange(width as int, 2 * width),
            own == weights@.subrange(offset as int, offset + width),
            sum == slope_sum(x, starts, ends, own, i as nat),
    {
        let s: T = grid[i];
        let e: T = grid[width + i];
        // The derivative is zero outside the support.
        if !(x.is_at_most(s) || e.is_at_most(x)) {
            let u: T = e.sub(x);
            let v: T = x.sub(s);
            let norm: T = normalize(e.sub(s));
            let slope: T = T::from_count(2).mul(norm).mul(u).mul(v).mul(u.sub(v));
            sum = sum.add(weights[offset + i].mul(slope));
        }
    }
    sum
}

} // verus!
