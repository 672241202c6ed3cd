//! B-spline basis functions over a knot vector, by the Cox-de Boor recursion.

use vstd::prelude::*;

use crate::scalar::{one, zero, Algebra, Scalar};

verus! {

/// The number of basis functions of a layer.
pub open spec fn num_basis(grid_size: int, spline_order: int) -> int {
    grid_size + spline_order
}

/// The number of knots of a layer.
pub open spec fn num_knots(grid_size: int, spline_order: int) -> int {
    grid_size + 2 * spline_order + 1
}

/// The `i`-th basis function of degree zero: the indicator of the half-open
/// interval between two knots. From the last knot on, only the last one is 1.
pub open spec fn indicator<T: Algebra>(x: T, knots: Seq<T>, i: int) -> T {
    let last = knots.len() - 1;
    if knots[last].at_most(x) {
        if i == last - 1 {
            one()
        } else {
            zero()
        }
    } else if knots[i].at_most(x) && x.less(knots[i + 1]) {
        one()
    } else {
        zero()
    }
}

/// The `i`-th basis function of degree `p` at `x`.
pub open spec fn basis_value<T: Algebra>(x: T, knots: Seq<T>, p: nat, i: int) -> T
    decreases p,
{
    if p == 0 {
        indicator(x, knots, i)
    } else {
        let below = (p - 1) as nat;
        blend(
            x,
            knots,
            p,
            i,
            basis_value(x, knots, below, i),
            basis_value(x, knots, below, i + 1),
        )
    }
}

/// One step of the recursion: two neighbours `left` and `right` of degree
/// `p - 1`, each weighted by how far `x` is into its support. A support of width
/// zero contributes nothing.
pub open spec fn blend<T: Algebra>(x: T, knots: Seq<T>, p: nat, i: int, left: T, right: T) -> T {
    let left_width = knots[i + p].minus(knots[i]);
    let right_width = knots[i + p + 1].minus(knots[i + 1]);
    let rising = if left_width.same(zero()) {
        zero()
    } else {
        zero::<T>().plus(x.minus(knots[i]).over(left_width).times(left))
    };
    if right_width.same(zero()) {
        rising
    } else {
        rising.plus(knots[i + p + 1].minus(x).over(right_width).times(right))
    }
}

/// The values of all basis functions of degree `p` at `x`.
pub open spec fn basis_values<T: Algebra>(x: T, knots: Seq<T>, p: nat) -> Seq<T> {
    Seq::new((knots.len() - 1 - p) as nat, |i: int| basis_value(x, knots, p, i))
}

/// The derivative at `x` of the `i`-th basis function of degree `k`, which is
/// at least one.
pub open spec fn basis_slope<T: Algebra>(x: T, knots: Seq<T>, k: usize, i: int) -> T {
    let below = (k - 1) as nat;
    let left_width = knots[i + k].minus(knots[i]);
    let right_width = knots[i + k + 1].minus(knots[i + 1]);
    let rising = if left_width.same(zero()) {
        zero()
    } else {
        zero::<T>().plus(basis_value(x, knots, below, i).over(left_width))
    };
    let slope = if right_width.same(zero()) {
        rising
    } else {
        rising.minus(basis_value(x, knots, below, i + 1).over(right_width))
    };
    T::of_count(k).times(slope)
}

/// The derivatives at `x` of all basis functions of degree `k`.
pub open spec fn basis_slopes<T: Algebra>(x: T, knots: Seq<T>, k: usize) -> Seq<T> {
    Seq::new((knots.len() - 1 - k) as nat, |i: int| basis_slope(x, knots, k, i))
}

/// Evaluates all basis functions of degree `degree` at `x` over the first
/// `intervals + 1` knots of `grid`.
pub fn cox_de_boor<T: Scalar>(x: T, grid: &Vec<T>, intervals: usize, degree: usize) -> (r: Vec<T>)
    requires
        degree <= intervals < grid.len(),
    ensures
        r@ == basis_values(x, grid@.take(intervals + 1), degree as nat),
{
    let ghost knots = grid@.take(intervals + 1);
    let nil: T = T::from_count(0);
    let unit: T = T::from_count(1);
    let past_end = grid[intervals].is_at_most(x);

    let mut prev: Vec<T> = Vec::with_capacity(intervals);
    for i in 0..intervals
        invariant
            intervals < grid.len(),
            knots == grid@.take(intervals + 1),
            nil == zero::<T>(),
            unit == one::<T>(),
            past_end == knots[intervals as int].at_most(x),
            prev@.len() == i,
            forall|j: int| 0 <= j < i ==> prev@[j] == indicator(x, knots, j),
    {
        let inside = if past_end {
            i + 1 == intervals
        } else {
            grid[i].is_at_most(x) && x.is_less(grid[i + 1])
        };
        prev.push(if inside { unit } else { nil });
    }
    assert(prev@ =~= basis_values(x, knots, 0));

    let mut p: usize = 0;
    while p < degree
        invariant
            p <= degree <= intervals < grid.len(),
            knots == grid@.take(intervals + 1),
            nil == zero::<T>(),
            prev@ == basis_values(x, knots, p as nat),
        decreases degree - p,
    {
        p = p + 1;
        let count = intervals - p;
        let mut curr: Vec<T> = Vec::with_capacity(count);
        for i in 0..count
            invariant
                1 <= p <= intervals < grid.len(),
                count == intervals - p,
                knots == grid@.take(intervals + 1),
                nil == zero::<T>(),
                prev@ == basis_values(x, knots, (p - 1) as nat),
                curr@.len() == i,
                forall|j: int| 0 <= j < i ==> curr@[j] == basis_value(x, knots, p as nat, j),
        {
            let mut val: T = nil;
            let left_width = grid[i + p].sub(grid[i]);
            if !left_width.is_same(nil) {
                val = val.add(x.sub(grid[i]).div(left_width).mul(prev[i]));
            }
            let right_width = grid[i + p + 1].sub(grid[i + 1]);
            if !right_width.is_same(nil) {
                val = val.add(grid[i + p + 1].sub(x).div(right_width).mul(prev[i + 1]));
            }
            curr.push(val);
        }
        assert(curr@ =~= basis_values(x, knots, p as nat));
        prev = curr;
    }
    prev
}

/// Evaluates the derivatives of all basis functions of degree `k` at `x` over
/// the first `intervals + 1` knots of `grid`.
pub fn cox_de_boor_slopes<T: Scalar>(x: T, grid: &Vec<T>, intervals: usize, k: usize) -> (r: Vec<T>)
    requires
        1 <= k <= intervals < grid.len(),
    ensures
        r@ == basis_slopes(x, grid@.take(intervals + 1), k),
{
    let ghost knots = grid@.take(intervals + 1);
    let nil: T = T::from_count(0);
    let prev: Vec<T> = cox_de_boor(x, grid, intervals, k - 1);
    let count = intervals - k;
    let degree: T = T::from_count(k);
    let mut slopes: Vec<T> = Vec::with_capacity(count);
    for i in 0..count
        invariant
            1 <= k <= intervals < grid.len(),
            count == intervals - k,
            knots == grid@.take(intervals + 1),
            nil == zero::<T>(),
            degree == T::of_count(k),
            prev@ == basis_values(x, knots, (k - 1) as nat),
            slopes@.len() == i,
            forall|j: int| 0 <= j < i ==> slopes@[j] == basis_slope(x, knots, k, j),
    {
        let mut val: T = nil;
        let left_width = grid[i + k].sub(grid[i]);
        if !left_width.is_same(nil) {
            val = val.add(prev[i].div(left_width));
        }
        let right_width = grid[i + k + 1].sub(grid[i + 1]);
        if !right_width.is_same(nil) {
            val = val.sub(prev[i + 1].div(right_width));
        }
        slopes.push(degree.mul(val));
    }
    assert(slopes@ =~= basis_slopes(x, knots, k));
    slopes
}

} // verus!
