//! Where the basis functions of a layer lie.

use vstd::prelude::*;

use crate::basis::spline::num_knots;
use crate::scalar::{one, Algebra, Scalar};

verus! {

/// The `n`-th knot of a uniform knot vector: `grid_size` intervals between `min`
/// and `max`, and `spline_order` more of the same width on either side.
pub open spec fn uniform_knot<T: Algebra>(
    grid_size: usize,
    spline_order: usize,
    min: T,
    max: T,
    n: int,
) -> T {
    let step = max.minus(min).over(T::of_count(grid_size));
    if n < spline_order {
        min.minus(T::of_count((spline_order - n) as usize).times(step))
    } else if n <= spline_order + grid_size {
        min.plus(T::of_count((n - spline_order) as usize).times(step))
    } else {
        max.plus(T::of_count((n - spline_order - grid_size) as usize).times(step))
    }
}

/// The uniform knot vector of a layer.
pub open spec fn uniform_knots<T: Algebra>(
    grid_size: usize,
    spline_order: usize,
    min: T,
    max: T,
) -> Seq<T> {
    Seq::new(
        num_knots(grid_size as int, spline_order as int) as nat,
        |n: int| uniform_knot(grid_size, spline_order, min, max, n),
    )
}

/// Builds the uniform knot vector of a layer.
pub fn make_grid<T: Scalar>(grid_size: usize, spline_order: usize, grid_range: (T, T)) -> (r: Vec<
    T,
>)
    requires
        num_knots(grid_size as int, spline_order as int) <= usize::MAX,
    ensures
        r@ == uniform_knots(grid_size, spline_order, grid_range.0, grid_range.1),
{
    let (min, max) = grid_range;
    let step: T = max.sub(min).div(T::from_count(grid_size));
    let count: usize = grid_size + 2 * spline_order + 1;
    let ghost knots = uniform_knots(grid_size, spline_order, min, max);
    let mut grid: Vec<T> = Vec::with_capacity(count);
    for n in 0..spline_order
        invariant
            num_knots(grid_size as int, spline_order as int) <= usize::MAX,
            step == max.minus(min).over(T::of_count(grid_size)),
            knots == uniform_knots(grid_size, spline_order, min, max),
            grid@ =~= knots.take(n as int),
    {
        grid.push(min.sub(T::from_count(spline_order - n).mul(step)));
    }
    for n in 0..grid_size + 1
        invariant
            num_knots(grid_size as int, spline_order as int) <= usize::MAX,
            step == max.minus(min).over(T::of_count(grid_size)),
            knots == uniform_knots(grid_size, spline_order, min, max),
            grid@ =~= knots.take(spline_order + n),
    {
        grid.push(min.add(T::from_count(n).mul(step)));
    }
    for n in 0..spline_order
        invariant
            num_knots(grid_size as int, spline_order as int) <= usize::MAX,
            step == max.minus(min).over(T::of_count(grid_size)),
            knots == uniform_knots(grid_size, spline_order, min, max),
            grid@ =~= knots.take(spline_order + grid_size + 1 + n),
    {
        grid.push(max.add(T::from_count(n + 1).mul(step)));
    }
    assert(grid@ =~= knots);
    grid
}

/// Where the `i`-th support of a ReLU-KAN layer starts:
/// `min + (i - k) / G * span`.
pub open spec fn support_start<T: Algebra>(
    grid_size: usize,
    support_width: usize,
    min: T,
    max: T,
    i: int,
) -> T {
    let span = max.minus(min);
    let g = T::of_count(grid_size);
    let k = T::of_count(support_width);
    min.plus(T::of_count(i as usize).minus(k).over(g).times(span))
}

/// Where the `i`-th support of a ReLU-KAN layer ends, from the lower end of the
/// range: `min + (i - k + k + 1) / G * span`.
pub open spec fn support_end<T: Algebra>(
    grid_size: usize,
    support_width: usize,
    min: T,
    max: T,
    i: int,
) -> T {
    let span = max.minus(min);
    let g = T::of_count(grid_size);
    let k = T::of_count(support_width);
    min.plus(T::of_count(i as usize).minus(k).plus(k).plus(one()).over(g).times(span))
}

/// Where the `i`-th support of a ReLU-KAN layer ends, from where it starts:
/// `start + (k + 1) / G * span`.
pub open spec fn support_end_from_start<T: Algebra>(
    grid_size: usize,
    support_width: usize,
    min: T,
    max: T,
    i: int,
) -> T {
    let span = max.minus(min);
    let g = T::of_count(grid_size);
    let k = T::of_count(support_width);
    support_start(grid_size, support_width, min, max, i).plus(k.plus(one()).over(g).times(span))
}

/// The starts of all supports.
pub open spec fn support_starts<T: Algebra>(
    grid_size: usize,
    support_width: usize,
    min: T,
    max: T,
) -> Seq<T> {
    Seq::new(
        (grid_size + support_width) as nat,
        |i: int| support_start(grid_size, support_width, min, max, i),
    )
}

/// The ends of all supports, from the lower end of the range.
pub open spec fn support_ends<T: Algebra>(
    grid_size: usize,
    support_width: usize,
    min: T,
    max: T,
) -> Seq<T> {
    Seq::new(
        (grid_size + support_width) as nat,
        |i: int| support_end(grid_size, support_width, min, max, i),
    )
}

/// The ends of all supports, from where they start.
pub open spec fn support_ends_from_starts<T: Algebra>(
    grid_size: usize,
    support_width: usize,
    min: T,
    max: T,
) -> Seq<T> {
    Seq::new(
        (grid_size + support_width) as nat,
        |i: int| support_end_from_start(grid_size, support_width, min, max, i),
    )
}

/// Builds the starts and ends of the supports of a ReLU-KAN layer.
pub fn make_relu_kan_grid<T: Scalar>(
    grid_size: usize,
    support_width: usize,
    grid_range: (T, T),
) -> (r: (Vec<T>, Vec<T>))
    requires
        grid_size + support_width <= usize::MAX,
    ensures
        r.0@ == support_starts(grid_size, support_width, grid_range.0, grid_range.1),
        r.1@ == support_ends_from_starts(grid_size, support_width, grid_range.0, grid_range.1),
{
    let count: usize = grid_size + support_width;
    let (min, max) = grid_range;
    let span: T = max.sub(min);
    let g: T = T::from_count(grid_size);
    let k: T = T::from_count(support_width);
    let unit: T = T::from_count(1);
    let ghost starts = support_starts(grid_size, support_width, min, max);
    let ghost ends = support_ends_from_starts(grid_size, support_width, min, max);
    let mut s_grid: Vec<T> = Vec::with_capacity(count);
    let mut e_grid: Vec<T> = Vec::with_capacity(count);
    for i in 0..count
        invariant
            count == grid_size + support_width,
            span == max.minus(min),
            g == T::of_count(grid_size),
            k == T::of_count(support_width),
            unit == one::<T>(),
            starts == support_starts(grid_size, support_width, min, max),
            ends == support_ends_from_starts(grid_size, support_width, min, max),
            s_grid@ =~= starts.take(i as int),
            e_grid@ =~= ends.take(i as int),
    {
        let s: T = min.add(T::from_count(i).sub(k).div(g).mul(span));
        s_grid.push(s);
        e_grid.push(s.add(k.add(unit).div(g).mul(span)));
    }
    assert(s_grid@ =~= starts);
    assert(e_grid@ =~= ends);
    (s_grid, e_grid)
}

/// Builds the grid of a ReLU-KAN layer: the starts of all supports, and then
/// their ends.
pub fn make_support_grid<T: Scalar>(
    grid_size: usize,
    support_width: usize,
    grid_range: (T, T),
) -> (r: Vec<T>)
    requires
        2 * (grid_size + support_width) <= usize::MAX,
    ensures
        r@ == support_starts(grid_size, support_width, grid_range.0, grid_range.1) + support_ends(
            grid_size,
            support_width,
            grid_range.0,
            grid_range.1,
        ),
{
    let count: usize = grid_size + support_width;
    let (min, max) = grid_range;
    let span: T = max.sub(min);
    let g: T = T::from_count(grid_size);
    let k: T = T::from_count(support_width);
    let unit: T = T::from_count(1);
    let ghost starts = support_starts(grid_size, support_width, min, max);
    let ghost ends = support_ends(grid_size, support_width, min, max);
    let mut grid: Vec<T> = Vec::with_capacity(2 * count);
    for i in 0..count
        invariant
            count == grid_size + support_width,
            span == max.minus(min),
            g == T::of_count(grid_size),
            k == T::of_count(support_width),
            starts == support_starts(grid_size, support_width, min, max),
            grid@ =~= starts.take(i as int),
    {
        grid.push(min.add(T::from_count(i).sub(k).div(g).mul(span)));
    }
    for i in 0..count
        invariant
            count == grid_size + support_width,
            span == max.minus(min),
            g == T::of_count(grid_size),
            k == T::of_count(support_width),
            unit == one::<T>(),
            starts == support_starts(grid_size, support_width, min, max),
            ends == support_ends(grid_size, support_width, min, max),
            grid@ =~= starts + ends.take(i as int),
    {
        grid.push(min.add(T::from_count(i).sub(k).add(k).add(unit).div(g).mul(span)));
    }
    assert(grid@ =~= starts + ends);
    grid
}

} // verus!
