//! Theorems about where the basis functions and the sample points of a layer
//! lie, over the reals.

use vstd::prelude::*;

use super::numbers::{
    lemma_distribute, lemma_over_is_times, lemma_over_sign, lemma_times_nonneg, lemma_times_zero,
    sum,
};
use super::spline::{non_negative, partition_of_unity};
use super::spline_gradient::slopes_sum_to_zero;
use super::spline_slope::increasing;
use crate::basis::spline::{basis_slopes, basis_value, basis_values, num_knots};
use crate::nn::grid::{
    support_end, support_end_from_start, support_ends, support_ends_from_starts, support_start,
    uniform_knot, uniform_knots,
};
use crate::nn::lut::sample_point;

verus! {

/// The width of one of `n` equal parts of the range from `min` to `max`.
pub open spec fn spacing(n: usize, min: real, max: real) -> real {
    (max - min) / (n as int as real)
}

/// The parts together are the whole.
proof fn lemma_spacing(n: usize, min: real, max: real)
    requires
        n > 0,
    ensures
        (n as int as real) * spacing(n, min, max) == max - min,
        min < max ==> spacing(n, min, max) > 0real,
        min <= max ==> spacing(n, min, max) >= 0real,
{
    let count = n as int as real;
    let h = spacing(n, min, max);
    lemma_over_sign(max - min, count);
    assert(h * count == count * h) by (nonlinear_arith);
}

/// The knots of a layer are evenly spaced, and the `spline_order`-th one is the
/// lower end of the range.
pub proof fn knots_evenly_spaced(
    grid_size: usize,
    spline_order: usize,
    min: real,
    max: real,
    n: int,
)
    requires
        grid_size > 0,
        num_knots(grid_size as int, spline_order as int) <= usize::MAX,
        0 <= n < num_knots(grid_size as int, spline_order as int),
    ensures
        uniform_knots(grid_size, spline_order, min, max)[n] == min + ((n - spline_order) as real)
            * spacing(grid_size, min, max),
{
    let h = spacing(grid_size, min, max);
    assert(uniform_knots(grid_size, spline_order, min, max)[n] == uniform_knot(
        grid_size,
        spline_order,
        min,
        max,
        n,
    ));
    let m = (n - spline_order) as real;
    if n < spline_order {
        let a = (spline_order - n) as real;
        assert(a == -m);
        assert((-m) * h == -(m * h)) by (nonlinear_arith);
    } else if n > spline_order + grid_size {
        let g = grid_size as int as real;
        let a = (n - spline_order - grid_size) as real;
        lemma_spacing(grid_size, min, max);
        lemma_distribute(h, g, a);
        assert(m == g + a);
    }
}

/// Between the `spline_order`-th knot from the front and the one from the back
/// lies the range of the grid.
pub proof fn knots_enclose_range(grid_size: usize, spline_order: usize, min: real, max: real)
    requires
        grid_size > 0,
        num_knots(grid_size as int, spline_order as int) <= usize::MAX,
    ensures
        uniform_knots(grid_size, spline_order, min, max)[spline_order as int] == min,
        uniform_knots(grid_size, spline_order, min, max)[spline_order + grid_size] == max,
{
    knots_evenly_spaced(grid_size, spline_order, min, max, spline_order as int);
    knots_evenly_spaced(grid_size, spline_order, min, max, spline_order + grid_size);
    lemma_times_zero(spacing(grid_size, min, max), 0real);
    lemma_spacing(grid_size, min, max);
}

/// No two knots of a layer coincide.
pub proof fn knots_increase(grid_size: usize, spline_order: usize, min: real, max: real)
    requires
        grid_size > 0,
        min < max,
        num_knots(grid_size as int, spline_order as int) <= usize::MAX,
    ensures
        increasing(uniform_knots(grid_size, spline_order, min, max)),
{
    let knots = uniform_knots(grid_size, spline_order, min, max);
    let h = spacing(grid_size, min, max);
    lemma_spacing(grid_size, min, max);
    assert forall|i: int, j: int| 0 <= i < j < knots.len() implies knots[i] < knots[j] by {
        knots_evenly_spaced(grid_size, spline_order, min, max, i);
        knots_evenly_spaced(grid_size, spline_order, min, max, j);
        let a = (i - spline_order) as real;
        let b = (j - spline_order) as real;
        assert(a * h < b * h) by (nonlinear_arith)
            requires
                a < b,
                h > 0real,
        ;
    }
}

/// On the range of its grid, the B-spline basis functions of a layer sum to one.
pub proof fn layer_basis_sums_to_one(
    x: real,
    grid_size: usize,
    spline_order: usize,
    min: real,
    max: real,
)
    requires
        grid_size > 0,
        min < max,
        num_knots(grid_size as int, spline_order as int) <= usize::MAX,
        min <= x <= max,
    ensures
        ({
            let values = basis_values(
                x,
                uniform_knots(grid_size, spline_order, min, max),
                spline_order as nat,
            );
            sum(values, values.len()) == 1real
        }),
{
    let knots = uniform_knots(grid_size, spline_order, min, max);
    knots_increase(grid_size, spline_order, min, max);
    knots_enclose_range(grid_size, spline_order, min, max);
    if spline_order > 0 {
        assert(knots[spline_order + grid_size] < knots[knots.len() - 1]);
    }
    partition_of_unity(x, knots, spline_order as nat);
}

/// On the range of its grid, no B-spline basis function of a layer is negative.
pub proof fn layer_basis_non_negative(
    x: real,
    grid_size: usize,
    spline_order: usize,
    min: real,
    max: real,
    i: int,
)
    requires
        grid_size > 0,
        min < max,
        num_knots(grid_size as int, spline_order as int) <= usize::MAX,
        min <= x <= max,
        0 <= i < grid_size + spline_order,
    ensures
        basis_value(
            x,
            uniform_knots(grid_size, spline_order, min, max),
            spline_order as nat,
            i,
        ) >= 0real,
{
    let knots = uniform_knots(grid_size, spline_order, min, max);
    knots_increase(grid_size, spline_order, min, max);
    knots_enclose_range(grid_size, spline_order, min, max);
    assert(knots[spline_order + grid_size] <= knots[knots.len() - 1]);
    non_negative(x, knots, spline_order as nat, i);
}

/// On the range of its grid, the slopes of the B-spline basis functions of a layer
/// sum to zero. At the upper end, linear splines have a kink.
pub proof fn layer_slopes_sum_to_zero(
    x: real,
    grid_size: usize,
    spline_order: usize,
    min: real,
    max: real,
)
    requires
        grid_size > 0,
        spline_order > 0,
        min < max,
        num_knots(grid_size as int, spline_order as int) <= usize::MAX,
        min <= x < max || x == max && spline_order >= 2,
    ensures
        sum(
            basis_slopes(x, uniform_knots(grid_size, spline_order, min, max), spline_order),
            (grid_size + spline_order) as nat,
        ) == 0real,
{
    let knots = uniform_knots(grid_size, spline_order, min, max);
    knots_increase(grid_size, spline_order, min, max);
    knots_enclose_range(grid_size, spline_order, min, max);
    assert(knots[spline_order + grid_size] < knots[spline_order + grid_size + 1]);
    slopes_sum_to_zero(x, knots, spline_order);
}

/// The supports of a ReLU-KAN layer start evenly spaced, `support_width` parts
/// below the range, and each is `support_width + 1` parts wide.
pub proof fn supports_evenly_spaced(
    grid_size: usize,
    support_width: usize,
    min: real,
    max: real,
    i: int,
)
    requires
        grid_size > 0,
        0 <= i < grid_size + support_width <= usize::MAX,
    ensures
        support_start(grid_size, support_width, min, max, i) == min + ((i - support_width) as real)
            * spacing(grid_size, min, max),
        support_end(grid_size, support_width, min, max, i) == min + ((i + 1) as real) * spacing(
            grid_size,
            min,
            max,
        ),
{
    let g = grid_size as int as real;
    let span = max - min;
    let v = 1real / g;
    lemma_over_is_times(span, g);
    let a = (i - support_width) as real;
    let b = (i + 1) as real;
    lemma_over_is_times(a, g);
    lemma_over_is_times(b, g);
    assert(a * v * span == a * (span * v)) by (nonlinear_arith);
    assert(b * v * span == b * (span * v)) by (nonlinear_arith);
}

/// Whether an end of a support is measured from the lower end of the range or
/// from where the support starts makes no difference.
pub proof fn support_ends_agree(
    grid_size: usize,
    support_width: usize,
    min: real,
    max: real,
    i: int,
)
    requires
        grid_size > 0,
        0 <= i < grid_size + support_width <= usize::MAX,
    ensures
        support_end(grid_size, support_width, min, max, i) == support_end_from_start(
            grid_size,
            support_width,
            min,
            max,
            i,
        ),
{
    let g = grid_size as int as real;
    let span = max - min;
    let v = 1real / g;
    let h = span * v;
    supports_evenly_spaced(grid_size, support_width, min, max, i);
    lemma_over_is_times(span, g);
    let a = (i - support_width) as real;
    let w = (support_width + 1) as real;
    lemma_over_is_times(w, g);
    assert(w * v * span == w * (span * v)) by (nonlinear_arith);
    lemma_distribute(h, a, w);
    assert(a + w == (i + 1) as real);
}

/// The supports that the table of a ReLU-KAN layer is sampled from are those of
/// the layer itself.
pub proof fn support_grids_agree(grid_size: usize, support_width: usize, min: real, max: real)
    requires
        grid_size > 0,
        grid_size + support_width <= usize::MAX,
    ensures
        support_ends(grid_size, support_width, min, max) == support_ends_from_starts(
            grid_size,
            support_width,
            min,
            max,
        ),
{
    assert forall|i: int| 0 <= i < grid_size + support_width implies #[trigger] support_ends(
        grid_size,
        support_width,
        min,
        max,
    )[i] == support_ends_from_starts(grid_size, support_width, min, max)[i] by {
        support_ends_agree(grid_size, support_width, min, max, i);
    }
    assert(support_ends(grid_size, support_width, min, max) =~= support_ends_from_starts(
        grid_size,
        support_width,
        min,
        max,
    ));
}

/// The sample points of a table are evenly spaced.
pub proof fn samples_evenly_spaced(min: real, max: real, num_samples: usize, k: int)
    requires
        num_samples >= 2,
        0 <= k < num_samples,
    ensures
        sample_point(min, max, num_samples, k) == min + (k as real) * spacing(
            (num_samples - 1) as usize,
            min,
            max,
        ),
{
    let g = (num_samples - 1) as real;
    let span = max - min;
    let v = 1real / g;
    let a = k as real;
    lemma_over_is_times(span * a, g);
    lemma_over_is_times(span, g);
    assert(span * a * v == a * (span * v)) by (nonlinear_arith);
}

/// The first sample point is the lower end of the range, also when it is the
/// only one, and the last of several is the upper end.
pub proof fn samples_cover_range(min: real, max: real, num_samples: usize)
    requires
        num_samples >= 1,
    ensures
        sample_point(min, max, num_samples, 0) == min,
        num_samples >= 2 ==> sample_point(min, max, num_samples, num_samples - 1) == max,
{
    if num_samples >= 2 {
        samples_evenly_spaced(min, max, num_samples, 0);
        samples_evenly_spaced(min, max, num_samples, num_samples - 1);
        lemma_times_zero(spacing((num_samples - 1) as usize, min, max), 0real);
        lemma_spacing((num_samples - 1) as usize, min, max);
    }
}

/// All sample points lie in the range.
pub proof fn samples_stay_in_range(min: real, max: real, num_samples: usize, k: int)
    requires
        min <= max,
        0 <= k < num_samples,
    ensures
        min <= sample_point(min, max, num_samples, k) <= max,
{
    if num_samples >= 2 {
        let n = (num_samples - 1) as usize;
        let h = spacing(n, min, max);
        samples_evenly_spaced(min, max, num_samples, k);
        lemma_spacing(n, min, max);
        let a = k as real;
        let rest = (n - k) as real;
        lemma_times_nonneg(a, h);
        lemma_times_nonneg(rest, h);
        lemma_distribute(h, a, rest);
        assert(a + rest == n as int as real);
    }
}

} // verus!
