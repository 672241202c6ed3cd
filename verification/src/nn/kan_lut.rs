//! Tables that stand in for a B-spline KAN layer.
//!
//! Every edge of the layer, from an input feature to an output, has a learned
//! activation function of its own. A table holds its values at evenly spaced
//! points, and the layer becomes a sum of table entries:
//! `y[j] = sum_i lut[j][i][bucket(x[i])]`.

use vstd::arithmetic::div_mod::{lemma_fundamental_div_mod_converse, lemma_multiply_divide_lt};
use vstd::arithmetic::mul::{lemma_mul_inequality, lemma_mul_is_distributive_add_other_way};
use vstd::prelude::*;

use super::grid::{make_grid, uniform_knots};
use super::lut::{edge_weights, lemma_weight_index, list_sample_points, sample_points};
use crate::basis::spline::{basis_values, cox_de_boor, num_basis, num_knots};
use crate::graph::save::{QuantTarget, SavedFormat, Source};
use crate::scalar::{dot, one, Algebra, Scalar};

verus! {

/// Whether a point can be evaluated on a grid: there is an interval, or the
/// point lies in front of the only knot.
pub open spec fn evaluable<T: Algebra>(
    grid_size: usize,
    spline_order: usize,
    knots: Seq<T>,
    x: T,
) -> bool {
    grid_size + spline_order > 0 || !knots[0].at_most(x)
}

/// Evaluates the B-spline basis functions at a single point. There are
/// `grid_size + spline_order` values.
pub fn eval_bspline_basis<T: Scalar>(
    x: T,
    grid: &Vec<T>,
    grid_size: usize,
    spline_order: usize,
) -> (r: Vec<T>)
    requires
        grid.len() == num_knots(grid_size as int, spline_order as int),
        evaluable(grid_size, spline_order, grid@, x),
    ensures
        r@ == basis_values(x, grid@, spline_order as nat),
        r@.len() == num_basis(grid_size as int, spline_order as int),
{
    assert(grid@.take(grid.len() as int) =~= grid@);
    cox_de_boor(x, grid, grid_size + 2 * spline_order, spline_order)
}

/// The SiLU function: `x / (1 + exp(-x))`.
pub open spec fn silu_value<T: Algebra>(x: T) -> T {
    x.over(one::<T>().plus(x.negated().exponential()))
}

/// Evaluates the SiLU function.
pub fn silu<T: Scalar>(x: T) -> (r: T)
    ensures
        r == silu_value(x),
{
    x.div(T::from_count(1).add(x.neg().exp()))
}

/// The activation function of the edge from the input feature `i` to the output
/// `j`: `sw[j, i*nb..(i+1)*nb] * basis(x) + bw[j, i] * silu(x)`.
pub open spec fn edge_value<T: Algebra>(
    sw: Seq<T>,
    bw: Seq<T>,
    out_features: int,
    width: int,
    knots: Seq<T>,
    spline_order: nat,
    i: int,
    j: int,
    x: T,
) -> T {
    dot(
        edge_weights(sw, out_features, width, i, j),
        basis_values(x, knots, spline_order),
        width as nat,
    ).plus(bw[i * out_features + j].times(silu_value(x)))
}

/// The table of a layer, laid out as `[out_features][in_features][num_samples]`.
pub open spec fn kan_lut<T: Algebra>(
    sw: Seq<T>,
    bw: Seq<T>,
    in_features: int,
    out_features: int,
    grid_size: usize,
    spline_order: usize,
    knots: Seq<T>,
    points: Seq<T>,
) -> Seq<T> {
    let samples = points.len() as int;
    Seq::new(
        (out_features * in_features * samples) as nat,
        |n: int|
            edge_value(
                sw,
                bw,
                out_features,
                num_basis(grid_size as int, spline_order as int),
                knots,
                spline_order as nat,
                (n / samples) % in_features,
                (n / samples) / in_features,
                points[n % samples],
            ),
    )
}

/// What the weights of a layer must be for its table to be sampled.
pub open spec fn lut_fits<T: Algebra>(
    sw: Seq<T>,
    bw: Seq<T>,
    in_features: usize,
    out_features: usize,
    grid_size: usize,
    spline_order: usize,
    grid_range: (T, T),
    sample_range: (T, T),
    num_samples: usize,
) -> bool {
    let knots = uniform_knots(grid_size, spline_order, grid_range.0, grid_range.1);
    let points = sample_points(sample_range.0, sample_range.1, num_samples);
    &&& num_knots(grid_size as int, spline_order as int) <= usize::MAX
    &&& sw.len() == out_features * in_features * num_basis(grid_size as int, spline_order as int)
    &&& bw.len() == out_features * in_features
    &&& out_features * in_features * num_samples <= usize::MAX
    &&& forall|k: int|
        0 <= k < num_samples ==> evaluable(grid_size, spline_order, knots, #[trigger] points[k])
}

/// Samples the table of a layer from its weights.
///
/// For each output `j` and input feature `i`, the activation function of the
/// edge is evaluated at `num_samples` evenly spaced points of `sample_range`.
/// The result is laid out as `[out_features][in_features][num_samples]`.
///
/// - `sw_vals`: spline weights, `(out_features, in_features * num_basis)`, column
///   by column
/// - `bw_vals`: base weights, `(out_features, in_features)`, column by column
pub fn sample_kan_lut<T: Scalar>(
    sw_vals: &Vec<T>,
    bw_vals: &Vec<T>,
    in_features: usize,
    out_features: usize,
    grid_size: usize,
    spline_order: usize,
    grid_range: (T, T),
    sample_range: (T, T),
    num_samples: usize,
) -> (r: Vec<T>)
    requires
        lut_fits(
            sw_vals@,
            bw_vals@,
            in_features,
            out_features,
            grid_size,
            spline_order,
            grid_range,
            sample_range,
            num_samples,
        ),
    ensures
        r@ == kan_lut(
            sw_vals@,
            bw_vals@,
            in_features as int,
            out_features as int,
            grid_size,
            spline_order,
            uniform_knots(grid_size, spline_order, grid_range.0, grid_range.1),
            sample_points(sample_range.0, sample_range.1, num_samples),
        ),
{
    let width: usize = grid_size + spline_order;
    let grid: Vec<T> = make_grid(grid_size, spline_order, grid_range);
    let points: Vec<T> = list_sample_points(sample_range, num_samples);
    let ghost knots = grid@;

    // The basis values and the SiLU values are the same for all edges.
    let mut basis_at: Vec<Vec<T>> = Vec::with_capacity(num_samples);
    let mut silu_at: Vec<T> = Vec::with_capacity(num_samples);
    for k in 0..num_samples
        invariant
            grid@ == knots,
            grid.len() == num_knots(grid_size as int, spline_order as int),
            width == grid_size + spline_order,
            points@.len() == num_samples,
            forall|n: int|
                0 <= n < num_samples ==> evaluable(
                    grid_size,
                    spline_order,
                    knots,
                    #[trigger] points@[n],
                ),
            basis_at@.len() == k,
            silu_at@.len() == k,
            forall|n: int|
                0 <= n < k ==> (#[trigger] basis_at@[n])@ == basis_values(
                    points@[n],
                    knots,
                    spline_order as nat,
                ) && basis_at@[n]@.len() == width,
            forall|n: int| 0 <= n < k ==> #[trigger] silu_at@[n] == silu_value(points@[n]),
    {
        basis_at.push(eval_bspline_basis(points[k], &grid, grid_size, spline_order));
        silu_at.push(silu(points[k]));
    }

    assert(sw_vals@.len() == sw_vals.len() && bw_vals@.len() == bw_vals.len());
    let edges: usize = out_features * in_features;
    let ghost table = kan_lut(
        sw_vals@,
        bw_vals@,
        in_features as int,
        out_features as int,
        grid_size,
        spline_order,
        knots,
        points@,
    );
    let mut lut: Vec<T> = Vec::new();
    assert(0 * num_samples == 0) by (nonlinear_arith);
    assert(lut@ =~= table.take(0));
    for q in 0..edges
        invariant
            edges == out_features * in_features,
            width == grid_size + spline_order,
            sw_vals.len() == out_features * in_features * width,
            bw_vals.len() == out_features * in_features,
            points@.len() == num_samples,
            basis_at@.len() == num_samples,
            silu_at@.len() == num_samples,
            edges * num_samples <= usize::MAX,
            forall|n: int|
                0 <= n < num_samples ==> (#[trigger] basis_at@[n])@ == basis_values(
                    points@[n],
                    knots,
                    spline_order as nat,
                ) && basis_at@[n]@.len() == width,
            forall|n: int|
                0 <= n < num_samples ==> #[trigger] silu_at@[n] == silu_value(points@[n]),
            table == kan_lut(
                sw_vals@,
                bw_vals@,
                in_features as int,
                out_features as int,
                grid_size,
                spline_order,
                knots,
                points@,
            ),
            lut@ == table.take(q * num_samples),
            q * num_samples <= table.len(),
    {
        assert(in_features > 0) by (nonlinear_arith)
            requires
                q < out_features * in_features,
                0 <= q,
        ;
        let j: usize = q / in_features;
        let i: usize = q % in_features;
        proof {
            assert(out_features * in_features == in_features * out_features) by (nonlinear_arith);
            lemma_multiply_divide_lt(q as int, in_features as int, out_features as int);
            lemma_mul_inequality(q + 1, edges as int, num_samples as int);
            lemma_mul_is_distributive_add_other_way(num_samples as int, q as int, 1);
        }
        let ghost row = edge_weights(sw_vals@, out_features as int, width as int, i as int, j as int);
        for k in 0..num_samples
            invariant
                q < edges,
                edges == out_features * in_features,
                i < in_features,
                j < out_features,
                i == (q as int) % (in_features as int),
                j == (q as int) / (in_features as int),
                width == grid_size + spline_order,
                width == num_basis(grid_size as int, spline_order as int),
                sw_vals.len() == out_features * in_features * width,
                bw_vals.len() == out_features * in_features,
                points@.len() == num_samples,
                basis_at@.len() == num_samples,
                silu_at@.len() == num_samples,
                forall|n: int|
                    0 <= n < num_samples ==> (#[trigger] basis_at@[n])@ == basis_values(
                        points@[n],
                        knots,
                        spline_order as nat,
                    ) && basis_at@[n]@.len() == width,
                forall|n: int|
                    0 <= n < num_samples ==> #[trigger] silu_at@[n] == silu_value(points@[n]),
                row == edge_weights(
                    sw_vals@,
                    out_features as int,
                    width as int,
                    i as int,
                    j as int,
                ),
                table == kan_lut(
                    sw_vals@,
                    bw_vals@,
                    in_features as int,
                    out_features as int,
                    grid_size,
                    spline_order,
                    knots,
                    points@,
                ),
                q * num_samples + num_samples <= table.len(),
                lut@ == table.take(q * num_samples + k),
        {
            let mut val: T = T::from_count(0);
            for b in 0..width
                invariant
                    i < in_features,
                    j < out_features,
                    k < num_samples,
                    sw_vals.len() == out_features * in_features * width,
                    basis_at@.len() == num_samples,
                    basis_at@[k as int]@.len() == width,
                    row == edge_weights(
                        sw_vals@,
                        out_features as int,
                        width as int,
                        i as int,
                        j as int,
                    ),
                    val == dot(row, basis_at@[k as int]@, b as nat),
            {
                proof {
                    lemma_weight_index(
                        in_features as int,
                        out_features as int,
                        width as int,
                        i as int,
                        b as int,
                        j as int,
                    );
                    assert(sw_vals@.len() == sw_vals.len());
                    assert(i * width + b <= (i * width + b) * out_features) by (nonlinear_arith)
                        requires
                            0 <= i * width + b,
                            1 <= out_features,
                    ;
                }
                let weight: T = sw_vals[(i * width + b) * out_features + j];
                val = val.add(weight.mul(basis_at[k][b]));
            }
            proof {
                assert(0 <= i * out_features && i * out_features + j < out_features * in_features)
                    by (nonlinear_arith)
                    requires
                        0 <= i < in_features,
                        0 <= j < out_features,
                ;
                assert(bw_vals@.len() == bw_vals.len());
                assert(num_samples * q == q * num_samples) by (nonlinear_arith);
                lemma_fundamental_div_mod_converse(
                    q * num_samples + k,
                    num_samples as int,
                    q as int,
                    k as int,
                );
                assert(basis_at@[k as int]@ == basis_values(
                    points@[k as int],
                    knots,
                    spline_order as nat,
                ));
                assert(silu_at@[k as int] == silu_value(points@[k as int]));
            }
            val = val.add(bw_vals[i * out_features + j].mul(silu_at[k]));
            assert(val == table[q * num_samples + k]);
            lut.push(val);
            assert(lut@ =~= table.take(q * num_samples + k + 1));
        }
        assert((q + 1) * num_samples == q * num_samples + num_samples) by (nonlinear_arith);
    }
    assert(lut@ =~= table);
    lut
}

/// Whether `format` exports the table of a layer with these dimensions, written as
/// 16-bit integers after multiplication by `quant_scale`.
pub open spec fn is_kan_export<T>(
    format: SavedFormat<T>,
    id: Seq<char>,
    in_features: usize,
    out_features: usize,
    grid_size: usize,
    spline_order: usize,
    grid_range: (T, T),
    sample_range: (T, T),
    num_samples: usize,
    quant_scale: i16,
) -> bool {
    &&& format.source matches Source::KanLut {
        id: prefix,
        in_features: inputs,
        out_features: outputs,
        grid_size: intervals,
        spline_order: degree,
        grid_range: domain,
        sample_range: sampled,
        num_samples: samples,
    } && {
        &&& prefix@ == id
        &&& inputs == in_features && outputs == out_features
        &&& intervals == grid_size && degree == spline_order
        &&& domain == grid_range && sampled == sample_range
        &&& samples == num_samples
    }
    &&& format.round
    &&& format.quant == QuantTarget::I16(quant_scale)
}

/// The export of a layer's table: sampled at `num_samples` points for each edge,
/// rounded, and written as 16-bit integers after multiplication by
/// `quant_scale`. The weights are named `id` followed by `_sw` and `_bw`.
pub fn kan_lut_save_format<T: Scalar>(
    id: &str,
    in_features: usize,
    out_features: usize,
    grid_size: usize,
    spline_order: usize,
    grid_range: (T, T),
    sample_range: (T, T),
    num_samples: usize,
    quant_scale: i16,
) -> (r: SavedFormat<T>)
    ensures
        r.source matches Source::KanLut {
            id: prefix,
            in_features: inputs,
            out_features: outputs,
            grid_size: intervals,
            spline_order: degree,
            grid_range: domain,
            sample_range: sampled,
            num_samples: samples,
        } && {
            &&& prefix@ == id@
            &&& inputs == in_features && outputs == out_features
            &&& intervals == grid_size && degree == spline_order
            &&& domain == grid_range && sampled == sample_range
            &&& samples == num_samples
        },
        r.round,
        r.quant == QuantTarget::I16(quant_scale),
        is_kan_export(
            r,
            id@,
            in_features,
            out_features,
            grid_size,
            spline_order,
            grid_range,
            sample_range,
            num_samples,
            quant_scale,
        ),
{
    SavedFormat {
        source: Source::KanLut {
            id: id.to_string(),
            in_features,
            out_features,
            grid_size,
            spline_order,
            grid_range,
            sample_range,
            num_samples,
        },
        round: true,
        quant: QuantTarget::I16(quant_scale),
    }
}

} // verus!
