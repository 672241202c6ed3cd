//! Tables that stand in for a ReLU-KAN layer.
//!
//! The layer has no base path, so the activation function of an edge is a
//! weighted sum of bumps. The factors that make the bumps peak at one are part
//! of the entries.

use vstd::arithmetic::div_mod::lemma_fundamental_div_mod_converse;
use vstd::arithmetic::div_mod::lemma_multiply_divide_lt;
use vstd::arithmetic::mul::{lemma_mul_inequality, lemma_mul_is_distributive_add_other_way};
use vstd::prelude::*;

use super::grid::{make_relu_kan_grid, support_ends_from_starts, support_starts};
use super::lut::{edge_weights, lemma_weight_index, list_sample_points, sample_points};
use crate::basis::bump::normalizer;
use crate::graph::save::{QuantTarget, SavedFormat, Source};
use crate::scalar::{dot, zero, Algebra, Scalar};

verus! {

/// The bump between `s` and `e` at `x`, as a table holds it.
pub open spec fn tabled_bump<T: Algebra>(x: T, s: T, e: T) -> T {
    let u = e.minus(x).larger(zero());
    let v = x.minus(s).larger(zero());
    if u.same(zero()) || v.same(zero()) {
        zero()
    } else {
        u.times(v).times(u.times(v)).times(normalizer(e.minus(s)))
    }
}

/// The values at `x` of all bumps between `starts` and `ends`.
pub open spec fn tabled_bumps<T: Algebra>(x: T, starts: Seq<T>, ends: Seq<T>) -> Seq<T> {
    Seq::new(starts.len(), |i: int| tabled_bump(x, starts[i], ends[i]))
}

/// Evaluates the ReLU-KAN basis functions at a single point. Each peaks at one in
/// the middle of its support and is zero outside.
pub fn eval_relu_kan_basis<T: Scalar>(x: T, s_grid: &Vec<T>, e_grid: &Vec<T>) -> (r: Vec<T>)
    requires
        s_grid.len() == e_grid.len(),
    ensures
        r@ == tabled_bumps(x, s_grid@, e_grid@),
        r@.len() == s_grid@.len(),
{
    let nil: T = T::from_count(0);
    let ghost all = tabled_bumps(x, s_grid@, e_grid@);
    let mut out: Vec<T> = Vec::with_capacity(s_grid.len());
    for i in 0..s_grid.len()
        invariant
            s_grid.len() == e_grid.len(),
            nil == zero::<T>(),
            all == tabled_bumps(x, s_grid@, e_grid@),
            out@ =~= all.take(i as int),
    {
        let s: T = s_grid[i];
        let e: T = e_grid[i];
        let u: T = e.sub(x).max(nil);
        let v: T = x.sub(s).max(nil);
        if u.is_same(nil) || v.is_same(nil) {
            out.push(nil);
        } else {
            let prod: T = u.mul(v);
            let span: T = e.sub(s);
            let factor: T = T::from_count(16).div(span.mul(span).mul(span).mul(span));
            out.push(prod.mul(prod).mul(factor));
        }
    }
    assert(out@ =~= all);
    out
}

/// The activation function of the edge from the input feature `i` to the output
/// `j`: `sw[j, i*nb..(i+1)*nb] * bumps(x)`.
pub open spec fn edge_value<T: Algebra>(
    sw: Seq<T>,
    out_features: int,
    starts: Seq<T>,
    ends: Seq<T>,
    i: int,
    j: int,
    x: T,
) -> T {
    dot(
        edge_weights(sw, out_features, starts.len() as int, i, j),
        tabled_bumps(x, starts, ends),
        starts.len(),
    )
}

/// The table of a layer, laid out as `[in_features][num_samples][out_features]`.
pub open spec fn relu_kan_lut<T: Algebra>(
    sw: Seq<T>,
    in_features: int,
    out_features: int,
    starts: Seq<T>,
    ends: Seq<T>,
    points: Seq<T>,
) -> Seq<T> {
    let samples = points.len() as int;
    Seq::new(
        (in_features * samples * out_features) as nat,
        |n: int|
            edge_value(
                sw,
                out_features,
                starts,
                ends,
                (n / out_features) / samples,
                n % out_features,
                points[(n / out_features) % samples],
            ),
    )
}

/// What the weights of a layer must be for its table to be sampled.
pub open spec fn lut_fits<T: Algebra>(
    sw: Seq<T>,
    in_features: usize,
    out_features: usize,
    grid_size: usize,
    support_width: usize,
    num_samples: usize,
) -> bool {
    &&& grid_size + support_width <= usize::MAX
    &&& sw.len() == out_features * in_features * (grid_size + support_width)
    &&& in_features * num_samples <= usize::MAX
    &&& in_features * num_samples * out_features <= usize::MAX
}

/// Samples the table of a layer from its weights.
///
/// For each input feature `i` and output `j`, the activation function of the
/// edge is evaluated at `num_samples` evenly spaced points of `sample_range`.
/// The result is laid out as `[in_features][num_samples][out_features]`.
///
/// - `sw_vals`: spline weights, `(out_features, in_features * num_basis)`, column
///   by column
pub fn sample_relu_kan_lut<T: Scalar>(
    sw_vals: &Vec<T>,
    in_features: usize,
    out_features: usize,
    grid_size: usize,
    support_width: usize,
    grid_range: (T, T),
    sample_range: (T, T),
    num_samples: usize,
) -> (r: Vec<T>)
    requires
        lut_fits(sw_vals@, in_features, out_features, grid_size, support_width, num_samples),
    ensures
        r@ == relu_kan_lut(
            sw_vals@,
            in_features as int,
            out_features as int,
            support_starts(grid_size, support_width, grid_range.0, grid_range.1),
            support_ends_from_starts(grid_size, support_width, grid_range.0, grid_range.1),
            sample_points(sample_range.0, sample_range.1, num_samples),
        ),
{
    let width: usize = grid_size + support_width;
    let (s_grid, e_grid) = make_relu_kan_grid(grid_size, support_width, grid_range);
    let points: Vec<T> = list_sample_points(sample_range, num_samples);
    let ghost starts = s_grid@;
    let ghost ends = e_grid@;

    // The basis values are the same for all edges.
    let mut basis_at: Vec<Vec<T>> = Vec::with_capacity(num_samples);
    for k in 0..num_samples
        invariant
            starts == s_grid@,
            ends == e_grid@,
            s_grid.len() == width,
            e_grid.len() == width,
            points@.len() == num_samples,
            basis_at@.len() == k,
            forall|n: int|
                0 <= n < k ==> (#[trigger] basis_at@[n])@ == tabled_bumps(points@[n], starts, ends),
    {
        basis_at.push(eval_relu_kan_basis(points[k], &s_grid, &e_grid));
    }

    assert(sw_vals@.len() == sw_vals.len());
    let cells: usize = in_features * num_samples;
    let ghost table = relu_kan_lut(
        sw_vals@,
        in_features as int,
        out_features as int,
        starts,
        ends,
        points@,
    );
    let mut lut: Vec<T> = Vec::new();
    assert(0 * out_features == 0) by (nonlinear_arith);
    assert(lut@ =~= table.take(0));
    for q in 0..cells
        invariant
            cells == in_features * num_samples,
            cells * out_features <= usize::MAX,
            starts.len() == width,
            sw_vals.len() == out_features * in_features * width,
            points@.len() == num_samples,
            basis_at@.len() == num_samples,
            forall|n: int|
                0 <= n < num_samples ==> (#[trigger] basis_at@[n])@ == tabled_bumps(
                    points@[n],
                    starts,
                    ends,
                ),
            table == relu_kan_lut(
                sw_vals@,
                in_features as int,
                out_features as int,
                starts,
                ends,
                points@,
            ),
            lut@ == table.take(q * out_features),
            q * out_features <= table.len(),
    {
        assert(num_samples > 0) by (nonlinear_arith)
            requires
                q < in_features * num_samples,
                0 <= q,
        ;
        let i: usize = q / num_samples;
        let k: usize = q % num_samples;
        proof {
            assert(in_features * num_samples == num_samples * in_features) by (nonlinear_arith);
            lemma_multiply_divide_lt(q as int, num_samples as int, in_features as int);
            lemma_mul_inequality(q + 1, cells as int, out_features as int);
            lemma_mul_is_distributive_add_other_way(out_features as int, q as int, 1);
        }
        for j in 0..out_features
            invariant
                q < cells,
                i < in_features,
                k < num_samples,
                i == (q as int) / (num_samples as int),
                k == (q as int) % (num_samples as int),
                starts.len() == width,
                sw_vals.len() == out_features * in_features * width,
                points@.len() == num_samples,
                basis_at@.len() == num_samples,
                basis_at@[k as int]@ == tabled_bumps(points@[k as int], starts, ends),
                table == relu_kan_lut(
                    sw_vals@,
                    in_features as int,
                    out_features as int,
                    starts,
                    ends,
                    points@,
                ),
                q * out_features + out_features <= table.len(),
                lut@ == table.take(q * out_features + j),
        {
            let ghost row = edge_weights(
                sw_vals@,
                out_features as int,
                width as int,
                i as int,
                j as int,
            );
            let mut val: T = T::from_count(0);
            for b in 0..width
                invariant
                    i < in_features,
                    j < out_features,
                    k < num_samples,
                    sw_vals.len() == out_features * in_features * width,
                    basis_at@.len() == num_samples,
                    basis_at@[k as int]@.len() == width,
                    row == edge_weights(
                        sw_vals@,
                        out_features as int,
                        width as int,
                        i as int,
                        j as int,
                    ),
                    val == dot(row, basis_at@[k as int]@, b as nat),
            {
                proof {
                    lemma_weight_index(
                        in_features as int,
                        out_features as int,
                        width as int,
                        i as int,
                        b as int,
                        j as int,
                    );
                    assert(sw_vals@.len() == sw_vals.len());
                    assert(i * width + b <= (i * width + b) * out_features) by (nonlinear_arith)
                        requires
                            0 <= i * width + b,
                            1 <= out_features,
                    ;
                }
                let weight: T = sw_vals[(i * width + b) * out_features + j];
                val = val.add(weight.mul(basis_at[k][b]));
            }
            proof {
                assert(out_features * q == q * out_features) by (nonlinear_arith);
                lemma_fundamental_div_mod_converse(
                    q * out_features + j,
                    out_features as int,
                    q as int,
                    j as int,
                );
            }
            assert(val == table[q * out_features + j]);
            lut.push(val);
            assert(lut@ =~= table.take(q * out_features + j + 1));
        }
        assert((q + 1) * out_features == q * out_features + out_features) by (nonlinear_arith);
    }
    assert(lut@ =~= table);
    lut
}

/// The number that stands for a signed integer.
pub open spec fn of_signed<T: Algebra>(n: i16) -> T {
    if n < 0 {
        T::of_count((-n) as usize).negated()
    } else {
        T::of_count(n as usize)
    }
}

/// The largest magnitude that stays within eight bits after multiplication by
/// `quant_scale`.
pub open spec fn quant_limit<T: Algebra>(quant_scale: i16) -> T {
    T::of_count(127).over(of_signed(quant_scale))
}

/// Whether `format` exports the table of a layer with these dimensions, limited to
/// what eight bits can hold and written as eight-bit integers after multiplication
/// by `quant_scale`.
pub open spec fn is_relu_kan_export<T: Algebra>(
    format: SavedFormat<T>,
    id: Seq<char>,
    in_features: usize,
    out_features: usize,
    grid_size: usize,
    support_width: usize,
    grid_range: (T, T),
    sample_range: (T, T),
    num_samples: usize,
    quant_scale: i16,
) -> bool {
    &&& format.source matches Source::ReluKanLut {
        id: prefix,
        in_features: inputs,
        out_features: outputs,
        grid_size: intervals,
        support_width: support,
        grid_range: domain,
        sample_range: sampled,
        num_samples: samples,
        limit,
    } && {
        &&& prefix@ == id
        &&& inputs == in_features && outputs == out_features
        &&& intervals == grid_size && support == support_width
        &&& domain == grid_range && sampled == sample_range
        &&& samples == num_samples
        &&& limit == quant_limit::<T>(quant_scale)
    }
    &&& format.round
    &&& format.quant == QuantTarget::I8(quant_scale)
}

/// The export of a layer's table: sampled at `num_samples` points for each edge,
/// limited to what eight bits can hold, rounded, and written as eight-bit
/// integers after multiplication by `quant_scale`. The weights are named `id`
/// followed by `_sw`.
pub fn relu_kan_lut_save_format<T: Scalar>(
    id: &str,
    in_features: usize,
    out_features: usize,
    grid_size: usize,
    support_width: usize,
    grid_range: (T, T),
    sample_range: (T, T),
    num_samples: usize,
    quant_scale: i16,
) -> (r: SavedFormat<T>)
    ensures
        r.source matches Source::ReluKanLut {
            id: prefix,
            in_features: inputs,
            out_features: outputs,
            grid_size: intervals,
            support_width: support,
            grid_range: domain,
            sample_range: sampled,
            num_samples: samples,
            limit,
        } && {
            &&& prefix@ == id@
            &&& inputs == in_features && outputs == out_features
            &&& intervals == grid_size && support == support_width
            &&& domain == grid_range && sampled == sample_range
            &&& samples == num_samples
            &&& limit == quant_limit::<T>(quant_scale)
        },
        r.round,
        r.quant == QuantTarget::I8(quant_scale),
        is_relu_kan_export(
            r,
            id@,
            in_features,
            out_features,
            grid_size,
            support_width,
            grid_range,
            sample_range,
            num_samples,
            quant_scale,
        ),
{
    let scale: T = if quant_scale < 0 {
        T::from_count((-(quant_scale as i32)) as usize).neg()
    } else {
        T::from_count(quant_scale as usize)
    };
    SavedFormat {
        source: Source::ReluKanLut {
            id: id.to_string(),
            in_features,
            out_features,
            grid_size,
            support_width,
            grid_range,
            sample_range,
            num_samples,
            limit: T::from_count(127).div(scale),
        },
        round: true,
        quant: QuantTarget::I8(quant_scale),
    }
}

} // verus!
