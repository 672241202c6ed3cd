//! A sum of table entries is the output of the layer, over the reals.

use vstd::arithmetic::div_mod::lemma_fundamental_div_mod_converse;
use vstd::prelude::*;

use super::bump::{table_holds_bumps, zero_outside_support};
use super::numbers::{lemma_bounded_product, lemma_over_sign};
use crate::basis::spline::{basis_values, num_basis, num_knots};
use crate::device::operation::bspline;
use crate::device::operation::relu_kan;
use crate::nn::kan_lut::{edge_value, kan_lut, silu_value};
use crate::nn::lut::edge_weights;
use crate::nn::relu_kan_lut;
use crate::scalar::{dot, Algebra};

verus! {

/// The row `j` of a matrix with `rows` rows that is stored column by column.
pub open spec fn row(matrix: Seq<real>, rows: int, columns: int, j: int) -> Seq<real> {
    Seq::new(columns as nat, |c: int| matrix[c * rows + j])
}

/// The inputs that a choice of one sample point for each feature stands for.
pub open spec fn chosen(points: Seq<real>, choice: Seq<int>) -> Seq<real> {
    Seq::new(choice.len(), |i: int| points[choice[i]])
}

/// Whether a choice names a sample point for each of `in_features` features.
pub open spec fn is_choice(choice: Seq<int>, in_features: int, samples: int) -> bool {
    choice.len() == in_features && forall|i: int|
        0 <= i < in_features ==> 0 <= #[trigger] choice[i] < samples
}

/// The SiLU function of each input.
pub open spec fn silus(inputs: Seq<real>) -> Seq<real> {
    Seq::new(inputs.len(), |i: int| silu_value(inputs[i]))
}

/// The output `j` of a KAN layer: the spline weights times the basis values that
/// the device computes, and the base weights times the SiLU of the inputs.
/// `blank` is the buffer that the basis values are written to.
pub open spec fn kan_output(
    sw: Seq<real>,
    bw: Seq<real>,
    in_features: int,
    out_features: int,
    grid_size: int,
    spline_order: int,
    knots: Seq<real>,
    inputs: Seq<real>,
    blank: Seq<real>,
    j: int,
) -> real {
    let columns = in_features * num_basis(grid_size, spline_order);
    dot(
        row(sw, out_features, columns, j),
        bspline::forward_output(in_features, grid_size, spline_order, inputs, knots, blank),
        columns as nat,
    ) + dot(row(bw, out_features, in_features, j), silus(inputs), in_features as nat)
}

/// The sum of the entries for the output `j` and the first `n` features of a
/// table that is laid out as `[out_features][in_features][num_samples]`.
pub open spec fn kan_lookup(
    table: Seq<real>,
    in_features: int,
    samples: int,
    choice: Seq<int>,
    j: int,
    n: nat,
) -> real
    decreases n,
{
    if n == 0 {
        0real
    } else {
        kan_lookup(table, in_features, samples, choice, j, (n - 1) as nat) + table[(j * in_features
            + (n - 1)) * samples + choice[n - 1]]
    }
}

/// The output `j` of a ReLU-KAN layer: the weights times the basis values that
/// the device computes.
pub open spec fn relu_kan_output(
    sw: Seq<real>,
    in_features: int,
    out_features: int,
    starts: Seq<real>,
    ends: Seq<real>,
    inputs: Seq<real>,
    blank: Seq<real>,
    j: int,
) -> real {
    let columns = in_features * starts.len() as int;
    dot(
        row(sw, out_features, columns, j),
        relu_kan::forward_output(
            in_features,
            starts.len() as int,
            inputs,
            starts + ends,
            blank,
        ),
        columns as nat,
    )
}

/// The sum of the entries for the output `j` and the first `n` features of a
/// table that is laid out as `[in_features][num_samples][out_features]`.
pub open spec fn relu_kan_lookup(
    table: Seq<real>,
    out_features: int,
    samples: int,
    choice: Seq<int>,
    j: int,
    n: nat,
) -> real
    decreases n,
{
    if n == 0 {
        0real
    } else {
        relu_kan_lookup(table, out_features, samples, choice, j, (n - 1) as nat) + table[((n - 1)
            * samples + choice[n - 1]) * out_features + j]
    }
}

/// A sum of products that continues another one.
proof fn lemma_dot_continues(
    a: Seq<real>,
    b: Seq<real>,
    offset: nat,
    part_a: Seq<real>,
    part_b: Seq<real>,
    n: nat,
)
    requires
        forall|i: int| 0 <= i < n ==> #[trigger] part_a[i] == a[offset + i],
        forall|i: int| 0 <= i < n ==> #[trigger] part_b[i] == b[offset + i],
    ensures
        dot(a, b, offset + n) == dot(a, b, offset) + dot(part_a, part_b, n),
    decreases n,
{
    if n > 0 {
        lemma_dot_continues(a, b, offset, part_a, part_b, (n - 1) as nat);
        assert(part_a[n - 1] == a[offset + (n - 1)]);
        assert(part_b[n - 1] == b[offset + (n - 1)]);
    }
}

/// Where a value stands among equally many for each feature.
pub(crate) proof fn lemma_place(width: int, i: int, b: int, count: int)
    requires
        0 <= i < count,
        0 <= b < width,
    ensures
        (i * width + b) / width == i,
        (i * width + b) % width == b,
        0 <= i * width,
        i * width + b < count * width,
{
    assert(width * i == i * width) by (nonlinear_arith);
    lemma_fundamental_div_mod_converse(i * width + b, width, i, b);
    assert(0 <= i * width && i * width + b < count * width) by (nonlinear_arith)
        requires
            0 <= i < count,
            0 <= b < width,
    ;
}

/// An entry of a KAN table.
pub(crate) proof fn lemma_kan_entry(
    sw: Seq<real>,
    bw: Seq<real>,
    in_features: int,
    out_features: int,
    grid_size: usize,
    spline_order: usize,
    knots: Seq<real>,
    points: Seq<real>,
    j: int,
    i: int,
    k: int,
)
    requires
        0 <= i < in_features,
        0 <= j < out_features,
        0 <= k < points.len(),
    ensures
        kan_lut(
            sw,
            bw,
            in_features,
            out_features,
            grid_size,
            spline_order,
            knots,
            points,
        )[(j * in_features + i) * points.len() + k] == edge_value(
            sw,
            bw,
            out_features,
            num_basis(grid_size as int, spline_order as int),
            knots,
            spline_order as nat,
            i,
            j,
            points[k],
        ),
{
    let samples = points.len() as int;
    lemma_place(in_features, j, i, out_features);
    lemma_place(samples, j * in_features + i, k, out_features * in_features);
}

/// The part of a layer's spline path that one feature contributes.
#[verifier::spinoff_prover]
proof fn lemma_feature_part(
    sw: Seq<real>,
    in_features: int,
    out_features: int,
    grid_size: int,
    spline_order: int,
    knots: Seq<real>,
    inputs: Seq<real>,
    blank: Seq<real>,
    j: int,
    i: nat,
)
    requires
        0 <= i < in_features,
        0 <= j < out_features,
        0 <= grid_size,
        0 <= spline_order,
        knots.len() == num_knots(grid_size, spline_order),
        inputs.len() == in_features,
        blank.len() == in_features * num_basis(grid_size, spline_order),
    ensures
        ({
            let width = num_basis(grid_size, spline_order);
            let weights = row(sw, out_features, in_features * width, j);
            let values = bspline::forward_output(
                in_features,
                grid_size,
                spline_order,
                inputs,
                knots,
                blank,
            );
            &&& 0 <= i * width
            &&& dot(weights, values, ((i + 1) * width) as nat) == dot(
                weights,
                values,
                (i * width) as nat,
            ) + dot(
                edge_weights(sw, out_features, width, i as int, j),
                basis_values(inputs[i as int], knots, spline_order as nat),
                width as nat,
            )
        }),
{
    let width = num_basis(grid_size, spline_order);
    let weights = row(sw, out_features, in_features * width, j);
    let values = bspline::forward_output(
        in_features,
        grid_size,
        spline_order,
        inputs,
        knots,
        blank,
    );
    let part = edge_weights(sw, out_features, width, i as int, j);
    let own = basis_values(inputs[i as int], knots, spline_order as nat);
    assert(knots.take(num_knots(grid_size, spline_order)) =~= knots);
    assert(0 <= i * width && (i + 1) * width == i * width + width) by (nonlinear_arith)
        requires
            0 <= i,
            0 <= width,
    ;
    let offset = (i * width) as nat;
    assert forall|b: int| 0 <= b < width implies #[trigger] part[b] == weights[offset + b] by {
        lemma_place(width, i as int, b, in_features);
    }
    assert forall|b: int| 0 <= b < width implies #[trigger] own[b] == values[offset + b] by {
        lemma_place(width, i as int, b, in_features);
    }
    lemma_dot_continues(weights, values, offset, part, own, width as nat);
}

/// The sum of the entries for the first `n` features.
#[verifier::spinoff_prover]
proof fn lemma_kan_lookup(
    sw: Seq<real>,
    bw: Seq<real>,
    in_features: int,
    out_features: int,
    grid_size: usize,
    spline_order: usize,
    knots: Seq<real>,
    points: Seq<real>,
    choice: Seq<int>,
    blank: Seq<real>,
    j: int,
    n: nat,
)
    requires
        0 <= j < out_features,
        n <= in_features,
        knots.len() == num_knots(grid_size as int, spline_order as int),
        is_choice(choice, in_features, points.len() as int),
        blank.len() == in_features * num_basis(grid_size as int, spline_order as int),
    ensures
        ({
            let width = num_basis(grid_size as int, spline_order as int);
            let inputs = chosen(points, choice);
            kan_lookup(
                kan_lut(
                    sw,
                    bw,
                    in_features,
                    out_features,
                    grid_size,
                    spline_order,
                    knots,
                    points,
                ),
                in_features,
                points.len() as int,
                choice,
                j,
                n,
            ) == dot(
                row(sw, out_features, in_features * width, j),
                bspline::forward_output(
                    in_features,
                    grid_size as int,
                    spline_order as int,
                    inputs,
                    knots,
                    blank,
                ),
                (n * width) as nat,
            ) + dot(row(bw, out_features, in_features, j), silus(inputs), n)
        }),
    decreases n,
{
    let width = num_basis(grid_size as int, spline_order as int);
    if n == 0 {
        assert(0 * width == 0) by (nonlinear_arith);
    } else {
        let i = (n - 1) as nat;
        let inputs = chosen(points, choice);
        lemma_kan_lookup(
            sw,
            bw,
            in_features,
            out_features,
            grid_size,
            spline_order,
            knots,
            points,
            choice,
            blank,
            j,
            i,
        );
        lemma_kan_entry(
            sw,
            bw,
            in_features,
            out_features,
            grid_size,
            spline_order,
            knots,
            points,
            j,
            i as int,
            choice[i as int],
        );
        lemma_feature_part(
            sw,
            in_features,
            out_features,
            grid_size as int,
            spline_order as int,
            knots,
            inputs,
            blank,
            j,
            i,
        );
        assert(inputs[i as int] == points[choice[i as int]]);
        assert(row(bw, out_features, in_features, j)[i as int] == bw[i * out_features + j]);
        assert(silus(inputs)[i as int] == silu_value(inputs[i as int]));
    }
}

/// One table entry per input feature, added up, is what the KAN layer computes
/// for those inputs.
pub proof fn kan_table_replaces_layer(
    sw: Seq<real>,
    bw: Seq<real>,
    in_features: int,
    out_features: int,
    grid_size: usize,
    spline_order: usize,
    knots: Seq<real>,
    points: Seq<real>,
    choice: Seq<int>,
    blank: Seq<real>,
    j: int,
)
    requires
        0 <= j < out_features,
        0 <= in_features,
        knots.len() == num_knots(grid_size as int, spline_order as int),
        is_choice(choice, in_features, points.len() as int),
        blank.len() == in_features * num_basis(grid_size as int, spline_order as int),
    ensures
        kan_lookup(
            kan_lut(sw, bw, in_features, out_features, grid_size, spline_order, knots, points),
            in_features,
            points.len() as int,
            choice,
            j,
            in_features as nat,
        ) == kan_output(
            sw,
            bw,
            in_features,
            out_features,
            grid_size as int,
            spline_order as int,
            knots,
            chosen(points, choice),
            blank,
            j,
        ),
{
    lemma_kan_lookup(
        sw,
        bw,
        in_features,
        out_features,
        grid_size,
        spline_order,
        knots,
        points,
        choice,
        blank,
        j,
        in_features as nat,
    );
}

/// An entry of a ReLU-KAN table.
pub(crate) proof fn lemma_relu_entry(
    sw: Seq<real>,
    in_features: int,
    out_features: int,
    starts: Seq<real>,
    ends: Seq<real>,
    points: Seq<real>,
    j: int,
    i: int,
    k: int,
)
    requires
        0 <= i < in_features,
        0 <= j < out_features,
        0 <= k < points.len(),
    ensures
        relu_kan_lut::relu_kan_lut(sw, in_features, out_features, starts, ends, points)[(i
            * points.len() + k) * out_features + j] == relu_kan_lut::edge_value(
            sw,
            out_features,
            starts,
            ends,
            i,
            j,
            points[k],
        ),
{
    let samples = points.len() as int;
    lemma_place(samples, i, k, in_features);
    lemma_place(out_features, i * samples + k, j, in_features * samples);
}

/// The part of a ReLU-KAN layer that one feature contributes.
#[verifier::spinoff_prover]
proof fn lemma_relu_feature_part(
    sw: Seq<real>,
    in_features: int,
    out_features: int,
    starts: Seq<real>,
    ends: Seq<real>,
    inputs: Seq<real>,
    blank: Seq<real>,
    j: int,
    i: nat,
)
    requires
        0 <= i < in_features,
        0 <= j < out_features,
        starts.len() == ends.len(),
        inputs.len() == in_features,
        blank.len() == in_features * starts.len(),
    ensures
        ({
            let width = starts.len() as int;
            let weights = row(sw, out_features, in_features * width, j);
            let values = relu_kan::forward_output(
                in_features,
                width,
                inputs,
                starts + ends,
                blank,
            );
            &&& 0 <= i * width
            &&& dot(weights, values, ((i + 1) * width) as nat) == dot(
                weights,
                values,
                (i * width) as nat,
            ) + relu_kan_lut::edge_value(
                sw,
                out_features,
                starts,
                ends,
                i as int,
                j,
                inputs[i as int],
            )
        }),
{
    let width = starts.len() as int;
    let weights = row(sw, out_features, in_features * width, j);
    let values = relu_kan::forward_output(in_features, width, inputs, starts + ends, blank);
    let part = edge_weights(sw, out_features, width, i as int, j);
    let own = relu_kan_lut::tabled_bumps(inputs[i as int], starts, ends);
    assert(0 <= i * width && (i + 1) * width == i * width + width) by (nonlinear_arith)
        requires
            0 <= i,
            0 <= width,
    ;
    let offset = (i * width) as nat;
    assert forall|b: int| 0 <= b < width implies #[trigger] part[b] == weights[offset + b] by {
        lemma_place(width, i as int, b, in_features);
    }
    assert forall|b: int| 0 <= b < width implies #[trigger] own[b] == values[offset + b] by {
        lemma_place(width, i as int, b, in_features);
        table_holds_bumps(inputs[i as int], starts[b], ends[b]);
        assert((starts + ends)[b] == starts[b]);
        assert((starts + ends)[width + b] == ends[b]);
    }
    lemma_dot_continues(weights, values, offset, part, own, width as nat);
}

/// The sum of the entries for the first `n` features.
#[verifier::spinoff_prover]
proof fn lemma_relu_lookup(
    sw: Seq<real>,
    in_features: int,
    out_features: int,
    starts: Seq<real>,
    ends: Seq<real>,
    points: Seq<real>,
    choice: Seq<int>,
    blank: Seq<real>,
    j: int,
    n: nat,
)
    requires
        0 <= j < out_features,
        n <= in_features,
        starts.len() == ends.len(),
        is_choice(choice, in_features, points.len() as int),
        blank.len() == in_features * starts.len(),
    ensures
        relu_kan_lookup(
            relu_kan_lut::relu_kan_lut(sw, in_features, out_features, starts, ends, points),
            out_features,
            points.len() as int,
            choice,
            j,
            n,
        ) == dot(
            row(sw, out_features, in_features * starts.len() as int, j),
            relu_kan::forward_output(
                in_features,
                starts.len() as int,
                chosen(points, choice),
                starts + ends,
                blank,
            ),
            (n * starts.len()) as nat,
        ),
    decreases n,
{
    let width = starts.len() as int;
    if n == 0 {
        assert(0 * width == 0) by (nonlinear_arith);
    } else {
        let i = (n - 1) as nat;
        let inputs = chosen(points, choice);
        lemma_relu_lookup(
            sw,
            in_features,
            out_features,
            starts,
            ends,
            points,
            choice,
            blank,
            j,
            i,
        );
        lemma_relu_entry(
            sw,
            in_features,
            out_features,
            starts,
            ends,
            points,
            j,
            i as int,
            choice[i as int],
        );
        lemma_relu_feature_part(
            sw,
            in_features,
            out_features,
            starts,
            ends,
            inputs,
            blank,
            j,
            i,
        );
        assert(inputs[i as int] == points[choice[i as int]]);
    }
}

/// One table entry per input feature, added up, is what the ReLU-KAN layer
/// computes for those inputs.
pub proof fn relu_kan_table_replaces_layer(
    sw: Seq<real>,
    in_features: int,
    out_features: int,
    starts: Seq<real>,
    ends: Seq<real>,
    points: Seq<real>,
    choice: Seq<int>,
    blank: Seq<real>,
    j: int,
)
    requires
        0 <= j < out_features,
        0 <= in_features,
        starts.len() == ends.len(),
        is_choice(choice, in_features, points.len() as int),
        blank.len() == in_features * starts.len(),
    ensures
        relu_kan_lookup(
            relu_kan_lut::relu_kan_lut(sw, in_features, out_features, starts, ends, points),
            out_features,
            points.len() as int,
            choice,
            j,
            in_features as nat,
        ) == relu_kan_output(
            sw,
            in_features,
            out_features,
            starts,
            ends,
            chosen(points, choice),
            blank,
            j,
        ),
{
    lemma_relu_lookup(
        sw,
        in_features,
        out_features,
        starts,
        ends,
        points,
        choice,
        blank,
        j,
        in_features as nat,
    );
}

/// Limited entries fit into eight bits after multiplication by the scale. Those
/// that fit anyway are not changed.
pub proof fn limited_entries_fit_eight_bits(x: real, quant_scale: i16)
    requires
        quant_scale > 0,
    ensures
        ({
            let limit = relu_kan_lut::quant_limit::<real>(quant_scale);
            let scale = quant_scale as int as real;
            let entry = x.limited(limit.negated(), limit);
            &&& -127real <= entry * scale <= 127real
            &&& -127real <= x * scale <= 127real ==> entry == x
        }),
{
    let scale = quant_scale as int as real;
    let limit = relu_kan_lut::quant_limit::<real>(quant_scale);
    assert(limit == 127real / scale);
    lemma_over_sign(127real, scale);
    let entry = x.limited(limit.negated(), limit);
    lemma_bounded_product(entry, limit, scale, scale);
    if x > limit {
        assert(x * scale > limit * scale) by (nonlinear_arith)
            requires
                x > limit,
                scale > 0real,
        ;
    }
    if x < -limit {
        assert(x * scale < -(limit * scale)) by (nonlinear_arith)
            requires
                x < -limit,
                scale > 0real,
        ;
    }
}

/// The bumps that a table is sampled from are those that the device writes for a
/// single point. They are zero outside of their supports.
pub proof fn table_evaluates_like_device(
    x: real,
    starts: Seq<real>,
    ends: Seq<real>,
    output: Seq<real>,
)
    requires
        starts.len() == ends.len(),
        output.len() == starts.len(),
    ensures
        relu_kan_lut::tabled_bumps(x, starts, ends) == relu_kan::forward_output(
            1,
            starts.len() as int,
            seq![x],
            starts + ends,
            output,
        ),
        forall|i: int|
            0 <= i < starts.len() && (x <= starts[i] || ends[i] <= x)
                ==> #[trigger] relu_kan_lut::tabled_bumps(x, starts, ends)[i] == 0real,
{
    let width = starts.len() as int;
    let tabled = relu_kan_lut::tabled_bumps(x, starts, ends);
    let written = relu_kan::forward_output(1, width, seq![x], starts + ends, output);
    assert(0 * width == 0 && 1 * width == width) by (nonlinear_arith);
    assert forall|i: int| 0 <= i < width implies tabled[i] == written[i] by {
        lemma_place(width, 0, i, 1);
        table_holds_bumps(x, starts[i], ends[i]);
        assert((starts + ends)[i] == starts[i]);
        assert((starts + ends)[width + i] == ends[i]);
    }
    assert(tabled =~= written);
    assert forall|i: int|
        0 <= i < starts.len() && (x <= starts[i] || ends[i] <= x) implies #[trigger] tabled[i]
        == 0real by {
        table_holds_bumps(x, starts[i], ends[i]);
        zero_outside_support(x, starts[i], ends[i]);
    }
}

} // verus!
