//! What an export holds, over the reals: the activation functions of the edges of
//! a layer, at evenly spaced points.

use vstd::prelude::*;

use super::arithmetic::dot_is_sum;
use super::bump::table_holds_bumps;
use super::grid::{
    knots_evenly_spaced, samples_evenly_spaced, support_ends_agree, supports_evenly_spaced,
};
use super::lut::{
    chosen, is_choice, kan_lookup, kan_output, kan_table_replaces_layer, lemma_kan_entry, lemma_place,
    lemma_relu_entry, relu_kan_lookup, relu_kan_output, relu_kan_table_replaces_layer,
};
use super::numbers::{lemma_over_sign, sum};
use crate::basis::bump::bump_value;
use crate::basis::spline::{basis_value, basis_values};
use crate::graph::save::{QuantTarget, SavedFormat, Source, WeightStore};
use crate::nn::grid::{support_ends_from_starts, support_starts, uniform_knots};
use crate::nn::kan_lut::is_kan_export;
use crate::nn::lut::{edge_weights, sample_points};
use crate::nn::relu_kan_lut::{is_relu_kan_export, quant_limit, relu_kan_lut, tabled_bumps};
use crate::scalar::Algebra;

verus! {

/// The first weights of a name are the ones that are found, and no weights are
/// found where none have the name.
pub proof fn first_of_a_name_is_found<T>(store: WeightStore<T>, name: Seq<char>, at: int)
    requires
        0 <= at <= store.entries.len(),
        forall|n: int| 0 <= n < at ==> (#[trigger] store.entries[n]).name@ != name,
        at < store.entries.len() ==> store.entries[at].name@ == name,
    ensures
        at < store.entries.len() ==> store.lookup(name) == Some(store.entries[at].values@),
        at == store.entries.len() ==> store.lookup(name) is None,
{
    lemma_lookup_passes(store, name, 0, at);
}

/// Weights of other names are passed over.
proof fn lemma_lookup_passes<T>(store: WeightStore<T>, name: Seq<char>, from: int, to: int)
    requires
        0 <= from <= to <= store.entries.len(),
        forall|n: int| from <= n < to ==> (#[trigger] store.entries[n]).name@ != name,
    ensures
        store.lookup_from(from, name) == store.lookup_from(to, name),
    decreases to - from,
{
    if from < to {
        assert(store.entries[from].name@ != name);
        lemma_lookup_passes(store, name, from + 1, to);
    }
}

/// The `k`-th of `samples` points that divide a range evenly, from its lower to its
/// upper end.
pub open spec fn dividing_point(range: (real, real), samples: usize, k: int) -> real {
    if samples == 1 {
        range.0
    } else {
        range.0 + (k as real) * ((range.1 - range.0) / ((samples - 1) as real))
    }
}

/// The points of a range that a choice of one for each feature stands for.
pub open spec fn dividing_points(range: (real, real), samples: usize, choice: Seq<int>) -> Seq<
    real,
> {
    Seq::new(choice.len(), |i: int| dividing_point(range, samples, choice[i]))
}

/// The sample points divide the range.
proof fn lemma_samples(range: (real, real), samples: usize, k: int)
    requires
        0 <= k < samples,
    ensures
        sample_points(range.0, range.1, samples)[k] == dividing_point(range, samples, k),
{
    if samples >= 2 {
        samples_evenly_spaced(range.0, range.1, samples, k);
    }
}

/// What the edge from `i` to `j` of a ReLU-KAN layer makes of `x`: the sum of
/// `grid_size + support_width` bumps, each weighted. The bump `b` is zero outside of
/// the support that begins `b - support_width` intervals above the lower end of the
/// grid and ends `b + 1` intervals above it.
pub open spec fn bump_activation(
    sw: Seq<real>,
    out_features: int,
    grid_size: usize,
    support_width: usize,
    grid_range: (real, real),
    i: int,
    j: int,
    x: real,
) -> real {
    let count = grid_size + support_width;
    let step = (grid_range.1 - grid_range.0) / (grid_size as int as real);
    sum(
        Seq::new(
            count as nat,
            |b: int|
                sw[(i * count + b) * out_features + j] * bump_value(
                    x,
                    grid_range.0 + ((b - support_width) as real) * step,
                    grid_range.0 + ((b + 1) as real) * step,
                ),
        ),
        count as nat,
    )
}

/// An entry of the table, before it is limited.
proof fn lemma_bump_entry(
    sw: Seq<real>,
    in_features: int,
    out_features: int,
    grid_size: usize,
    support_width: usize,
    grid_range: (real, real),
    sample_range: (real, real),
    num_samples: usize,
    i: int,
    j: int,
    k: int,
)
    requires
        grid_size > 0,
        grid_size + support_width <= usize::MAX,
        0 <= i < in_features,
        0 <= j < out_features,
        0 <= k < num_samples,
    ensures
        relu_kan_lut(
            sw,
            in_features,
            out_features,
            support_starts(grid_size, support_width, grid_range.0, grid_range.1),
            support_ends_from_starts(grid_size, support_width, grid_range.0, grid_range.1),
            sample_points(sample_range.0, sample_range.1, num_samples),
        )[(i * num_samples + k) * out_features + j] == bump_activation(
            sw,
            out_features,
            grid_size,
            support_width,
            grid_range,
            i,
            j,
            dividing_point(sample_range, num_samples, k),
        ),
{
    let starts = support_starts(grid_size, support_width, grid_range.0, grid_range.1);
    let ends = support_ends_from_starts(grid_size, support_width, grid_range.0, grid_range.1);
    let points = sample_points(sample_range.0, sample_range.1, num_samples);
    let x = points[k];
    let count = grid_size + support_width;
    lemma_samples(sample_range, num_samples, k);
    lemma_relu_entry(sw, in_features, out_features, starts, ends, points, j, i, k);
    let weights = edge_weights(sw, out_features, count, i, j);
    let bumps = tabled_bumps(x, starts, ends);
    let step = (grid_range.1 - grid_range.0) / (grid_size as int as real);
    let terms = Seq::new(
        count as nat,
        |b: int|
            sw[(i * count + b) * out_features + j] * bump_value(
                x,
                grid_range.0 + ((b - support_width) as real) * step,
                grid_range.0 + ((b + 1) as real) * step,
            ),
    );
    assert forall|b: int| 0 <= b < count implies #[trigger] terms[b] == weights[b] * bumps[b] by {
        table_holds_bumps(x, starts[b], ends[b]);
        supports_evenly_spaced(grid_size, support_width, grid_range.0, grid_range.1, b);
        support_ends_agree(grid_size, support_width, grid_range.0, grid_range.1, b);
    }
    dot_is_sum(weights, bumps, terms, count as nat);
}

/// The export of a ReLU-KAN layer holds one entry for each input feature, sample
/// and output, in this order of nesting. An entry is what the edge makes of the
/// sample with the stored weights, but at most `limit` in magnitude.
pub proof fn relu_kan_export_entry(
    source: Source<real>,
    id: String,
    in_features: usize,
    out_features: usize,
    grid_size: usize,
    support_width: usize,
    grid_range: (real, real),
    sample_range: (real, real),
    num_samples: usize,
    limit: real,
    store: WeightStore<real>,
    i: int,
    j: int,
    k: int,
)
    requires
        source == (Source::ReluKanLut {
            id,
            in_features,
            out_features,
            grid_size,
            support_width,
            grid_range,
            sample_range,
            num_samples,
            limit,
        }),
        store.lookup(id@ + "_sw"@) is Some,
        grid_size > 0,
        grid_size + support_width <= usize::MAX,
        0real <= limit,
        0 <= i < in_features,
        0 <= j < out_features,
        0 <= k < num_samples,
    ensures
        source.numbers(store).len() == in_features * num_samples * out_features,
        ({
            let value = bump_activation(
                store.lookup(id@ + "_sw"@)->0,
                out_features as int,
                grid_size,
                support_width,
                grid_range,
                i,
                j,
                dividing_point(sample_range, num_samples, k),
            );
            source.numbers(store)[(i * num_samples + k) * out_features + j] == (if value
                > limit {
                limit
            } else if value < 0real - limit {
                0real - limit
            } else {
                value
            })
        }),
{
    let sw = store.lookup(id@ + "_sw"@)->0;
    lemma_bump_entry(
        sw,
        in_features as int,
        out_features as int,
        grid_size,
        support_width,
        grid_range,
        sample_range,
        num_samples,
        i,
        j,
        k,
    );
    lemma_place(num_samples as int, i, k, in_features as int);
    lemma_place(out_features as int, i * num_samples + k, j, in_features * num_samples);
    assert(0 <= in_features * num_samples * out_features) by (nonlinear_arith)
        requires
            0 <= in_features,
            0 <= num_samples,
            0 <= out_features,
    ;
}

/// The magnitude that entries are limited to, for a table that is written as
/// eight-bit integers after multiplication by `quant_scale`.
pub proof fn limit_from_scale(quant_scale: i16)
    requires
        quant_scale != 0,
    ensures
        quant_limit::<real>(quant_scale) == 127real / (quant_scale as int as real),
{
}

/// An export of a ReLU-KAN layer is rounded and written as eight-bit integers after
/// multiplication by its scale. An entry is what the edge makes of the sample, from
/// the lower end of the sampled range to its upper end, but at most 127 over the
/// scale in magnitude.
pub proof fn made_relu_kan_export(
    format: SavedFormat<real>,
    id: Seq<char>,
    in_features: usize,
    out_features: usize,
    grid_size: usize,
    support_width: usize,
    grid_range: (real, real),
    sample_range: (real, real),
    num_samples: usize,
    quant_scale: i16,
    store: WeightStore<real>,
    i: int,
    j: int,
    k: int,
)
    requires
        is_relu_kan_export(
            format,
            id,
            in_features,
            out_features,
            grid_size,
            support_width,
            grid_range,
            sample_range,
            num_samples,
            quant_scale,
        ),
        store.lookup(id + "_sw"@) is Some,
        quant_scale > 0,
        grid_size > 0,
        grid_size + support_width <= usize::MAX,
        0 <= i < in_features,
        0 <= j < out_features,
        0 <= k < num_samples,
    ensures
        format.round,
        format.quant == QuantTarget::I8(quant_scale),
        format.source.numbers(store).len() == in_features * num_samples * out_features,
        ({
            let limit = 127real / (quant_scale as int as real);
            let value = bump_activation(
                store.lookup(id + "_sw"@)->0,
                out_features as int,
                grid_size,
                support_width,
                grid_range,
                i,
                j,
                if num_samples == 1 {
                    sample_range.0
                } else {
                    sample_range.0 + (k as real) * ((sample_range.1 - sample_range.0) / ((
                    num_samples - 1) as real))
                },
            );
            format.source.numbers(store)[(i * num_samples + k) * out_features + j] == (if value
                > limit {
                limit
            } else if value < 0real - limit {
                0real - limit
            } else {
                value
            })
        }),
{
    lemma_over_sign(127real, quant_scale as int as real);
    limit_from_scale(quant_scale);
    relu_kan_export_entry(
        format.source,
        format.source->ReluKanLut_id,
        in_features,
        out_features,
        grid_size,
        support_width,
        grid_range,
        sample_range,
        num_samples,
        quant_limit::<real>(quant_scale),
        store,
        i,
        j,
        k,
    );
}

/// An export of a KAN layer is rounded and written as 16-bit integers after
/// multiplication by its scale. An entry is what the edge makes of the sample, from
/// the lower end of the sampled range to its upper end.
pub proof fn made_kan_export(
    format: SavedFormat<real>,
    id: Seq<char>,
    in_features: usize,
    out_features: usize,
    grid_size: usize,
    spline_order: usize,
    grid_range: (real, real),
    sample_range: (real, real),
    num_samples: usize,
    quant_scale: i16,
    store: WeightStore<real>,
    i: int,
    j: int,
    k: int,
)
    requires
        is_kan_export(
            format,
            id,
            in_features,
            out_features,
            grid_size,
            spline_order,
            grid_range,
            sample_range,
            num_samples,
            quant_scale,
        ),
        store.lookup(id + "_sw"@) is Some,
        store.lookup(id + "_bw"@) is Some,
        grid_size > 0,
        grid_size + 2 * spline_order + 1 <= usize::MAX,
        0 <= i < in_features,
        0 <= j < out_features,
        0 <= k < num_samples,
    ensures
        format.round,
        format.quant == QuantTarget::I16(quant_scale),
        format.source.numbers(store).len() == out_features * in_features * num_samples,
        format.source.numbers(store)[(j * in_features + i) * num_samples + k] == spline_activation(
            store.lookup(id + "_sw"@)->0,
            store.lookup(id + "_bw"@)->0,
            out_features as int,
            grid_size,
            spline_order,
            grid_range,
            i,
            j,
            if num_samples == 1 {
                sample_range.0
            } else {
                sample_range.0 + (k as real) * ((sample_range.1 - sample_range.0) / ((num_samples
                    - 1) as real))
            },
        ),
{
    kan_export_entry(
        format.source,
        format.source->KanLut_id,
        in_features,
        out_features,
        grid_size,
        spline_order,
        grid_range,
        sample_range,
        num_samples,
        store,
        i,
        j,
        k,
    );
}

/// Sums over tables that agree in the entries that are looked up.
proof fn lemma_same_lookup(
    table: Seq<real>,
    other: Seq<real>,
    out_features: int,
    samples: int,
    choice: Seq<int>,
    j: int,
    n: nat,
)
    requires
        forall|i: int|
            0 <= i < n ==> table[(i * samples + #[trigger] choice[i]) * out_features + j]
                == other[(i * samples + choice[i]) * out_features + j],
    ensures
        relu_kan_lookup(table, out_features, samples, choice, j, n) == relu_kan_lookup(
            other,
            out_features,
            samples,
            choice,
            j,
            n,
        ),
    decreases n,
{
    if n > 0 {
        lemma_same_lookup(table, other, out_features, samples, choice, j, (n - 1) as nat);
        let i = n - 1;
        assert(table[(i * samples + choice[i]) * out_features + j] == other[(i * samples
            + choice[i]) * out_features + j]);
    }
}

/// Where no entry had to be limited, the entries of an export for one sample per
/// input feature add up to the output of the layer with the stored weights for
/// those samples.
pub proof fn relu_kan_export_replaces_layer(
    source: Source<real>,
    id: String,
    in_features: usize,
    out_features: usize,
    grid_size: usize,
    support_width: usize,
    grid_range: (real, real),
    sample_range: (real, real),
    num_samples: usize,
    limit: real,
    store: WeightStore<real>,
    choice: Seq<int>,
    blank: Seq<real>,
    j: int,
)
    requires
        source == (Source::ReluKanLut {
            id,
            in_features,
            out_features,
            grid_size,
            support_width,
            grid_range,
            sample_range,
            num_samples,
            limit,
        }),
        store.lookup(id@ + "_sw"@) is Some,
        grid_size > 0,
        grid_size + support_width <= usize::MAX,
        is_choice(choice, in_features as int, num_samples as int),
        blank.len() == in_features * (grid_size + support_width),
        0 <= j < out_features,
        forall|i: int|
            0 <= i < in_features ==> 0real - limit <= bump_activation(
                store.lookup(id@ + "_sw"@)->0,
                out_features as int,
                grid_size,
                support_width,
                grid_range,
                i,
                j,
                dividing_point(sample_range, num_samples, #[trigger] choice[i]),
            ) <= limit,
    ensures
        ({
            let step = (grid_range.1 - grid_range.0) / (grid_size as int as real);
            relu_kan_lookup(
                source.numbers(store),
                out_features as int,
                num_samples as int,
                choice,
                j,
                in_features as nat,
            ) == relu_kan_output(
                store.lookup(id@ + "_sw"@)->0,
                in_features as int,
                out_features as int,
                Seq::new(
                    (grid_size + support_width) as nat,
                    |b: int| grid_range.0 + ((b - support_width) as real) * step,
                ),
                Seq::new(
                    (grid_size + support_width) as nat,
                    |b: int| grid_range.0 + ((b + 1) as real) * step,
                ),
                dividing_points(sample_range, num_samples, choice),
                blank,
                j,
            )
        }),
{
    let sw = store.lookup(id@ + "_sw"@)->0;
    let step = (grid_range.1 - grid_range.0) / (grid_size as int as real);
    let count = (grid_size + support_width) as nat;
    let starts = support_starts(grid_size, support_width, grid_range.0, grid_range.1);
    let ends = support_ends_from_starts(grid_size, support_width, grid_range.0, grid_range.1);
    let points = sample_points(sample_range.0, sample_range.1, num_samples);
    let table = relu_kan_lut(sw, in_features as int, out_features as int, starts, ends, points);
    let even_starts = Seq::new(
        count,
        |b: int| grid_range.0 + ((b - support_width) as real) * step,
    );
    let even_ends = Seq::new(count, |b: int| grid_range.0 + ((b + 1) as real) * step);
    assert forall|b: int| 0 <= b < count implies #[trigger] starts[b] == even_starts[b] by {
        supports_evenly_spaced(grid_size, support_width, grid_range.0, grid_range.1, b);
    }
    assert forall|b: int| 0 <= b < count implies #[trigger] ends[b] == even_ends[b] by {
        supports_evenly_spaced(grid_size, support_width, grid_range.0, grid_range.1, b);
        support_ends_agree(grid_size, support_width, grid_range.0, grid_range.1, b);
    }
    assert(starts =~= even_starts);
    assert(ends =~= even_ends);
    let inputs = dividing_points(sample_range, num_samples, choice);
    assert forall|i: int| 0 <= i < in_features implies #[trigger] chosen(
        points,
        choice,
    )[i] == inputs[i] by {
        assert(0 <= choice[i] < num_samples);
        lemma_samples(sample_range, num_samples, choice[i]);
    }
    assert(chosen(points, choice) =~= inputs);
    relu_kan_table_replaces_layer(
        sw,
        in_features as int,
        out_features as int,
        starts,
        ends,
        points,
        choice,
        blank,
        j,
    );
    assert forall|i: int| 0 <= i < in_features implies source.numbers(store)[(i * num_samples
        + #[trigger] choice[i]) * out_features + j] == table[(i * num_samples + choice[i])
        * out_features + j] by {
        let k = choice[i];
        assert(0 <= k < num_samples);
        lemma_bump_entry(
            sw,
            in_features as int,
            out_features as int,
            grid_size,
            support_width,
            grid_range,
            sample_range,
            num_samples,
            i,
            j,
            k,
        );
        lemma_place(num_samples as int, i, k, in_features as int);
        lemma_place(out_features as int, i * num_samples + k, j, in_features * num_samples);
    }
    lemma_same_lookup(
        source.numbers(store),
        table,
        out_features as int,
        num_samples as int,
        choice,
        j,
        in_features as nat,
    );
}

/// The knots of a layer: evenly spaced, one interval of the grid apart, from
/// `spline_order` intervals below the grid to as many above it.
pub open spec fn even_knots(
    grid_size: usize,
    spline_order: usize,
    grid_range: (real, real),
) -> Seq<real> {
    Seq::new(
        (grid_size + 2 * spline_order + 1) as nat,
        |n: int|
            grid_range.0 + ((n - spline_order) as real) * ((grid_range.1 - grid_range.0) / (
            grid_size as int as real)),
    )
}

/// The knots that a layer is made with.
proof fn lemma_knots(grid_size: usize, spline_order: usize, grid_range: (real, real))
    requires
        grid_size > 0,
        grid_size + 2 * spline_order + 1 <= usize::MAX,
    ensures
        uniform_knots(grid_size, spline_order, grid_range.0, grid_range.1) == even_knots(
            grid_size,
            spline_order,
            grid_range,
        ),
{
    let knots = uniform_knots(grid_size, spline_order, grid_range.0, grid_range.1);
    let even = even_knots(grid_size, spline_order, grid_range);
    assert forall|n: int| 0 <= n < even.len() implies #[trigger] knots[n] == even[n] by {
        knots_evenly_spaced(grid_size, spline_order, grid_range.0, grid_range.1, n);
    }
    assert(knots =~= even);
}

/// What the edge from `i` to `j` of a KAN layer makes of `x`: the sum of
/// `grid_size + spline_order` basis functions, each weighted, and the weighted SiLU
/// function.
pub open spec fn spline_activation(
    sw: Seq<real>,
    bw: Seq<real>,
    out_features: int,
    grid_size: usize,
    spline_order: usize,
    grid_range: (real, real),
    i: int,
    j: int,
    x: real,
) -> real {
    let count = grid_size + spline_order;
    let knots = even_knots(grid_size, spline_order, grid_range);
    sum(
        Seq::new(
            count as nat,
            |b: int|
                sw[(i * count + b) * out_features + j] * basis_value(
                    x,
                    knots,
                    spline_order as nat,
                    b,
                ),
        ),
        count as nat,
    ) + bw[i * out_features + j] * (x / (1real + (0real - x).exponential()))
}

/// The export of a KAN layer holds one entry for each output, input feature and
/// sample, in this order of nesting. An entry is what the edge makes of the sample
/// with the stored weights.
pub proof fn kan_export_entry(
    source: Source<real>,
    id: String,
    in_features: usize,
    out_features: usize,
    grid_size: usize,
    spline_order: usize,
    grid_range: (real, real),
    sample_range: (real, real),
    num_samples: usize,
    store: WeightStore<real>,
    i: int,
    j: int,
    k: int,
)
    requires
        source == (Source::KanLut {
            id,
            in_features,
            out_features,
            grid_size,
            spline_order,
            grid_range,
            sample_range,
            num_samples,
        }),
        store.lookup(id@ + "_sw"@) is Some,
        store.lookup(id@ + "_bw"@) is Some,
        grid_size > 0,
        grid_size + 2 * spline_order + 1 <= usize::MAX,
        0 <= i < in_features,
        0 <= j < out_features,
        0 <= k < num_samples,
    ensures
        source.numbers(store).len() == out_features * in_features * num_samples,
        source.numbers(store)[(j * in_features + i) * num_samples + k] == spline_activation(
            store.lookup(id@ + "_sw"@)->0,
            store.lookup(id@ + "_bw"@)->0,
            out_features as int,
            grid_size,
            spline_order,
            grid_range,
            i,
            j,
            dividing_point(sample_range, num_samples, k),
        ),
{
    let sw = store.lookup(id@ + "_sw"@)->0;
    let bw = store.lookup(id@ + "_bw"@)->0;
    let knots = uniform_knots(grid_size, spline_order, grid_range.0, grid_range.1);
    let points = sample_points(sample_range.0, sample_range.1, num_samples);
    let x = points[k];
    let count = grid_size + spline_order;
    lemma_samples(sample_range, num_samples, k);
    lemma_knots(grid_size, spline_order, grid_range);
    lemma_kan_entry(
        sw,
        bw,
        in_features as int,
        out_features as int,
        grid_size,
        spline_order,
        knots,
        points,
        j,
        i,
        k,
    );
    let weights = edge_weights(sw, out_features as int, count, i, j);
    let values = basis_values(x, knots, spline_order as nat);
    let terms = Seq::new(
        count as nat,
        |b: int|
            sw[(i * count + b) * out_features + j] * basis_value(
                x,
                even_knots(grid_size, spline_order, grid_range),
                spline_order as nat,
                b,
            ),
    );
    assert forall|b: int| 0 <= b < count implies #[trigger] terms[b] == weights[b] * values[b] by {}
    dot_is_sum(weights, values, terms, count as nat);
    assert(0real - x == -x);
    assert(0 <= out_features * in_features * num_samples) by (nonlinear_arith)
        requires
            0 <= in_features,
            0 <= num_samples,
            0 <= out_features,
    ;
}

/// The entries of an export for one sample per input feature add up to the output
/// of the layer with the stored weights for those samples.
pub proof fn kan_export_replaces_layer(
    source: Source<real>,
    id: String,
    in_features: usize,
    out_features: usize,
    grid_size: usize,
    spline_order: usize,
    grid_range: (real, real),
    sample_range: (real, real),
    num_samples: usize,
    store: WeightStore<real>,
    choice: Seq<int>,
    blank: Seq<real>,
    j: int,
)
    requires
        source == (Source::KanLut {
            id,
            in_features,
            out_features,
            grid_size,
            spline_order,
            grid_range,
            sample_range,
            num_samples,
        }),
        store.lookup(id@ + "_sw"@) is Some,
        store.lookup(id@ + "_bw"@) is Some,
        grid_size > 0,
        grid_size + 2 * spline_order + 1 <= usize::MAX,
        is_choice(choice, in_features as int, num_samples as int),
        blank.len() == in_features * (grid_size + spline_order),
        0 <= j < out_features,
    ensures
        kan_lookup(
            source.numbers(store),
            in_features as int,
            num_samples as int,
            choice,
            j,
            in_features as nat,
        ) == kan_output(
            store.lookup(id@ + "_sw"@)->0,
            store.lookup(id@ + "_bw"@)->0,
            in_features as int,
            out_features as int,
            grid_size as int,
            spline_order as int,
            even_knots(grid_size, spline_order, grid_range),
            dividing_points(sample_range, num_samples, choice),
            blank,
            j,
        ),
{
    let sw = store.lookup(id@ + "_sw"@)->0;
    let bw = store.lookup(id@ + "_bw"@)->0;
    let knots = uniform_knots(grid_size, spline_order, grid_range.0, grid_range.1);
    let points = sample_points(sample_range.0, sample_range.1, num_samples);
    lemma_knots(grid_size, spline_order, grid_range);
    let inputs = dividing_points(sample_range, num_samples, choice);
    assert forall|i: int| 0 <= i < in_features implies #[trigger] chosen(
        points,
        choice,
    )[i] == inputs[i] by {
        assert(0 <= choice[i] < num_samples);
        lemma_samples(sample_range, num_samples, choice[i]);
    }
    assert(chosen(points, choice) =~= inputs);
    kan_table_replaces_layer(
        sw,
        bw,
        in_features as int,
        out_features as int,
        grid_size,
        spline_order,
        knots,
        points,
        choice,
        blank,
        j,
    );
}

} // verus!
