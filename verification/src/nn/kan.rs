//! KAN layers with B-spline activations.

use vstd::prelude::*;

use super::activation::BaseActivation;
use super::grid::{make_grid, uniform_knots};
use crate::basis::spline::{num_basis, num_knots};
use crate::graph::builder::{
    constant_data, node_at, weight_data, GraphBuilder, InitSettings, Weight,
};
use crate::graph::ir::operation::bspline::BSplineBasis;
use crate::graph::ir::operation::{Matmul, Operation};
use crate::graph::ir::{AnnotatedNode, IrNode};
use crate::scalar::{one, zero, Algebra, Scalar};
use crate::tensor::Shape;

verus! {

/// A KAN (Kolmogorov-Arnold network) layer.
///
/// - Spline path: `spline_weight * basis(input, grid)`
/// - Optional base path: `base_weight * activation(input)`
///
/// The activation of the base path is chosen when the layer is applied.
#[derive(Clone, Copy, Debug)]
pub struct KanLayer {
    /// The weights of the basis values.
    pub spline_weight: AnnotatedNode,
    /// The weights of the base path, if the layer has one.
    pub base_weight: Option<AnnotatedNode>,
    /// The knots.
    pub grid: AnnotatedNode,
    /// The number of intervals that the input range is divided into.
    pub grid_size: usize,
    /// The degree of the splines.
    pub spline_order: usize,
}

impl KanLayer {
    /// The basis evaluation of the layer on `input`.
    pub open spec fn basis(self, input: AnnotatedNode) -> BSplineBasis {
        BSplineBasis {
            input,
            grid: self.grid,
            grid_size: self.grid_size,
            spline_order: self.spline_order,
        }
    }

    /// The number of basis values for `input`.
    pub open spec fn basis_rows(self, input: AnnotatedNode) -> int {
        input.shape.rows * num_basis(self.grid_size as int, self.spline_order as int)
    }

    /// Whether `builder` holds the weights and the grid of a layer with these
    /// dimensions: trained weights of the right shapes and as many constants as
    /// there are knots.
    pub open spec fn belongs_to<T>(
        self,
        builder: GraphBuilder<T>,
        in_features: usize,
        out_features: usize,
    ) -> bool {
        let width = in_features * num_basis(self.grid_size as int, self.spline_order as int);
        let knots = num_knots(self.grid_size as int, self.spline_order as int);
        &&& width <= usize::MAX && knots <= usize::MAX
        &&& self.spline_weight.shape == (Shape { rows: out_features, cols: width as usize })
        &&& self.grid.shape == (Shape { rows: knots as usize, cols: 1 })
        &&& builder.ir.contains(self.spline_weight.idx)
        &&& builder.ir.data(self.spline_weight.idx) == weight_data(self.spline_weight.shape)
        &&& builder.ir.contains(self.grid.idx)
        &&& builder.ir.data(self.grid.idx) == constant_data(self.grid.shape)
        &&& self.base_weight matches Some(weight) ==> {
            &&& weight.shape == (Shape { rows: out_features, cols: in_features })
            &&& builder.ir.contains(weight.idx)
            &&& builder.ir.data(weight.idx) == weight_data(weight.shape)
        }
    }

    /// Whether `builder` holds the uniform knots between `min` and `max` as the
    /// grid of the layer.
    pub open spec fn has_grid<T: Algebra>(
        self,
        builder: GraphBuilder<T>,
        min: T,
        max: T,
    ) -> bool {
        let knots = num_knots(self.grid_size as int, self.spline_order as int);
        &&& builder.ir.contains(self.grid.idx)
        &&& builder.ir.data(self.grid.idx) == constant_data(
            Shape { rows: knots as usize, cols: 1 },
        )
        &&& builder.ir.op(self.grid.idx) matches Operation::Constant(vals) && vals@
            == uniform_knots(self.grid_size, self.spline_order, min, max)
    }

    /// Whether `after` is `before` with this layer created in it: behind the nodes and
    /// weights that were there stand those of the spline path, then those of the base
    /// path if there is one, and then the knots.
    pub open spec fn created<T: Algebra>(
        self,
        before: GraphBuilder<T>,
        after: GraphBuilder<T>,
        id: Seq<char>,
        in_features: usize,
        out_features: usize,
        grid_range: (T, T),
        with_base: bool,
    ) -> bool {
        let width = (in_features * num_basis(
            self.grid_size as int,
            self.spline_order as int,
        )) as usize;
        let knots = num_knots(self.grid_size as int, self.spline_order as int) as usize;
        let n = before.size();
        let m = before.weights@.len() as int;
        let base = if with_base {
            1int
        } else {
            0int
        };
        &&& self.belongs_to(after, in_features, out_features)
        &&& self.has_grid(after, grid_range.0, grid_range.1)
        &&& self.base_weight is Some <==> with_base
        &&& self.spline_weight == node_at(n, Shape { rows: out_features, cols: width })
        &&& with_base ==> self.base_weight == Some(
            node_at(n + 1, Shape { rows: out_features, cols: in_features }),
        )
        &&& self.grid == node_at(n + 1 + base, Shape { rows: knots, cols: 1 })
        &&& after.size() == n + 2 + base
        &&& after.ir.nodes@.take(n) == before.ir.nodes@
        &&& after.ir.nodes@[n].op == Operation::<T>::Weights
        &&& with_base ==> after.ir.nodes@[n + 1].op == Operation::<T>::Weights
        &&& after.weights@.len() == m + 1 + base
        &&& after.weights@.take(m) == before.weights@
        &&& is_normal_weight(
            after.weights@[m],
            id + "_sw"@,
            self.spline_weight,
            spline_stdev(width),
        )
        &&& with_base ==> is_normal_weight(
            after.weights@[m + 1],
            id + "_bw"@,
            self.base_weight->0,
            base_stdev(in_features),
        )
    }

    /// Whether the spline path takes `input`: the nodes are there, the basis can
    /// be evaluated on them, and the weights have a column for each basis value.
    pub open spec fn spline_path_fits<T>(
        self,
        builder: GraphBuilder<T>,
        input: AnnotatedNode,
    ) -> bool {
        &&& builder.knows(input) && builder.knows(self.grid) && builder.knows(self.spline_weight)
        &&& self.basis(input).fits()
        &&& self.basis(input).shape_in(builder.ir) is Ok
        &&& self.spline_weight.shape.cols == self.basis_rows(input)
    }

    /// Whether the layer has a base path that takes `input`: the activation
    /// leads to one column with an entry for each column of the weights, and the
    /// two paths yield the same shape.
    pub open spec fn base_path_fits<T: Scalar, F: BaseActivation<T>>(
        self,
        builder: GraphBuilder<T>,
        input: AnnotatedNode,
        activation: F,
    ) -> bool {
        self.base_weight matches Some(weight) && {
            &&& builder.knows(weight)
            &&& activation.accepts(input.shape)
            &&& activation.output(builder.size() + 2, input).shape == (Shape {
                rows: weight.shape.cols,
                cols: 1,
            })
            &&& weight.shape.rows == self.spline_weight.shape.rows
        }
    }

    /// Whether `builder` holds the spline path of the layer on `input`, with its
    /// two nodes at `at` and behind.
    pub open spec fn has_spline_path<T>(
        self,
        builder: GraphBuilder<T>,
        input: AnnotatedNode,
        at: int,
    ) -> bool {
        &&& builder.ir.nodes@[at].op == Operation::<T>::BSplineBasis(self.basis(input))
        &&& builder.ir.nodes@[at + 1].op == Operation::<T>::Matmul(
            Matmul {
                a: self.spline_weight,
                transa: false,
                b: node_at(at, Shape { rows: self.basis_rows(input) as usize, cols: 1 }),
                transb: false,
            },
        )
    }

    /// The shape of the layer's output.
    pub open spec fn output_shape(self) -> Shape {
        Shape { rows: self.spline_weight.shape.rows, cols: 1 }
    }

    /// Whether `after` is `before` with the layer applied to `input`, and `r` is
    /// the output: behind the spline path stand the nodes of the activation, the
    /// product with the base weights, and the sum of the two paths.
    pub open spec fn applied<T: Scalar, F: BaseActivation<T>>(
        self,
        before: GraphBuilder<T>,
        after: GraphBuilder<T>,
        input: AnnotatedNode,
        activation: F,
        r: AnnotatedNode,
    ) -> bool {
        let n = before.size();
        let added = activation.added(n + 2, input);
        let m = n + 2 + added.len();
        let nodes = after.ir.nodes@;
        &&& after.extends(before)
        &&& after.size() == m + 2
        &&& self.has_spline_path(after, input, n)
        &&& forall|i: int| n + 2 <= i < m ==> (#[trigger] nodes[i]).op == added[i - n - 2]
        &&& nodes[m].op == Operation::<T>::Matmul(
            Matmul {
                a: self.base_weight->0,
                transa: false,
                b: activation.output(n + 2, input),
                transb: false,
            },
        )
        &&& nodes[m + 1].op matches Operation::LinearCombination(sum) && sum.items@ == seq![
            (node_at(n + 1, self.output_shape()).idx, one::<T>()),
            (node_at(m, self.output_shape()).idx, one::<T>()),
        ] && sum.shape == self.output_shape()
        &&& r == node_at(m + 1, self.output_shape())
    }

    /// Whether `after` is `before` with the layer applied to `input` without a base
    /// path, and `r` is the output.
    pub open spec fn applied_pure<T>(
        self,
        before: GraphBuilder<T>,
        after: GraphBuilder<T>,
        input: AnnotatedNode,
        r: AnnotatedNode,
    ) -> bool {
        &&& after.extends(before)
        &&& after.size() == before.size() + 2
        &&& self.has_spline_path(after, input, before.size())
        &&& r == node_at(before.size() + 1, self.output_shape())
    }

    /// Applies the layer with its base path.
    ///
    /// `base_activation` is applied to `input` before the product with the base
    /// weights. A layer without a base path is applied by [`Self::forward_pure`].
    pub fn forward<T: Scalar, F: BaseActivation<T>>(
        self,
        builder: &mut GraphBuilder<T>,
        input: AnnotatedNode,
        base_activation: F,
    ) -> (r: AnnotatedNode)
        requires
            old(builder).wf(),
            self.spline_path_fits(*old(builder), input),
            self.base_path_fits(*old(builder), input, base_activation),
        ensures
            final(builder).wf(),
            self.applied(*old(builder), *final(builder), input, base_activation, r),
            final(builder).knows(r),
    {
        let ghost start = *builder;
        let spline_out: AnnotatedNode = self.push_spline_path(builder, input);
        let ghost after_spline = *builder;
        proof {
            after_spline.lemma_extends_knows(start, input);
        }
        let base_weight: AnnotatedNode = self.base_weight.unwrap();
        let activated: AnnotatedNode = base_activation.apply(builder, input);
        let ghost after_activation = *builder;
        proof {
            lemma_extends_transitive(start, after_spline, after_activation);
            after_activation.lemma_extends_knows(start, base_weight);
            after_activation.lemma_extends_knows(after_spline, spline_out);
        }
        let base_out: AnnotatedNode = builder.matmul(base_weight, activated);
        let ghost after_base = *builder;
        proof {
            lemma_extends_transitive(after_spline, after_activation, after_base);
            after_base.lemma_extends_knows(after_spline, spline_out);
        }
        let r: AnnotatedNode = builder.sum(spline_out, base_out);
        proof {
            let n = start.size();
            let m = after_activation.size();
            lemma_extends_transitive(after_spline, after_base, *builder);
            lemma_extends_transitive(start, after_spline, *builder);
            lemma_extends_transitive(after_activation, after_base, *builder);
            assert forall|i: int| 0 <= i < after_spline.size() implies (
            #[trigger] builder.ir.nodes@[i]) == after_spline.ir.nodes@[i] by {
                assert(builder.ir.nodes@.take(after_spline.size())[i] == builder.ir.nodes@[i]);
            }
            assert forall|i: int| 0 <= i < after_activation.size() implies (
            #[trigger] builder.ir.nodes@[i]) == after_activation.ir.nodes@[i] by {
                assert(builder.ir.nodes@.take(after_activation.size())[i] == builder.ir.nodes@[i]);
            }
            assert(builder.ir.nodes@.take(after_base.size())[m] == builder.ir.nodes@[m]);
        }
        r
    }

    /// Applies a layer that has no base path.
    pub fn forward_pure<T>(self, builder: &mut GraphBuilder<T>, input: AnnotatedNode) -> (r:
        AnnotatedNode)
        requires
            old(builder).wf(),
            self.base_weight is None,
            self.spline_path_fits(*old(builder), input),
        ensures
            final(builder).wf(),
            final(builder).extends(*old(builder)),
            final(builder).size() == old(builder).size() + 2,
            self.has_spline_path(*final(builder), input, old(builder).size()),
            r == node_at(old(builder).size() + 1, self.output_shape()),
            self.applied_pure(*old(builder), *final(builder), input, r),
            final(builder).knows(r),
    {
        self.push_spline_path(builder, input)
    }

    /// Adds the spline path.
    fn push_spline_path<T>(self, builder: &mut GraphBuilder<T>, input: AnnotatedNode) -> (r:
        AnnotatedNode)
        requires
            old(builder).wf(),
            self.spline_path_fits(*old(builder), input),
        ensures
            final(builder).wf(),
            final(builder).extends(*old(builder)),
            final(builder).size() == old(builder).size() + 2,
            self.has_spline_path(*final(builder), input, old(builder).size()),
            r == node_at(old(builder).size() + 1, self.output_shape()),
            final(builder).knows(r),
    {
        let ghost start = *builder;
        let basis: AnnotatedNode = builder.bspline_basis(
            input,
            self.grid,
            self.grid_size,
            self.spline_order,
        );
        let ghost between = *builder;
        proof {
            between.lemma_extends_knows(start, self.spline_weight);
        }
        let r: AnnotatedNode = builder.matmul(self.spline_weight, basis);
        proof {
            lemma_extends_transitive(start, between, *builder);
            assert(builder.ir.nodes@.take(between.size())[start.size()]
                == builder.ir.nodes@[start.size()]);
        }
        r
    }
}

/// The standard deviation of untrained spline weights, for `width` basis values:
/// `0.1 / sqrt(width)`.
pub open spec fn spline_stdev<T: Algebra>(width: usize) -> T {
    one::<T>().over(T::of_count(10)).over(T::of_count(width).root())
}

/// The standard deviation of untrained base weights: `sqrt(2 / in_features)`.
pub open spec fn base_stdev<T: Algebra>(in_features: usize) -> T {
    T::of_count(2).over(T::of_count(in_features)).root()
}

/// Computes the standard deviation of untrained spline weights.
pub(crate) fn spline_init<T: Scalar>(width: usize) -> (r: InitSettings<T>)
    ensures
        r == (InitSettings::Normal { mean: zero::<T>(), stdev: spline_stdev::<T>(width) }),
{
    InitSettings::Normal {
        mean: T::from_count(0),
        stdev: T::from_count(1).div(T::from_count(10)).div(T::from_count(width).sqrt()),
    }
}

/// Whether a weight has this name and node and is drawn from a normal
/// distribution around zero before training.
pub open spec fn is_normal_weight<T: Algebra>(
    weight: Weight<T>,
    name: Seq<char>,
    node: AnnotatedNode,
    stdev: T,
) -> bool {
    &&& weight.name@ == name
    &&& weight.node == node.idx
    &&& weight.init == (InitSettings::Normal { mean: zero::<T>(), stdev })
}

/// Creates a KAN layer.
///
/// - `id`: what the names of the weights begin with
/// - `in_features`, `out_features`: the dimensions of input and output
/// - `grid_size`: the number of intervals of the grid
/// - `spline_order`: the degree of the splines
/// - `grid_range`: the range of the grid, which is to match the input
/// - `with_base`: whether the layer has a base path
pub fn kan_layer<T: Scalar>(
    builder: &mut GraphBuilder<T>,
    id: &str,
    in_features: usize,
    out_features: usize,
    grid_size: usize,
    spline_order: usize,
    grid_range: (T, T),
    with_base: bool,
) -> (r: KanLayer)
    requires
        old(builder).wf(),
        !old(builder).has_weight(id@ + "_sw"@),
        with_base ==> !old(builder).has_weight(id@ + "_bw"@),
        num_knots(grid_size as int, spline_order as int) <= usize::MAX,
        in_features * num_basis(grid_size as int, spline_order as int) <= usize::MAX,
    ensures
        final(builder).wf(),
        r.belongs_to(*final(builder), in_features, out_features),
        r.has_grid(*final(builder), grid_range.0, grid_range.1),
        ({
            let width = (in_features * num_basis(grid_size as int, spline_order as int)) as usize;
            let knots = num_knots(grid_size as int, spline_order as int) as usize;
            let n = old(builder).size();
            let g = if with_base {
                n + 2
            } else {
                n + 1
            };
            let nodes = final(builder).ir.nodes@;
            &&& r.grid_size == grid_size && r.spline_order == spline_order
            &&& r.spline_weight == node_at(n, Shape { rows: out_features, cols: width })
            &&& r.base_weight == (if with_base {
                Some(node_at(n + 1, Shape { rows: out_features, cols: in_features }))
            } else {
                None
            })
            &&& r.grid == node_at(g, Shape { rows: knots, cols: 1 })
            &&& nodes.len() == g + 1
            &&& nodes.take(n) == old(builder).ir.nodes@
            &&& nodes[n] == (IrNode::<T> {
                op: Operation::Weights,
                data: weight_data(r.spline_weight.shape),
            })
            &&& r.base_weight matches Some(base) ==> nodes[n + 1] == (IrNode::<T> {
                op: Operation::Weights,
                data: weight_data(base.shape),
            })
            &&& nodes[g].op matches Operation::Constant(vals) && vals@ == uniform_knots(
                grid_size,
                spline_order,
                grid_range.0,
                grid_range.1,
            )
            &&& nodes[g].data == constant_data(r.grid.shape)
        }),
        ({
            let width = (in_features * num_basis(grid_size as int, spline_order as int)) as usize;
            let before = old(builder).weights@;
            let weights = final(builder).weights@;
            let n = before.len() as int;
            &&& weights.len() == (if with_base {
                n + 2
            } else {
                n + 1
            })
            &&& weights.take(n) == before
            &&& is_normal_weight(weights[n], id@ + "_sw"@, r.spline_weight, spline_stdev(width))
            &&& r.base_weight matches Some(base) ==> is_normal_weight(
                weights[n + 1],
                id@ + "_bw"@,
                base,
                base_stdev(in_features),
            )
        }),
        r.created(
            *old(builder),
            *final(builder),
            id@,
            in_features,
            out_features,
            grid_range,
            with_base,
        ),
{
    let ghost start = *builder;
    let width: usize = in_features * (grid_size + spline_order);
    let knots: usize = grid_size + 2 * spline_order + 1;

    let spline_name: String = id.to_string().concat("_sw");
    let spline_weight: AnnotatedNode = builder.new_weights(
        spline_name.as_str(),
        Shape::new(out_features, width),
        spline_init(width),
    );
    let ghost after_spline = *builder;

    let base_weight: Option<AnnotatedNode> = if with_base {
        let base_name: String = id.to_string().concat("_bw");
        proof {
            reveal_strlit("_sw");
            reveal_strlit("_bw");
            assert((id@ + "_sw"@)[id@.len() as int + 1] != (id@ + "_bw"@)[id@.len() as int + 1]);
            assert forall|i: int| 0 <= i < builder.weights.len() implies (
            #[trigger] builder.weights[i]).name@ != base_name@ by {
                if i < start.weights.len() {
                    assert(builder.weights@.drop_last()[i] == start.weights[i]);
                }
            }
        }
        let stdev: T = T::from_count(2).div(T::from_count(in_features)).sqrt();
        Some(
            builder.new_weights(
                base_name.as_str(),
                Shape::new(out_features, in_features),
                InitSettings::Normal { mean: T::from_count(0), stdev },
            ),
        )
    } else {
        None
    };
    let ghost after_base = *builder;

    let grid_vals: Vec<T> = make_grid(grid_size, spline_order, grid_range);
    let grid: AnnotatedNode = builder.new_constant(Shape::new(knots, 1), grid_vals);
    proof {
        let n = start.weights@.len() as int;
        assert(after_spline.weights@[n] == after_spline.weights@.last());
        assert(after_spline.weights@.take(n) =~= after_spline.weights@.drop_last());
        if with_base {
            assert(after_base.weights@.drop_last()[n] == after_base.weights@[n]);
            assert(after_base.weights@.take(n) =~= after_base.weights@.drop_last().take(n));
        }
        assert(builder.ir.nodes@.take(start.size()) =~= start.ir.nodes@);
    }
    KanLayer { spline_weight, base_weight, grid, grid_size, spline_order }
}

/// A graph that is extended twice is extended.
pub(crate) proof fn lemma_extends_transitive<T>(
    a: GraphBuilder<T>,
    b: GraphBuilder<T>,
    c: GraphBuilder<T>,
)
    requires
        b.extends(a),
        c.extends(b),
    ensures
        c.extends(a),
{
    assert(c.ir.nodes@.take(a.size()) =~= c.ir.nodes@.take(b.size()).take(a.size()));
}

} // verus!
