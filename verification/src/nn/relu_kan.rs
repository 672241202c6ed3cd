//! KAN layers with ReLU-KAN basis functions.

use vstd::prelude::*;

use super::grid::{make_support_grid, support_ends, support_starts};
use super::kan::{is_normal_weight, lemma_extends_transitive, spline_init, spline_stdev};
use crate::graph::builder::{constant_data, node_at, weight_data, GraphBuilder};
use crate::graph::ir::operation::relu_kan::ReluKanBasis;
use crate::graph::ir::operation::{Matmul, Operation};
use crate::graph::ir::{AnnotatedNode, IrNode};
use crate::scalar::{Algebra, Scalar};
use crate::tensor::Shape;

verus! {

/// A ReLU-KAN layer: `spline_weight * basis(input, grid)`, without a base path.
#[derive(Clone, Copy, Debug)]
pub struct ReluKanLayer {
    /// The weights of the basis values.
    pub spline_weight: AnnotatedNode,
    /// Where the supports start, and then where they end.
    pub grid: AnnotatedNode,
    /// The number of intervals that the input range is divided into.
    pub grid_size: usize,
    /// The width of a support, in intervals.
    pub support_width: usize,
}

impl ReluKanLayer {
    /// The basis evaluation of the layer on `input`.
    pub open spec fn basis(self, input: AnnotatedNode) -> ReluKanBasis {
        ReluKanBasis {
            input,
            grid: self.grid,
            grid_size: self.grid_size,
            support_width: self.support_width,
        }
    }

    /// The number of basis values for `input`.
    pub open spec fn basis_rows(self, input: AnnotatedNode) -> int {
        input.shape.rows * (self.grid_size + self.support_width)
    }

    /// Whether `builder` holds the weights and the grid of a layer with these
    /// dimensions.
    pub open spec fn belongs_to<T>(
        self,
        builder: GraphBuilder<T>,
        in_features: usize,
        out_features: usize,
    ) -> bool {
        let width = in_features * (self.grid_size + self.support_width);
        let bounds = 2 * (self.grid_size + self.support_width);
        &&& width <= usize::MAX && bounds <= usize::MAX
        &&& self.spline_weight.shape == (Shape { rows: out_features, cols: width as usize })
        &&& self.grid.shape == (Shape { rows: bounds as usize, cols: 1 })
        &&& builder.ir.contains(self.spline_weight.idx)
        &&& builder.ir.data(self.spline_weight.idx) == weight_data(self.spline_weight.shape)
        &&& builder.ir.contains(self.grid.idx)
        &&& builder.ir.data(self.grid.idx) == constant_data(self.grid.shape)
    }

    /// Whether `builder` holds the supports for the domain from `min` to `max` as the
    /// grid of the layer: the starts, and then the ends.
    pub open spec fn has_grid<T: Algebra>(
        self,
        builder: GraphBuilder<T>,
        min: T,
        max: T,
    ) -> bool {
        let bounds = 2 * (self.grid_size + self.support_width);
        &&& builder.ir.contains(self.grid.idx)
        &&& builder.ir.data(self.grid.idx) == constant_data(
            Shape { rows: bounds as usize, cols: 1 },
        )
        &&& builder.ir.op(self.grid.idx) matches Operation::Constant(vals) && vals@
            == support_starts(self.grid_size, self.support_width, min, max) + support_ends(
            self.grid_size,
            self.support_width,
            min,
            max,
        )
    }

    /// Whether `after` is `before` with this layer created in it: behind the nodes and
    /// weights that were there stand its weights, and then its grid.
    pub open spec fn created<T: Algebra>(
        self,
        before: GraphBuilder<T>,
        after: GraphBuilder<T>,
        id: Seq<char>,
        in_features: usize,
        out_features: usize,
        grid_range: (T, T),
    ) -> bool {
        let width = (in_features * (self.grid_size + self.support_width)) as usize;
        let bounds = (2 * (self.grid_size + self.support_width)) as usize;
        let n = before.size();
        &&& self.belongs_to(after, in_features, out_features)
        &&& self.has_grid(after, grid_range.0, grid_range.1)
        &&& self.spline_weight == node_at(n, Shape { rows: out_features, cols: width })
        &&& self.grid == node_at(n + 1, Shape { rows: bounds, cols: 1 })
        &&& after.size() == n + 2
        &&& after.ir.nodes@.take(n) == before.ir.nodes@
        &&& after.ir.nodes@[n].op == Operation::<T>::Weights
        &&& after.weights@.len() == before.weights@.len() + 1
        &&& after.weights@.drop_last() == before.weights@
        &&& is_normal_weight(
            after.weights@.last(),
            id + "_sw"@,
            self.spline_weight,
            spline_stdev(width),
        )
    }

    /// Whether the layer takes `input`: the nodes are there, the basis can be
    /// evaluated on them, and the weights have a column for each basis value.
    pub open spec fn takes<T>(self, builder: GraphBuilder<T>, input: AnnotatedNode) -> bool {
        &&& builder.knows(input) && builder.knows(self.grid) && builder.knows(self.spline_weight)
        &&& self.basis(input).fits()
        &&& self.basis(input).shape_in(builder.ir) is Ok
        &&& self.spline_weight.shape.cols == self.basis_rows(input)
    }

    /// Whether `after` is `before` with the layer applied to `input`, and `r` is the
    /// output.
    pub open spec fn applied<T>(
        self,
        before: GraphBuilder<T>,
        after: GraphBuilder<T>,
        input: AnnotatedNode,
        r: AnnotatedNode,
    ) -> bool {
        let n = before.size();
        &&& after.extends(before)
        &&& after.size() == n + 2
        &&& after.ir.nodes@[n].op == Operation::<T>::ReluKanBasis(self.basis(input))
        &&& after.ir.nodes@[n + 1].op == Operation::<T>::Matmul(
            Matmul {
                a: self.spline_weight,
                transa: false,
                b: node_at(n, Shape { rows: self.basis_rows(input) as usize, cols: 1 }),
                transb: false,
            },
        )
        &&& r == node_at(n + 1, Shape { rows: self.spline_weight.shape.rows, cols: 1 })
    }

    /// Applies the layer.
    pub fn forward<T>(self, builder: &mut GraphBuilder<T>, input: AnnotatedNode) -> (r:
        AnnotatedNode)
        requires
            old(builder).wf(),
            self.takes(*old(builder), input),
        ensures
            final(builder).wf(),
            final(builder).extends(*old(builder)),
            final(builder).size() == old(builder).size() + 2,
            final(builder).ir.nodes@[old(builder).size()].op == Operation::<T>::ReluKanBasis(
                self.basis(input),
            ),
            final(builder).ir.nodes@[old(builder).size() + 1].op == Operation::<T>::Matmul(
                Matmul {
                    a: self.spline_weight,
                    transa: false,
                    b: node_at(
                        old(builder).size(),
                        Shape { rows: self.basis_rows(input) as usize, cols: 1 },
                    ),
                    transb: false,
                },
            ),
            r == node_at(
                old(builder).size() + 1,
                Shape { rows: self.spline_weight.shape.rows, cols: 1 },
            ),
            self.applied(*old(builder), *final(builder), input, r),
            final(builder).knows(r),
    {
        let ghost start = *builder;
        let basis: AnnotatedNode = builder.relu_kan_basis(
            input,
            self.grid,
            self.grid_size,
            self.support_width,
        );
        let ghost between = *builder;
        proof {
            between.lemma_extends_knows(start, self.spline_weight);
        }
        let r: AnnotatedNode = builder.matmul(self.spline_weight, basis);
        proof {
            lemma_extends_transitive(start, between, *builder);
            assert(builder.ir.nodes@.take(between.size())[start.size()]
                == builder.ir.nodes@[start.size()]);
        }
        r
    }
}

/// Creates a ReLU-KAN layer.
///
/// - `id`: what the name of the weights begins with
/// - `in_features`, `out_features`: the dimensions of input and output
/// - `grid_size`: the number of intervals of the grid
/// - `support_width`: the width of a support, in intervals
/// - `grid_range`: the input domain
pub fn relu_kan_layer<T: Scalar>(
    builder: &mut GraphBuilder<T>,
    id: &str,
    in_features: usize,
    out_features: usize,
    grid_size: usize,
    support_width: usize,
    grid_range: (T, T),
) -> (r: ReluKanLayer)
    requires
        old(builder).wf(),
        !old(builder).has_weight(id@ + "_sw"@),
        2 * (grid_size + support_width) <= usize::MAX,
        in_features * (grid_size + support_width) <= usize::MAX,
    ensures
        final(builder).wf(),
        r.belongs_to(*final(builder), in_features, out_features),
        r.has_grid(*final(builder), grid_range.0, grid_range.1),
        ({
            let width = (in_features * (grid_size + support_width)) as usize;
            let bounds = (2 * (grid_size + support_width)) as usize;
            let n = old(builder).size();
            let nodes = final(builder).ir.nodes@;
            let before = old(builder).weights@;
            let weights = final(builder).weights@;
            &&& r.grid_size == grid_size && r.support_width == support_width
            &&& r.spline_weight == node_at(n, Shape { rows: out_features, cols: width })
            &&& r.grid == node_at(n + 1, Shape { rows: bounds, cols: 1 })
            &&& nodes.len() == n + 2
            &&& nodes.take(n) == old(builder).ir.nodes@
            &&& nodes[n] == (IrNode::<T> {
                op: Operation::Weights,
                data: weight_data(r.spline_weight.shape),
            })
            &&& nodes[n + 1].op matches Operation::Constant(vals) && vals@ == support_starts(
                grid_size,
                support_width,
                grid_range.0,
                grid_range.1,
            ) + support_ends(grid_size, support_width, grid_range.0, grid_range.1)
            &&& nodes[n + 1].data == constant_data(r.grid.shape)
            &&& weights.len() == before.len() + 1
            &&& weights.drop_last() == before
            &&& is_normal_weight(
                weights.last(),
                id@ + "_sw"@,
                r.spline_weight,
                spline_stdev(width),
            )
        }),
        r.created(*old(builder), *final(builder), id@, in_features, out_features, grid_range),
{
    let ghost start = *builder;
    let count: usize = grid_size + support_width;
    let width: usize = in_features * count;
    let spline_name: String = id.to_string().concat("_sw");
    let spline_weight: AnnotatedNode = builder.new_weights(
        spline_name.as_str(),
        Shape::new(out_features, width),
        spline_init(width),
    );
    let grid_vals: Vec<T> = make_support_grid(grid_size, support_width, grid_range);
    let grid: AnnotatedNode = builder.new_constant(Shape::new(2 * count, 1), grid_vals);
    assert(builder.ir.nodes@.take(start.size()) =~= start.ir.nodes@);
    ReluKanLayer { spline_weight, grid, grid_size, support_width }
}

} // verus!
