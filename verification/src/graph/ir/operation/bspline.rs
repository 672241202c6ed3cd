//! The operation that evaluates B-spline basis functions.

use vstd::prelude::*;

use super::util::{batch_error, check_dense_eq, check_not_batched, either, layout_error};
use crate::basis::spline::{num_basis, num_knots};
use crate::device::function::{
    BSplineBasisBwd, BSplineBasisFwd, DeviceFunction, DeviceOp, MaybeUpdateBatchSize,
};
use crate::graph::ir::{AnnotatedNode, GraphIR, GraphIRError, GraphIROperationError};
use crate::graph::{Graph, GraphNodeIdTy, NodeId};
use crate::tensor::{Shape, TensorRef};
use crate::text::{decimal, decimal_of};

verus! {

/// Evaluates all B-spline basis functions for each input feature.
///
/// - Input: `(in_features, 1)`, batched
/// - Grid: `(grid_size + 2 * spline_order + 1, 1)`, constant
/// - Output: `(in_features * (grid_size + spline_order), 1)`, batched
#[derive(Clone, Copy, Debug, PartialEq, Eq, Structural)]
pub struct BSplineBasis {
    /// The points.
    pub input: AnnotatedNode,
    /// The knots.
    pub grid: AnnotatedNode,
    /// The number of intervals that the input range is divided into.
    pub grid_size: usize,
    /// The degree of the splines.
    pub spline_order: usize,
}

impl BSplineBasis {
    /// The nodes that the operation takes.
    pub open spec fn parents(self) -> Seq<AnnotatedNode> {
        seq![self.input, self.grid]
    }

    /// Whether the sizes that the operation works out can be represented.
    pub open spec fn fits(self) -> bool {
        &&& num_knots(self.grid_size as int, self.spline_order as int) <= usize::MAX
        &&& self.input.shape.rows * num_basis(self.grid_size as int, self.spline_order as int)
            <= usize::MAX
    }

    /// The shape of the basis values, or what is wrong with the inputs.
    pub open spec fn shape_in<T>(self, ir: GraphIR<T>) -> Result<Shape, GraphIRError> {
        let knots = Shape {
            rows: num_knots(self.grid_size as int, self.spline_order as int) as usize,
            cols: 1,
        };
        match either(
            layout_error(ir, self.input, true),
            either(layout_error(ir, self.grid, true), batch_error(ir, self.grid)),
        ) {
            Some(e) => Err(e),
            None => if self.input.shape.cols != 1 {
                Err(GraphIRError::Op(GraphIROperationError::InvalidInputShape(self.input.shape)))
            } else if self.grid.shape != knots {
                Err(
                    GraphIRError::Op(
                        GraphIROperationError::MismatchedInputShapes {
                            found: self.grid.shape,
                            expected: knots,
                        },
                    ),
                )
            } else {
                Ok(
                    Shape {
                        rows: (self.input.shape.rows * num_basis(
                            self.grid_size as int,
                            self.spline_order as int,
                        )) as usize,
                        cols: 1,
                    },
                )
            },
        }
    }

    /// Lists the nodes that the operation takes.
    pub fn nodes(&self) -> (r: Vec<AnnotatedNode>)
        ensures
            r@ == self.parents(),
    {
        vec![self.input, self.grid]
    }

    /// Works out the shape of the basis values.
    pub fn output_shape<T>(&self, ir: &GraphIR<T>) -> (r: Result<Shape, GraphIRError>)
        requires
            self.fits(),
        ensures
            r == self.shape_in(*ir),
    {
        check_dense_eq(ir, &self.input, true)?;
        check_dense_eq(ir, &self.grid, true)?;
        check_not_batched(ir, &self.grid)?;

        let in_shape: Shape = self.input.shape;
        if in_shape.cols() != 1 {
            return Err(GraphIRError::Op(GraphIROperationError::InvalidInputShape(in_shape)));
        }
        let expected: Shape = Shape::new(self.grid_size + 2 * self.spline_order + 1, 1);
        if self.grid.shape != expected {
            return Err(
                GraphIRError::Op(
                    GraphIROperationError::MismatchedInputShapes {
                        found: self.grid.shape,
                        expected,
                    },
                ),
            );
        }
        Ok(Shape::new(in_shape.rows() * (self.grid_size + self.spline_order), 1))
    }

    /// The name of the operation, with its sizes.
    pub open spec fn label(self) -> Seq<char> {
        "BSplineBasis(grid="@ + decimal_of(self.grid_size as nat) + ", order="@ + decimal_of(
            self.spline_order as nat,
        ) + ")"@
    }

    /// A short description of the operation.
    pub fn shorthand(&self) -> (r: String)
        ensures
            r@ == "BSplineBasis(grid="@ + decimal_of(self.grid_size as nat) + ", order="@
                + decimal_of(self.spline_order as nat) + ")"@,
            r@ == self.label(),
    {
        String::from_str("BSplineBasis(grid=").concat(decimal(self.grid_size).as_str()).concat(
            ", order=",
        ).concat(decimal(self.spline_order).as_str()).concat(")")
    }

    /// The instructions of the forward pass, for tensors at these places.
    pub open spec fn forward_ops<T>(
        self,
        input: TensorRef,
        grid: TensorRef,
        output: TensorRef,
    ) -> Seq<DeviceOp<T>> {
        seq![
            DeviceOp::MaybeUpdateBatchSize(MaybeUpdateBatchSize { input, output }),
            DeviceOp::BSplineBasisFwd(
                BSplineBasisFwd {
                    input,
                    grid,
                    output,
                    in_features: self.input.shape.rows,
                    grid_size: self.grid_size,
                    spline_order: self.spline_order,
                },
            ),
        ]
    }

    /// The instructions of the backward pass, for tensors at these places.
    pub open spec fn backward_ops<T>(
        self,
        input: TensorRef,
        grid: TensorRef,
        output_grad: TensorRef,
        input_grad: TensorRef,
    ) -> Seq<DeviceOp<T>> {
        seq![
            DeviceOp::MaybeUpdateBatchSize(MaybeUpdateBatchSize { input, output: input_grad }),
            DeviceOp::BSplineBasisBwd(
                BSplineBasisBwd {
                    input,
                    grid,
                    output_grad,
                    input_grad,
                    in_features: self.input.shape.rows,
                    grid_size: self.grid_size,
                    spline_order: self.spline_order,
                },
            ),
        ]
    }

    /// Compiles the forward pass for the node `output_node`.
    pub fn forward_pass<T>(&self, graph: &Graph<T>, output_node: NodeId) -> (r: DeviceFunction<T>)
        requires
            graph.locate(self.input.idx, GraphNodeIdTy::Values) is Some,
            graph.locate(self.grid.idx, GraphNodeIdTy::Values) is Some,
            graph.locate(output_node, GraphNodeIdTy::Values) is Some,
        ensures
            r.ops@ == self.forward_ops::<T>(
                graph.locate(self.input.idx, GraphNodeIdTy::Values)->0,
                graph.locate(self.grid.idx, GraphNodeIdTy::Values)->0,
                graph.locate(output_node, GraphNodeIdTy::Values)->0,
            ),
    {
        let input = graph.get_ref(self.input.idx, GraphNodeIdTy::Values);
        let grid = graph.get_ref(self.grid.idx, GraphNodeIdTy::Values);
        let output = graph.get_ref(output_node, GraphNodeIdTy::Values);

        let mut func: DeviceFunction<T> = DeviceFunction::new();
        func.push(DeviceOp::MaybeUpdateBatchSize(MaybeUpdateBatchSize { input, output }));
        func.push(
            DeviceOp::BSplineBasisFwd(
                BSplineBasisFwd {
                    input,
                    grid,
                    output,
                    in_features: self.input.shape.rows(),
                    grid_size: self.grid_size,
                    spline_order: self.spline_order,
                },
            ),
        );
        func
    }

    /// Compiles the backward pass for the node `output_node`. There is nothing
    /// to do unless the input has gradients.
    pub fn backward_pass<T>(&self, graph: &Graph<T>, output_node: NodeId) -> (r: DeviceFunction<T>)
        requires
            graph.locate(self.input.idx, GraphNodeIdTy::Gradients) is Some ==> {
                &&& graph.locate(self.input.idx, GraphNodeIdTy::Values) is Some
                &&& graph.locate(self.grid.idx, GraphNodeIdTy::Values) is Some
                &&& graph.locate(output_node, GraphNodeIdTy::Gradients) is Some
            },
        ensures
            r.ops@ == match graph.locate(self.input.idx, GraphNodeIdTy::Gradients) {
                Some(input_grad) => self.backward_ops::<T>(
                    graph.locate(self.input.idx, GraphNodeIdTy::Values)->0,
                    graph.locate(self.grid.idx, GraphNodeIdTy::Values)->0,
                    graph.locate(output_node, GraphNodeIdTy::Gradients)->0,
                    input_grad,
                ),
                None => seq![],
            },
    {
        let mut func: DeviceFunction<T> = DeviceFunction::new();
        if let Some(input_grad) = graph.maybe_get_ref(self.input.idx, GraphNodeIdTy::Gradients) {
            let input = graph.get_ref(self.input.idx, GraphNodeIdTy::Values);
            let grid = graph.get_ref(self.grid.idx, GraphNodeIdTy::Values);
            let output_grad = graph.get_ref(output_node, GraphNodeIdTy::Gradients);

            func.push(
                DeviceOp::MaybeUpdateBatchSize(MaybeUpdateBatchSize { input, output: input_grad }),
            );
            func.push(
                DeviceOp::BSplineBasisBwd(
                    BSplineBasisBwd {
                        input,
                        grid,
                        output_grad,
                        input_grad,
                        in_features: self.input.shape.rows(),
                        grid_size: self.grid_size,
                        spline_order: self.spline_order,
                    },
                ),
            );
        }
        func
    }
}

} // verus!
