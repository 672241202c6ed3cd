//! The instructions that evaluate ReLU-KAN basis functions.

use vstd::prelude::*;

use crate::device::operation::relu_kan::{
    backward_fits, backward_output, forward_fits, forward_output, ReluKanOps,
};
use crate::device::OperationError;
use crate::graph::Graph;
use crate::scalar::{Algebra, Scalar};
use crate::tensor::TensorRef;
use crate::text::{decimal, decimal_of};

verus! {

/// Evaluates the basis functions at every input.
#[derive(Clone, Copy, Debug, PartialEq, Eq, Structural)]
pub struct ReluKanBasisFwd {
    /// The points.
    pub input: TensorRef,
    /// Where the supports start, and then where they end.
    pub grid: TensorRef,
    /// Where the basis values go.
    pub output: TensorRef,
    /// The number of points in one matrix of the input.
    pub in_features: usize,
    /// The number of intervals that the input range is divided into.
    pub grid_size: usize,
    /// The width of a support, in intervals.
    pub support_width: usize,
}

impl ReluKanBasisFwd {
    /// Whether input and output have the same batch size.
    pub open spec fn batches_match<T>(&self, graph: Graph<T>) -> bool {
        graph.at(self.input).batch_size == graph.at(self.output).batch_size
    }

    /// Whether the instruction can run in `graph`: its tensors are there, the
    /// output is a tensor of its own and, unless the batch sizes keep it from
    /// running, the buffers are large enough.
    pub open spec fn fits<T: Scalar>(&self, graph: Graph<T>) -> bool {
        &&& graph.contains(self.input) && graph.contains(self.grid) && graph.contains(self.output)
        &&& self.output != self.input && self.output != self.grid
        &&& self.batches_match(graph) ==> forward_fits(
            graph.at(self.input).matrices() as int,
            self.in_features as int,
            self.grid_size + self.support_width,
            graph.at(self.input).buf@,
            graph.at(self.grid).buf@,
            graph.at(self.output).buf@,
        )
    }

    /// The output after the instruction has run in `graph`.
    pub open spec fn written<T: Algebra>(&self, graph: Graph<T>) -> Seq<T> {
        forward_output(
            graph.at(self.input).matrices() * self.in_features,
            self.grid_size + self.support_width,
            graph.at(self.input).buf@,
            graph.at(self.grid).buf@,
            graph.at(self.output).buf@,
        )
    }

    /// The name of the instruction, with its sizes.
    pub open spec fn label(&self) -> Seq<char> {
        "ReluKanBasisFwd(in="@ + decimal_of(self.in_features as nat) + ", grid="@ + decimal_of(
            self.grid_size as nat,
        ) + ", k="@ + decimal_of(self.support_width as nat) + ")"@
    }

    /// The name of the instruction.
    pub fn opname(&self) -> (r: String)
        ensures
            r@ == "ReluKanBasisFwd(in="@ + decimal_of(self.in_features as nat) + ", grid="@
                + decimal_of(self.grid_size as nat) + ", k="@ + decimal_of(
                self.support_width as nat,
            ) + ")"@,
            r@ == self.label(),
    {
        String::from_str("ReluKanBasisFwd(in=").concat(decimal(self.in_features).as_str()).concat(
            ", grid=",
        ).concat(decimal(self.grid_size).as_str()).concat(", k=").concat(
            decimal(self.support_width).as_str(),
        ).concat(")")
    }

    /// Runs the instruction on the device `D`.
    pub fn execute<T: Scalar, D: ReluKanOps<T>>(&self, graph: &mut Graph<T>) -> (r: Result<
        (),
        OperationError<D::DeviceError>,
    >)
        requires
            self.fits(*old(graph)),
        ensures
            r matches Err(OperationError::MismatchedBatchSizes) <==> !self.batches_match(
                *old(graph),
            ),
            !self.batches_match(*old(graph)) ==> *final(graph) == *old(graph),
            final(graph).same_except(*old(graph), self.output),
            final(graph).at(self.output).buf@.len() == old(graph).at(self.output).buf@.len(),
            r is Ok ==> final(graph).at(self.output).buf@ == forward_output(
                old(graph).at(self.input).matrices() * self.in_features,
                self.grid_size + self.support_width,
                old(graph).at(self.input).buf@,
                old(graph).at(self.grid).buf@,
                old(graph).at(self.output).buf@,
            ),
            r is Ok ==> final(graph).at(self.output).buf@ == self.written(*old(graph)),
            self.batches_match(*old(graph)) && D::never_fails() ==> r is Ok,
    {
        let batch: Option<usize> = graph.entries[self.input.slot].tensor.batch_size;
        if batch != graph.entries[self.output.slot].tensor.batch_size {
            return Err(OperationError::MismatchedBatchSizes);
        }
        let batch_size: usize = match batch {
            Some(n) => n,
            None => 1,
        };
        let mut output: Vec<T> = Vec::new();
        std::mem::swap(&mut graph.entries[self.output.slot].tensor.buf, &mut output);
        let r = D::relu_kan_basis_fwd(
            batch_size,
            self.in_features,
            self.grid_size,
            self.support_width,
            &graph.entries[self.input.slot].tensor.buf,
            &graph.entries[self.grid.slot].tensor.buf,
            &mut output,
        );
        std::mem::swap(&mut graph.entries[self.output.slot].tensor.buf, &mut output);
        r
    }
}

/// Carries the gradient of the basis values back to the input.
#[derive(Clone, Copy, Debug, PartialEq, Eq, Structural)]
pub struct ReluKanBasisBwd {
    /// The points.
    pub input: TensorRef,
    /// Where the supports start, and then where they end.
    pub grid: TensorRef,
    /// The gradient of the basis values.
    pub output_grad: TensorRef,
    /// The gradient of the points, which is added to.
    pub input_grad: TensorRef,
    /// The number of points in one matrix of the input.
    pub in_features: usize,
    /// The number of intervals that the input range is divided into.
    pub grid_size: usize,
    /// The width of a support, in intervals.
    pub support_width: usize,
}

impl ReluKanBasisBwd {
    /// Whether the input and both gradients have the same batch size.
    pub open spec fn batches_match<T>(&self, graph: Graph<T>) -> bool {
        &&& graph.at(self.input).batch_size == graph.at(self.output_grad).batch_size
        &&& graph.at(self.input).batch_size == graph.at(self.input_grad).batch_size
    }

    /// Whether the instruction can run in `graph`: its tensors are there, the
    /// input gradient is a tensor of its own and, unless the batch sizes keep it
    /// from running, the buffers are large enough.
    pub open spec fn fits<T: Scalar>(&self, graph: Graph<T>) -> bool {
        &&& graph.contains(self.input) && graph.contains(self.grid)
        &&& graph.contains(self.output_grad) && graph.contains(self.input_grad)
        &&& self.input_grad != self.input && self.input_grad != self.grid && self.input_grad
            != self.output_grad
        &&& self.batches_match(graph) ==> backward_fits(
            graph.at(self.input).matrices() as int,
            self.in_features as int,
            self.grid_size + self.support_width,
            graph.at(self.input).buf@,
            graph.at(self.grid).buf@,
            graph.at(self.output_grad).buf@,
            graph.at(self.input_grad).buf@,
        )
    }

    /// The input gradient after the instruction has run in `graph`.
    pub open spec fn written<T: Algebra>(&self, graph: Graph<T>) -> Seq<T> {
        backward_output(
            graph.at(self.input).matrices() * self.in_features,
            self.grid_size + self.support_width,
            graph.at(self.input).buf@,
            graph.at(self.grid).buf@,
            graph.at(self.output_grad).buf@,
            graph.at(self.input_grad).buf@,
        )
    }

    /// The name of the instruction, with its sizes.
    pub open spec fn label(&self) -> Seq<char> {
        "ReluKanBasisBwd(in="@ + decimal_of(self.in_features as nat) + ", grid="@ + decimal_of(
            self.grid_size as nat,
        ) + ", k="@ + decimal_of(self.support_width as nat) + ")"@
    }

    /// The name of the instruction.
    pub fn opname(&self) -> (r: String)
        ensures
            r@ == "ReluKanBasisBwd(in="@ + decimal_of(self.in_features as nat) + ", grid="@
                + decimal_of(self.grid_size as nat) + ", k="@ + decimal_of(
                self.support_width as nat,
            ) + ")"@,
            r@ == self.label(),
    {
        String::from_str("ReluKanBasisBwd(in=").concat(decimal(self.in_features).as_str()).concat(
            ", grid=",
        ).concat(decimal(self.grid_size).as_str()).concat(", k=").concat(
            decimal(self.support_width).as_str(),
        ).concat(")")
    }

    /// Runs the instruction on the device `D`.
    pub fn execute<T: Scalar, D: ReluKanOps<T>>(&self, graph: &mut Graph<T>) -> (r: Result<
        (),
        OperationError<D::DeviceError>,
    >)
        requires
            self.fits(*old(graph)),
        ensures
            r matches Err(OperationError::MismatchedBatchSizes) <==> !self.batches_match(
                *old(graph),
            ),
            !self.batches_match(*old(graph)) ==> *final(graph) == *old(graph),
            final(graph).same_except(*old(graph), self.input_grad),
            final(graph).at(self.input_grad).buf@.len() == old(graph).at(self.input_grad).buf@.len(),
            r is Ok ==> final(graph).at(self.input_grad).buf@ == backward_output(
                old(graph).at(self.input).matrices() * self.in_features,
                self.grid_size + self.support_width,
                old(graph).at(self.input).buf@,
                old(graph).at(self.grid).buf@,
                old(graph).at(self.output_grad).buf@,
                old(graph).at(self.input_grad).buf@,
            ),
            r is Ok ==> final(graph).at(self.input_grad).buf@ == self.written(*old(graph)),
            self.batches_match(*old(graph)) && D::never_fails() ==> r is Ok,
    {
        let batch: Option<usize> = graph.entries[self.input.slot].tensor.batch_size;
        if batch != graph.entries[self.output_grad.slot].tensor.batch_size || batch
            != graph.entries[self.input_grad.slot].tensor.batch_size {
            return Err(OperationError::MismatchedBatchSizes);
        }
        let batch_size: usize = match batch {
            Some(n) => n,
            None => 1,
        };
        let mut input_grad: Vec<T> = Vec::new();
        std::mem::swap(&mut graph.entries[self.input_grad.slot].tensor.buf, &mut input_grad);
        let r = D::relu_kan_basis_bwd(
            batch_size,
            self.in_features,
            self.grid_size,
            self.support_width,
            &graph.entries[self.input.slot].tensor.buf,
            &graph.entries[self.grid.slot].tensor.buf,
            &graph.entries[self.output_grad.slot].tensor.buf,
            &mut input_grad,
        );
        std::mem::swap(&mut graph.entries[self.input_grad.slot].tensor.buf, &mut input_grad);
        r
    }
}

} // verus!
