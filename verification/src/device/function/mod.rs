//! Instructions for a device.

pub mod bspline;
pub mod relu_kan;

pub use bspline::{BSplineBasisBwd, BSplineBasisFwd};
pub use relu_kan::{ReluKanBasisBwd, ReluKanBasisFwd};

use vstd::prelude::*;

use crate::cuda::kernel::Kernel;
use crate::tensor::{Shape, TensorRef};

verus! {

/// Gives the output the batch size of the input.
#[derive(Clone, Copy, Debug, PartialEq, Eq, Structural)]
pub struct MaybeUpdateBatchSize {
    /// The tensor whose batch size is taken.
    pub input: TensorRef,
    /// The tensor that gets it.
    pub output: TensorRef,
}

/// Which factors of a product are batched, and whether the products are added up
/// over the batch.
#[derive(Clone, Copy, Debug, PartialEq, Eq, Structural)]
pub enum MatmulType {
    /// Neither factor is batched.
    NobNob,
    /// The right factor is batched.
    NobBat,
    /// Both factors are batched.
    BatBat,
    /// Both factors are batched, and the products are added up.
    BatBatRed,
}

/// The product `alpha * a * b + beta * c`.
#[derive(Debug)]
pub struct GemmConfig<T> {
    /// What the product is scaled by.
    pub alpha: T,
    /// What the previous content of the output is scaled by.
    pub beta: T,
    /// The shape of the left factor.
    pub shape_a: Shape,
    /// Whether the left factor is transposed.
    pub trans_a: bool,
    /// The shape of the right factor.
    pub shape_b: Shape,
    /// Whether the right factor is transposed.
    pub trans_b: bool,
}

/// Multiplies two tensors.
#[derive(Debug)]
pub struct Matmul<T> {
    /// Scaling and shapes.
    pub cfg: GemmConfig<T>,
    /// The left factor.
    pub input_a: TensorRef,
    /// The right factor.
    pub input_b: TensorRef,
    /// Where the product goes.
    pub output: TensorRef,
    /// How batches are treated.
    pub ty: MatmulType,
}

/// One instruction.
pub enum DeviceOp<T> {
    /// Sets a batch size.
    MaybeUpdateBatchSize(MaybeUpdateBatchSize),
    /// Evaluates B-spline basis functions.
    BSplineBasisFwd(BSplineBasisFwd),
    /// Carries gradients back through B-spline basis functions.
    BSplineBasisBwd(BSplineBasisBwd),
    /// Evaluates ReLU-KAN basis functions.
    ReluKanBasisFwd(ReluKanBasisFwd),
    /// Carries gradients back through ReLU-KAN basis functions.
    ReluKanBasisBwd(ReluKanBasisBwd),
    /// Multiplies matrices.
    Matmul(Matmul<T>),
    /// Launches a kernel.
    Kernel(Kernel),
}

/// Instructions that are carried out one after the other.
pub struct DeviceFunction<T> {
    /// The instructions.
    pub ops: Vec<DeviceOp<T>>,
}

impl<T> DeviceFunction<T> {
    /// No instructions.
    pub fn new() -> (r: Self)
        ensures
            r.ops@ == Seq::<DeviceOp<T>>::empty(),
    {
        DeviceFunction { ops: Vec::new() }
    }

    /// Appends an instruction.
    pub fn push(&mut self, op: DeviceOp<T>)
        ensures
            final(self).ops@ == old(self).ops@.push(op),
    {
        self.ops.push(op);
    }
}

} // verus!
