//! Descriptions of kernels and of the arguments that they are launched with.

use vstd::prelude::*;

use crate::tensor::{Shape, TensorRef};

verus! {

/// A number that depends on the batch size.
pub enum Expr {
    /// The batch size.
    Var,
    /// A number that does not depend on it.
    Const(i32),
    /// A sum.
    Add(Box<Expr>, Box<Expr>),
    /// A difference.
    Sub(Box<Expr>, Box<Expr>),
    /// A quotient without its remainder.
    Div(Box<Expr>, Box<Expr>),
    /// The smaller of two numbers.
    Min(Box<Expr>, Box<Expr>),
}

impl Expr {
    /// The number for the batch size `batch`.
    pub open spec fn value(self, batch: int) -> int
        decreases self,
    {
        match self {
            Expr::Var => batch,
            Expr::Const(c) => c as int,
            Expr::Add(a, b) => a.value(batch) + b.value(batch),
            Expr::Sub(a, b) => a.value(batch) - b.value(batch),
            Expr::Div(a, b) => a.value(batch) / b.value(batch),
            Expr::Min(a, b) => if a.value(batch) <= b.value(batch) {
                a.value(batch)
            } else {
                b.value(batch)
            },
        }
    }
}

/// One argument of a kernel.
pub enum KernelInput {
    /// A number.
    Size(Expr),
    /// A tensor.
    Slice {
        /// Where the tensor is.
        slice: TensorRef,
        /// How many entries can be nonzero if it is stored sparsely.
        layout: Option<usize>,
        /// Whether the kernel writes to it.
        mutable: bool,
        /// Whether it has one matrix per element of the batch.
        batched: bool,
        /// The shape of one matrix.
        shape: Shape,
    },
}

/// What a kernel is launched with.
pub struct KernelArgs {
    /// The arguments.
    pub inputs: Vec<KernelInput>,
    /// The numbers of blocks.
    pub grid_dim: [Expr; 3],
    /// The numbers of threads in a block.
    pub block_dim: [Expr; 3],
    /// The size of the memory that the threads of a block share.
    pub shared_mem_bytes: Expr,
}

/// A kernel.
pub struct Kernel {
    /// Its name.
    pub name: String,
    /// Its source code.
    pub code: String,
    /// What it is launched with.
    pub args: KernelArgs,
}

} // verus!
