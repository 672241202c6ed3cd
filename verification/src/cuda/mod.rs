//! What is particular to graphics processors: whole layers in one kernel.

pub mod kan;
pub mod kan_kernels;
pub mod kernel;
