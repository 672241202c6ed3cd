//! Kolmogorov-Arnold network layers.
//!
//! Every edge of such a layer, from an input feature to an output, has an
//! activation function of its own that is a weighted sum of basis functions:
//! B-splines, or the bumps of ReLU-KAN.
//!
//! - [`basis`]: the basis functions and their slopes
//! - [`device`]: the operations that evaluate them in batches, a processor
//!   implementation, and the instructions that call them
//! - [`graph`]: computation graphs, how they are built, and how trained weights
//!   are exported
//! - [`nn`]: the layers, and the tables that stand in for them after training
//! - [`cuda`]: whole layers in one kernel
//! - [`laws`]: theorems about all of these
//!
//! Everything that computes on numbers is generic over [`scalar::Scalar`].
//! [`fixed`] has a number type for machines without floating point.

pub mod basis;
pub mod cuda;
pub mod device;
pub mod fixed;
pub mod graph;
pub mod laws;
pub mod nn;
pub mod scalar;
pub mod tensor;
pub mod text;
