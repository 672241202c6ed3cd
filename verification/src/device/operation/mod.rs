//! The operations that a device offers.

pub mod bspline;
pub mod relu_kan;

pub use bspline::BSplineOps;
pub use relu_kan::ReluKanOps;
