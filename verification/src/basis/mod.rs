//! The basis functions of the two kinds of layer.

pub mod bump;
pub mod spline;
