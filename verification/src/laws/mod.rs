//! Theorems about the layers.
//!
//! Where a theorem is about real numbers, it says what the computations yield
//! when nothing is rounded.
//!
//! - [`spline`], [`spline_slope`], [`spline_gradient`]: B-spline basis functions
//!   and their derivatives
//! - [`bump`], [`bump_slope`], [`bump_difference`]: ReLU-KAN basis functions and
//!   their derivatives
//! - [`spline_operation`], [`bump_operation`], [`batch`], [`execution`]: what the
//!   operations of a device, and the instructions that call them, leave in memory
//! - [`grid`], [`construction`]: knots, supports and sample points, and what layers
//!   are made of
//! - [`lut`], [`silu`], [`export`]: tables stand in for layers, what their base path
//!   holds, and what is exported
//! - [`layers`], [`applied`], [`shapes`], [`labels`]: layers in a graph, what their
//!   output stands for, what operations take and yield, and what they are called
//! - [`fusion`], [`recognition`], [`meaning`]: which layers are fused, and what this
//!   does and does not change
//! - [`kernel`], [`launch`], [`template`], [`text`]: launches and code of kernels
//! - [`derivative`], [`numbers`], [`arithmetic`], [`fixed_point`]: derivatives and
//!   arithmetic

pub mod applied;
pub mod arithmetic;
pub mod batch;
pub mod bump;
pub mod bump_difference;
pub mod bump_operation;
pub mod bump_slope;
pub mod construction;
pub mod derivative;
pub mod execution;
pub mod export;
pub mod fixed_point;
pub mod fusion;
pub mod grid;
pub mod kernel;
pub mod labels;
pub mod launch;
pub mod layers;
pub mod lut;
pub mod meaning;
pub mod numbers;
pub mod recognition;
pub mod shapes;
pub mod silu;
pub mod spline;
pub mod spline_gradient;
pub mod spline_operation;
pub mod spline_slope;
pub mod template;
pub mod text;
