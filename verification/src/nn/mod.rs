//! Layers for networks, and the tables that stand in for them when a trained
//! network is used.

pub mod activation;
pub mod grid;
pub mod kan;
pub mod kan_lut;
pub mod lut;
pub mod relu_kan;
pub mod relu_kan_lut;
