//! A stochastic path-tracing renderer core.
//!
//! All geometry, shading and sampling arithmetic is carried out in signed
//! 64-bit fixed-point numbers with 16 fractional bits, so that every result
//! is an exact, machine-checkable function of the inputs and of the random
//! draws that went into it.

pub mod algebra;
pub mod camera;
pub mod color;
pub mod fixed;
pub mod material;
pub mod render;
pub mod sampler;
pub mod scene;
pub mod scenes;
