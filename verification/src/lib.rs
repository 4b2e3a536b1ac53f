//! Escape-time rendering of the Mandelbrot set over a pixel grid.
//!
//! The complex plane is modelled with exact fixed-point arithmetic: a
//! coordinate is a signed integer count of 1/65536 steps.  On top of that sit
//! the escape-time evaluator, the pixel-to-plane mapping, the grid sampler and
//! the colour quantization, each with a full functional contract.  Producing a
//! PNG from the rendered byte buffer is left to unverified callers.

pub mod color;
pub mod complex;
pub mod escape;
pub mod mapping;
pub mod render;
