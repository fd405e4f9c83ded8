//! A verified Mandelbrot rasterization kernel.
//!
//! Each invocation of the kernel maps a 2D grid index to a point of the
//! complex plane, classifies that point with an escape-time test sampled at
//! 16 sub-pixel offsets, normalizes the averaged iteration count to an 8-bit
//! intensity, and packs the intensity into a linear output buffer in one of
//! two layouts (one byte per pixel, or one 32-bit word per four pixels).
//!
//! All plane coordinates are fixed-point numbers: a value `v` is stored as
//! the integer `raw` with `v == raw / 2^32` (see [`fixed`]). This keeps the
//! whole pipeline in exact integer arithmetic, so every stage carries a
//! contract that pins its result down to the mathematical formula it
//! implements.

pub mod escape;
pub mod fixed;
pub mod intensity;
pub mod kernel;
pub mod packing;
pub mod sampling;
