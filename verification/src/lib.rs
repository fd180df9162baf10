//! A deterministic, non-cryptographic pseudo-random number generator: a
//! 128-bit stateful word source together with derived samplers for booleans,
//! bounded and ranged integers, float bit patterns, and byte buffers.

pub mod engine;
pub mod entropy;
pub mod fill;
pub mod float_bits;
pub mod sample;
pub mod seed;

pub use engine::Rng;
