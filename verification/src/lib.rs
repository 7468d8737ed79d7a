//! A 2D draw-call batching library.
//!
//! The heart of the crate is the batching engine in [`quad_gl`]: it accepts a
//! stream of vertex/index submissions tagged with draw state (texture, clip,
//! viewport, transform, topology, pipeline, render target) and coalesces them
//! into an ordered list of draw calls, merging a submission into the most
//! recently opened call whenever the state matches exactly and capacity
//! remains. Merging is proved to preserve paint order and index validity.
//!
//! Floating-point vertex attributes are carried as `u32` bit patterns: the
//! engine never performs arithmetic on them, it only copies and compares, so
//! the bit pattern is the natural exact representation. The unverified shell
//! around the library converts to and from `f32` at the boundary.

pub mod color;
pub mod quad_gl;
pub mod texture;
pub mod dimen;
pub mod shape;
pub mod shapes;
