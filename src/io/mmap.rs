//! Memory-mapped buffers.
pub mod arena;
pub mod stream;
