//! Streaming I/O.
pub mod arena;
pub mod mmap;
