//! Buffer bookkeeping and streaming protocol for memory-mapped video capture.
//!
//! The library never talks to the device itself. Each operation hands out
//! control-channel commands one at a time and is fed the driver's reply to
//! each; the caller performs the system calls.
pub mod buffer;
pub mod protocol;
pub mod io;
