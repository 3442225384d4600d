//! Buffering and writing of encoded frames.

pub mod buffer;
pub mod writer;
