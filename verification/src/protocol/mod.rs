//! The wire protocol: frames and their codec.

pub mod codec;
pub mod frames;
pub mod wire;
