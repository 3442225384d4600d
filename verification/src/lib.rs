//! A small multiplexing transport: streams with credit-based flow control,
//! a binary frame format, and a watermark-buffered writer.

pub mod connection;
pub mod flow_control;
pub mod protocol;
pub mod stream;
pub mod task;

pub use protocol::frames;
