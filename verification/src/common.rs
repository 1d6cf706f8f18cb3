//! Shared framework code that every processor builds on: the [`Controller`]
//! half of the processor/controller pair, planar buffer views, and typed
//! parameters.

pub mod buffer;
pub mod params;
pub mod processor;
pub mod testing;

pub use crate::channel_mask::ChannelMask;
pub use buffer::Buffer;
pub use params::{BoolParam, Param};
pub use processor::Controller;
