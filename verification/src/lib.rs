//! # thx-dsp
//!
//! Digital signal processing framework: composable DSP blocks, planar audio
//! buffers and the speaker-layout masks that describe them.

pub mod block;
pub mod buffer;
pub mod channel_mask;
pub mod common;
pub mod smooth;

pub use buffer::Buffer;
pub use channel_mask::ChannelMask;
pub use block::{BlockDescription, Error, Result};
