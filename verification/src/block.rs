//! The DSP block model: a block author writes a config and the DSP; the
//! framework splits the block into an audio-thread processor and a
//! control-thread controller that exchange config snapshots without locking.
//!
//! Bypass is free: every block gets a click-free passthrough/processed
//! crossfade, with no author code. The [gain block](gain) is the reference.

pub mod gain;
pub mod runtime;

use vstd::prelude::*;

use crate::channel_mask::ChannelMask;

verus! {

/// The error type for block operations.
#[derive(Debug, Clone, PartialEq, Eq)]
pub enum Error {
    /// A config value was outside an acceptable range and could not be
    /// normalized.
    InvalidConfig(String),
    /// The block does not support the requested channel layout.
    UnsupportedLayout(ChannelMask),
}

/// A `Result` with the module's [`Error`] type.
pub type Result<T> = std::result::Result<T, Error>;

/// Static metadata describing a block type, for graph queries and UI layers.
#[derive(Debug, Clone)]
pub struct BlockDescription {
    /// Unique, human-readable type name.
    pub name: &'static str,
    /// One-line description.
    pub description: &'static str,
    /// The input layouts this block type accepts.
    pub input_layouts: &'static [ChannelMask],
    /// The output layouts this block type can produce across all its configs.
    pub output_layouts: &'static [ChannelMask],
}

} // verus!
