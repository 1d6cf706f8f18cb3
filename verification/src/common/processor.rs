//! The control half of a DSP block.
//!
//! Constructing a block yields two halves: the realtime processor, moved to
//! the audio thread, whose only live operation is `process`; and the
//! [`Controller`], kept on a control/UI thread, whose operations may do heavy
//! work and must never run on the audio thread. The two communicate through
//! shared, lock-free [parameters](crate::common::params).

use vstd::prelude::*;

verus! {

/// The control half of a DSP block: the off-thread handle that reconfigures the
/// running processor through their shared, lock-free parameters.
///
/// Every method here may do heavy work (allocation, recomputation) and must
/// **never** be called from the audio thread.
pub trait Controller: Send {
    /// User-facing configuration; matches the configuration of the paired
    /// processor.
    type Config: Clone + Send;

    /// Reconfigure from a new `config`. The change is published to the running
    /// processor through the shared parameters and (for smoothed parameters)
    /// ramps in rather than jumping. Heavy: control thread only.
    fn update(&mut self, config: &Self::Config);

    /// Cancel any in-flight parameter smoothing, snapping values to their
    /// current targets. Heavy: control thread only.
    fn reset(&mut self);
}

} // verus!
