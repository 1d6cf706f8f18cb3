//! Typed, thread-safe parameters.
//!
//! A processor exposes its tweakable values as a struct of parameters shared
//! (via `Arc`) between its controller and its realtime processor half. Each
//! parameter is the crossing point of the realtime boundary: the control thread
//! writes a value, the audio thread reads it, wait-free, with no allocation or
//! locking. All parameter state is atomic, so the parameter itself *is* the
//! lock-free channel.
//!
//! Discrete parameters ([`BoolParam`]) read instantaneously.

pub mod boolean;
pub mod smoother;

pub use boolean::BoolParam;

use vstd::prelude::*;

verus! {

/// The behaviour shared by every parameter type, regardless of its value type:
/// the value type, its default, the current target, and resetting in-flight
/// smoothing. Setting a value is left to the concrete types, whose setters
/// need different inputs.
pub trait Param: Send + Sync {
    /// The plain value type the control thread sets and reads.
    type Plain: Copy;

    /// The configured default (already clamped to any valid range).
    fn default_value(&self) -> Self::Plain;

    /// The current target value (what a smoothed param is ramping toward).
    fn value(&self) -> Self::Plain;

    /// Cancel any in-flight smoothing, snapping to the current target. Control
    /// thread only. A no-op for discrete params.
    fn reset(&self);
}

} // verus!
