//! The decisions of the framework runtime.
//!
//! Every block is split into an audio-thread processor and a control-thread
//! controller. Enable/reset requests cross the thread boundary through
//! atomics: the controller bumps a wrapping `u32` reset generation, and the
//! processor resets its block whenever the generation it reads differs from
//! the last one it acted on. Each processed block then takes one of three
//! routes: straight through the block, bit-exact bypass, or a crossfade
//! between the two.

use vstd::prelude::*;

verus! {

/// The route one block of audio takes through the processor.
#[derive(Debug, Clone, Copy, PartialEq, Eq, Structural)]
pub enum Route {
    /// Fully enabled: the block processes straight through.
    Processed,
    /// Fully bypassed: bit-exact passthrough, the block is skipped.
    Bypassed,
    /// In between: dry input and processed signal are mixed linearly.
    Crossfade,
}

/// Where the bypass crossfade stands: its wet weight is `1.0` (fully
/// processed), `0.0` (fully bypassed), or strictly in between.
#[derive(Debug, Clone, Copy, PartialEq, Eq, Structural)]
pub enum FadePosition {
    Wet,
    Dry,
    Between,
}

/// The route for a block: processed only when enabled with the fade fully
/// wet, bypassed only when disabled with the fade fully dry, crossfading
/// otherwise.
pub open spec fn route_spec(enabled: bool, fade: FadePosition) -> Route {
    if enabled && fade == FadePosition::Wet {
        Route::Processed
    } else if !enabled && fade == FadePosition::Dry {
        Route::Bypassed
    } else {
        Route::Crossfade
    }
}

/// The route one block takes, given the enable flag and the fade position.
pub fn route(enabled: bool, fade: FadePosition) -> (r: Route)
    ensures
        r == route_spec(enabled, fade),
{
    if enabled && fade == FadePosition::Wet {
        Route::Processed
    } else if !enabled && fade == FadePosition::Dry {
        Route::Bypassed
    } else {
        Route::Crossfade
    }
}

/// The reset generation after `requests` further reset requests starting at
/// `generation`: the counter is a wrapping `u32`.
pub open spec fn generation_after(generation: u32, requests: nat) -> u32 {
    ((generation + requests) % 0x1_0000_0000) as u32
}

/// The processor's record of the last reset generation it acted on.
pub struct ResetWatch {
    seen: u32,
}

impl ResetWatch {
    /// The last generation acted on.
    pub closed spec fn seen(&self) -> u32 {
        self.seen
    }

    /// A watch for a freshly spawned block, whose generation starts at zero.
    pub fn new() -> (r: Self)
        ensures
            r.seen() == 0,
    {
        ResetWatch { seen: 0 }
    }

    /// Compare the current `generation` with the last one acted on: the block
    /// must be reset exactly when they differ. Afterwards `generation` counts
    /// as acted on.
    pub fn observe(&mut self, generation: u32) -> (reset: bool)
        ensures
            reset == (generation != old(self).seen()),
            final(self).seen() == generation,
    {
        let reset = generation != self.seen;
        self.seen = generation;
        reset
    }
}

/// Every reset request is acted on at the next block: after between one and
/// `u32::MAX` requests since the processor last looked, the generation it
/// reads differs from the one it saw, and after none it does not.
pub proof fn lemma_reset_requests_observed(seen: u32, requests: nat)
    requires
        requests <= u32::MAX,
    ensures
        (generation_after(seen, requests) != seen) <==> (requests > 0),
{
}

} // verus!
