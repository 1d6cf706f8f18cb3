//! The sample clock of a linear parameter ramp.
//!
//! A smoothed config value ramps linearly toward a new target over a fixed
//! number of samples, one sample per advance, and lands exactly on the target
//! at the last one. [`RampClock`] is the countdown that decides, sample by
//! sample, whether the value holds, steps toward the target, or lands on it;
//! the value arithmetic itself is done by its owner.

use vstd::prelude::*;

verus! {

/// What one sample of a linear ramp does to the smoothed value.
#[derive(Debug, Clone, Copy, PartialEq, Eq, Structural)]
pub enum RampStep {
    /// No ramp in progress: the value stays where it is.
    Hold,
    /// Mid-ramp: the value moves one increment toward the target.
    Step,
    /// Last sample of the ramp: the value becomes exactly the target.
    Land,
}

/// The outcome of the `t`-th advance (counting from zero) of a ramp with
/// `remaining` samples left: steps until the last sample, which lands, then
/// holds.
pub open spec fn step_at(remaining: nat, t: nat) -> RampStep {
    if t + 1 < remaining {
        RampStep::Step
    } else if t + 1 == remaining {
        RampStep::Land
    } else {
        RampStep::Hold
    }
}

/// Samples left after one advance.
pub open spec fn after_advance(remaining: nat) -> nat {
    if remaining > 0 {
        (remaining - 1) as nat
    } else {
        0
    }
}

/// The countdown of a linear ramp: its length in samples (zero until
/// prepared) and the samples left until the value reaches its target.
#[derive(Debug, Clone, Copy)]
pub struct RampClock {
    remaining: usize,
    length: usize,
}

impl RampClock {
    /// Samples left until the value reaches its target.
    pub closed spec fn remaining_spec(&self) -> nat {
        self.remaining as nat
    }

    /// Ramp length in samples.
    pub closed spec fn length_spec(&self) -> nat {
        self.length as nat
    }

    /// A settled clock with no ramp length yet.
    pub fn new() -> (r: Self)
        ensures
            r.remaining_spec() == 0,
            r.length_spec() == 0,
    {
        RampClock { remaining: 0, length: 0 }
    }

    /// Fix the ramp length and settle.
    pub fn prepare(&mut self, length: usize)
        ensures
            final(self).length_spec() == length,
            final(self).remaining_spec() == 0,
    {
        self.length = length;
        self.remaining = 0;
    }

    /// Ramp length in samples.
    pub fn length(&self) -> (r: usize)
        ensures
            r == self.length_spec(),
    {
        self.length
    }

    /// Samples left until the value reaches its target.
    pub fn remaining(&self) -> (r: usize)
        ensures
            r == self.remaining_spec(),
    {
        self.remaining
    }

    /// Whether a ramp is in progress.
    pub fn is_ramping(&self) -> (r: bool)
        ensures
            r == (self.remaining_spec() > 0),
    {
        self.remaining > 0
    }

    /// Start a ramp toward a new target. With no ramp length the value must
    /// jump to the target at once: the clock stays settled and this returns
    /// `false`. Otherwise the full ramp length is left to go.
    pub fn start(&mut self) -> (ramps: bool)
        ensures
            ramps == (old(self).length_spec() > 0),
            final(self).length_spec() == old(self).length_spec(),
            final(self).remaining_spec() == old(self).length_spec(),
    {
        self.remaining = self.length;
        self.length > 0
    }

    /// End any ramp in progress.
    pub fn settle(&mut self)
        ensures
            final(self).length_spec() == old(self).length_spec(),
            final(self).remaining_spec() == 0,
    {
        self.remaining = 0;
    }

    /// Advance one sample.
    pub fn advance(&mut self) -> (r: RampStep)
        ensures
            r == step_at(old(self).remaining_spec(), 0),
            final(self).remaining_spec() == after_advance(old(self).remaining_spec()),
            final(self).length_spec() == old(self).length_spec(),
    {
        if self.remaining > 0 {
            self.remaining = self.remaining - 1;
            if self.remaining == 0 {
                RampStep::Land
            } else {
                RampStep::Step
            }
        } else {
            RampStep::Hold
        }
    }
}

/// Consecutive advances read the ramp off one sample at a time: the
/// `(t + 1)`-th advance from a clock is the `t`-th advance from the clock one
/// sample later. With the `ensures` of [`RampClock::advance`] this makes the
/// `t`-th advance after a start return `step_at(length, t)`.
pub proof fn lemma_advance_shifts(remaining: nat, t: nat)
    ensures
        step_at(remaining, t + 1) == step_at(after_advance(remaining), t),
{
}

/// A ramp started over `length > 0` samples steps for its first
/// `length - 1` samples, lands exactly on the target at sample `length`, and
/// holds from then on.
pub proof fn lemma_ramp_lands_once(length: nat, t: nat)
    requires
        length > 0,
    ensures
        t + 1 < length ==> step_at(length, t) == RampStep::Step,
        t + 1 == length ==> step_at(length, t) == RampStep::Land,
        t >= length ==> step_at(length, t) == RampStep::Hold,
{
}

} // verus!
