//! The sample clock of a shared smoother.
//!
//! A smoother's ramp state lives in atomics shared between threads, so its
//! countdown is a plain `i32` ("steps left"; zero or less means settled)
//! rather than a [`RampClock`](crate::smooth::RampClock). [`tick`] decides
//! what one sample does with it.

use vstd::prelude::*;

use crate::smooth::{after_advance, step_at, RampStep};

verus! {

/// One sample of a smoother with `steps_left` samples of ramp to go: settled
/// (`<= 0`) it holds and the count stays; on the last step it lands exactly on
/// the target; otherwise it steps. Returns the step and the new count.
pub fn tick(steps_left: i32) -> (r: (RampStep, i32))
    ensures
        steps_left <= 0 ==> r == (RampStep::Hold, steps_left),
        steps_left == 1 ==> r == (RampStep::Land, 0i32),
        steps_left > 1 ==> r == (RampStep::Step, (steps_left - 1) as i32),
        steps_left > 0 ==> r.0 == step_at(steps_left as nat, 0) && r.1 == after_advance(
            steps_left as nat,
        ),
{
    if steps_left <= 0 {
        (RampStep::Hold, steps_left)
    } else if steps_left == 1 {
        (RampStep::Land, 0)
    } else {
        (RampStep::Step, steps_left - 1)
    }
}

} // verus!
