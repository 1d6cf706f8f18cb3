use thx_dsp::common::params::smoother::tick;
use thx_dsp::smooth::{RampClock, RampStep};

fn take(clock: &mut RampClock, n: usize) -> Vec<RampStep> {
    (0..n).map(|_| clock.advance()).collect()
}

#[test]
fn new_clock_is_settled_and_holds() {
    let mut clock = RampClock::new();
    assert!(!clock.is_ramping());
    assert_eq!(clock.length(), 0);
    assert_eq!(take(&mut clock, 3), vec![RampStep::Hold; 3]);
}

#[test]
fn ramp_steps_then_lands_exactly_once_then_holds() {
    let mut clock = RampClock::new();
    clock.prepare(4);
    assert!(!clock.is_ramping());
    assert!(clock.start());
    assert_eq!(clock.remaining(), 4);
    assert_eq!(
        take(&mut clock, 7),
        vec![
            RampStep::Step,
            RampStep::Step,
            RampStep::Step,
            RampStep::Land,
            RampStep::Hold,
            RampStep::Hold,
            RampStep::Hold,
        ]
    );
    assert_eq!(clock.length(), 4);
}

#[test]
fn zero_length_ramp_jumps() {
    let mut clock = RampClock::new();
    clock.prepare(0);
    assert!(!clock.start());
    assert!(!clock.is_ramping());
    assert_eq!(clock.advance(), RampStep::Hold);
}

#[test]
fn one_sample_ramp_lands_immediately() {
    let mut clock = RampClock::new();
    clock.prepare(1);
    assert!(clock.start());
    assert_eq!(take(&mut clock, 2), vec![RampStep::Land, RampStep::Hold]);
}

#[test]
fn settle_ends_the_ramp() {
    let mut clock = RampClock::new();
    clock.prepare(10);
    clock.start();
    clock.advance();
    clock.settle();
    assert!(!clock.is_ramping());
    assert_eq!(clock.length(), 10);
    assert_eq!(clock.advance(), RampStep::Hold);
}

#[test]
fn restart_mid_ramp_runs_the_full_length_again() {
    let mut clock = RampClock::new();
    clock.prepare(3);
    clock.start();
    clock.advance();
    clock.start();
    assert_eq!(
        take(&mut clock, 4),
        vec![RampStep::Step, RampStep::Step, RampStep::Land, RampStep::Hold]
    );
}

#[test]
fn smoother_tick_counts_down_and_lands() {
    assert_eq!(tick(4), (RampStep::Step, 3));
    assert_eq!(tick(2), (RampStep::Step, 1));
    assert_eq!(tick(1), (RampStep::Land, 0));
    assert_eq!(tick(0), (RampStep::Hold, 0));
    assert_eq!(tick(-3), (RampStep::Hold, -3));
}

#[test]
fn smoother_tick_matches_the_ramp_clock() {
    let mut clock = RampClock::new();
    clock.prepare(5);
    clock.start();
    let mut steps: i32 = 5;
    for _ in 0..8 {
        let (step, next) = tick(steps);
        assert_eq!(step, clock.advance());
        steps = next;
        assert_eq!(steps as usize, clock.remaining());
    }
}
