use stepper_arm::pin_wait::{PinWait, WaitError, WaitPhase, WaitRules, WaitStep};
use stepper_arm::pins::Level;

const ARM_RULES: WaitRules = WaitRules { timeout_ms: 500, stabilize: true, restart_clock: false, name_phase: true };
const READER_RULES: WaitRules = WaitRules { timeout_ms: 1, stabilize: false, restart_clock: true, name_phase: false };

#[test]
fn stabilizing_wait_goes_through_all_phases() {
    let mut w = PinWait::new(15, Level::High, Level::Low, ARM_RULES);
    assert_eq!(w.observe(Level::Low, 0), WaitStep::Poll);
    assert_eq!(w.observe(Level::High, 1), WaitStep::Poll);
    assert_eq!(w.phase, WaitPhase::AwaitTo);
    assert_eq!(w.observe(Level::High, 2), WaitStep::Poll);
    assert_eq!(w.observe(Level::Low, 3), WaitStep::Settle);
    assert_eq!(w.phase, WaitPhase::Stabilize);
    assert_eq!(w.observe(Level::Low, 4), WaitStep::Done);
    assert_eq!(w.phase, WaitPhase::Succeeded);
    assert_eq!(w.observe(Level::High, 999), WaitStep::Done);
}

#[test]
fn reader_wait_restarts_the_clock_and_needs_no_settling() {
    let mut w = PinWait::new(18, Level::Low, Level::High, READER_RULES);
    assert_eq!(w.observe(Level::Low, 0), WaitStep::RestartClock);
    assert_eq!(w.observe(Level::High, 0), WaitStep::Done);
}

#[test]
fn each_phase_has_its_timeout() {
    let mut a = PinWait::new(15, Level::High, Level::Low, ARM_RULES);
    assert_eq!(a.observe(Level::Low, 499), WaitStep::Poll);
    assert_eq!(a.observe(Level::Low, 500), WaitStep::Fail(WaitError::StartTimeout));
    assert_eq!(a.phase, WaitPhase::Failed(WaitError::StartTimeout));
    assert_eq!(a.observe(Level::High, 0), WaitStep::Fail(WaitError::StartTimeout));

    let mut b = PinWait::new(15, Level::High, Level::Low, ARM_RULES);
    b.observe(Level::High, 0);
    assert_eq!(b.observe(Level::High, 700), WaitStep::Fail(WaitError::ChangeTimeout));

    let mut c = PinWait::new(15, Level::High, Level::Low, ARM_RULES);
    c.observe(Level::High, 0);
    c.observe(Level::Low, 10);
    assert_eq!(c.observe(Level::High, 500), WaitStep::Fail(WaitError::StabilizeTimeout));
}

#[test]
fn reader_waits_give_one_timeout_error_for_every_phase() {
    let mut a = PinWait::new(15, Level::High, Level::Low, READER_RULES);
    assert_eq!(a.observe(Level::Low, 1), WaitStep::Fail(WaitError::Timeout));
    assert_eq!(a.phase, WaitPhase::Failed(WaitError::Timeout));
    let mut b = PinWait::new(15, Level::High, Level::Low, READER_RULES);
    assert_eq!(b.observe(Level::High, 0), WaitStep::RestartClock);
    assert_eq!(b.observe(Level::High, 0), WaitStep::Poll);
    assert_eq!(b.observe(Level::High, 1), WaitStep::Fail(WaitError::Timeout));
    let stabilizing = WaitRules { stabilize: true, ..READER_RULES };
    let mut c = PinWait::new(15, Level::High, Level::Low, stabilizing);
    c.observe(Level::High, 0);
    c.observe(Level::Low, 0);
    assert_eq!(c.observe(Level::High, 5), WaitStep::Fail(WaitError::Timeout));
}

#[test]
fn matching_level_wins_over_timeout() {
    let mut w = PinWait::new(15, Level::High, Level::Low, ARM_RULES);
    assert_eq!(w.observe(Level::High, 900), WaitStep::Poll);
    assert_eq!(w.phase, WaitPhase::AwaitTo);
}

#[test]
fn messages_of_wait_errors() {
    assert_eq!(WaitError::StartTimeout.message(), "start state timeout");
    assert_eq!(WaitError::ChangeTimeout.message(), "change state timeout");
    assert_eq!(WaitError::StabilizeTimeout.message(), "stabalize state timeout");
    assert_eq!(WaitError::Timeout.message(), "timeout");
}
