//! Waiting for a pin to change: first the pin must show the level it starts
//! from, then the level it changes to, and, where the rules ask for it, show
//! that level again after a short settling pause. Each phase gives up once
//! the clock shows the timeout.

use vstd::prelude::*;

verus! {

use crate::pins::Level;

/// Why a wait gave up.
#[derive(Clone, Copy, Debug, PartialEq, Eq, Structural)]
pub enum WaitError {
    /// The pin never showed the level it was to start from.
    StartTimeout,
    /// The pin never changed to the level it was to reach.
    ChangeTimeout,
    /// The pin did not keep the level it reached.
    StabilizeTimeout,
    /// Some phase of a wait that does not name its phases timed out.
    Timeout,
}

impl WaitError {
    /// The message for this error.
    pub fn message(&self) -> (text: &'static str)
        ensures
            *self == WaitError::StartTimeout ==> text@ == "start state timeout"@,
            *self == WaitError::ChangeTimeout ==> text@ == "change state timeout"@,
            *self == WaitError::StabilizeTimeout ==> text@ == "stabalize state timeout"@,
            *self == WaitError::Timeout ==> text@ == "timeout"@,
    {
        match self {
            WaitError::StartTimeout => "start state timeout",
            WaitError::ChangeTimeout => "change state timeout",
            WaitError::StabilizeTimeout => "stabalize state timeout",
            WaitError::Timeout => "timeout",
        }
    }
}

/// How a wait is run.
#[derive(Clone, Copy, Debug, PartialEq, Eq, Structural)]
pub struct WaitRules {
    /// A phase gives up when the clock shows this many milliseconds.
    pub timeout_ms: u32,
    /// After the change, pause and check the new level once more.
    pub stabilize: bool,
    /// Start the clock again when the pin has shown its starting level.
    pub restart_clock: bool,
    /// A timeout says which phase gave up; otherwise every timeout is the
    /// same `Timeout`.
    pub name_phase: bool,
}

/// The error a wait under `rules` gives when phase error `e` occurs.
pub open spec fn timeout_error(rules: WaitRules, e: WaitError) -> WaitError {
    if rules.name_phase {
        e
    } else {
        WaitError::Timeout
    }
}

/// The error a wait under `rules` gives when phase error `e` occurs.
pub fn phase_timeout(rules: &WaitRules, e: WaitError) -> (err: WaitError)
    ensures
        err == timeout_error(*rules, e),
{
    if rules.name_phase {
        e
    } else {
        WaitError::Timeout
    }
}

/// Where a wait stands.
#[derive(Clone, Copy, Debug, PartialEq, Eq, Structural)]
pub enum WaitPhase {
    AwaitFrom,
    AwaitTo,
    Stabilize,
    Succeeded,
    Failed(WaitError),
}

/// What the caller does after one observation.
#[derive(Clone, Copy, Debug, PartialEq, Eq, Structural)]
pub enum WaitStep {
    /// Read the pin again.
    Poll,
    /// Start the clock again, then read the pin again.
    RestartClock,
    /// Pause for the settling time, then read the pin again.
    Settle,
    /// The pin made the change.
    Done,
    /// The wait gave up.
    Fail(WaitError),
}

/// A wait for `pin` to change from `from` to `to`.
#[derive(Clone, Copy, Debug, PartialEq, Eq, Structural)]
pub struct PinWait {
    pub pin: u8,
    pub from: Level,
    pub to: Level,
    pub rules: WaitRules,
    pub phase: WaitPhase,
}

/// The phase and the step after the pin was read at `level` with the clock
/// showing `elapsed_ms`.
pub open spec fn wait_transition(w: PinWait, level: Level, elapsed_ms: u32) -> (WaitPhase, WaitStep) {
    let timed_out = elapsed_ms >= w.rules.timeout_ms;
    match w.phase {
        WaitPhase::AwaitFrom => if level == w.from {
            (WaitPhase::AwaitTo, if w.rules.restart_clock { WaitStep::RestartClock } else { WaitStep::Poll })
        } else if timed_out {
            (
                WaitPhase::Failed(timeout_error(w.rules, WaitError::StartTimeout)),
                WaitStep::Fail(timeout_error(w.rules, WaitError::StartTimeout)),
            )
        } else {
            (WaitPhase::AwaitFrom, WaitStep::Poll)
        },
        WaitPhase::AwaitTo => if level == w.to {
            if w.rules.stabilize {
                (WaitPhase::Stabilize, WaitStep::Settle)
            } else {
                (WaitPhase::Succeeded, WaitStep::Done)
            }
        } else if timed_out {
            (
                WaitPhase::Failed(timeout_error(w.rules, WaitError::ChangeTimeout)),
                WaitStep::Fail(timeout_error(w.rules, WaitError::ChangeTimeout)),
            )
        } else {
            (WaitPhase::AwaitTo, WaitStep::Poll)
        },
        WaitPhase::Stabilize => if level == w.to {
            (WaitPhase::Succeeded, WaitStep::Done)
        } else if timed_out {
            (
                WaitPhase::Failed(timeout_error(w.rules, WaitError::StabilizeTimeout)),
                WaitStep::Fail(timeout_error(w.rules, WaitError::StabilizeTimeout)),
            )
        } else {
            (WaitPhase::Stabilize, WaitStep::Poll)
        },
        WaitPhase::Succeeded => (WaitPhase::Succeeded, WaitStep::Done),
        WaitPhase::Failed(e) => (WaitPhase::Failed(e), WaitStep::Fail(e)),
    }
}

impl PinWait {
    /// A wait that has not yet seen the pin.
    pub fn new(pin: u8, from: Level, to: Level, rules: WaitRules) -> (w: PinWait)
        ensures
            w == (PinWait { pin, from, to, rules, phase: WaitPhase::AwaitFrom }),
    {
        PinWait { pin, from, to, rules, phase: WaitPhase::AwaitFrom }
    }

    /// Takes in one reading of the pin, with the clock at `elapsed_ms`, and
    /// says what to do next.
    pub fn observe(&mut self, level: Level, elapsed_ms: u32) -> (step: WaitStep)
        ensures
            (final(self).phase, step) == wait_transition(*old(self), level, elapsed_ms),
            final(self).pin == old(self).pin,
            final(self).from == old(self).from,
            final(self).to == old(self).to,
            final(self).rules == old(self).rules,
            old(self).phase == WaitPhase::AwaitFrom && level != old(self).from ==> {
                ||| final(self).phase == WaitPhase::AwaitFrom && step == WaitStep::Poll
                ||| final(self).phase is Failed && step is Fail
            },
            old(self).phase == WaitPhase::AwaitFrom && level == old(self).from ==> final(self).phase
                == WaitPhase::AwaitTo,
            final(self).phase == WaitPhase::Succeeded ==> step == WaitStep::Done,
    {
        proof {
            lemma_start_level_first(*self, level, elapsed_ms);
        }
        let timed_out = elapsed_ms >= self.rules.timeout_ms;
        match self.phase {
            WaitPhase::AwaitFrom => {
                if level == self.from {
                    self.phase = WaitPhase::AwaitTo;
                    if self.rules.restart_clock {
                        WaitStep::RestartClock
                    } else {
                        WaitStep::Poll
                    }
                } else if timed_out {
                    let e = phase_timeout(&self.rules, WaitError::StartTimeout);
                    self.phase = WaitPhase::Failed(e);
                    WaitStep::Fail(e)
                } else {
                    WaitStep::Poll
                }
            },
            WaitPhase::AwaitTo => {
                if level == self.to {
                    if self.rules.stabilize {
                        self.phase = WaitPhase::Stabilize;
                        WaitStep::Settle
                    } else {
                        self.phase = WaitPhase::Succeeded;
                        WaitStep::Done
                    }
                } else if timed_out {
                    let e = phase_timeout(&self.rules, WaitError::ChangeTimeout);
                    self.phase = WaitPhase::Failed(e);
                    WaitStep::Fail(e)
                } else {
                    WaitStep::Poll
                }
            },
            WaitPhase::Stabilize => {
                if level == self.to {
                    self.phase = WaitPhase::Succeeded;
                    WaitStep::Done
                } else if timed_out {
                    let e = phase_timeout(&self.rules, WaitError::StabilizeTimeout);
                    self.phase = WaitPhase::Failed(e);
                    WaitStep::Fail(e)
                } else {
                    WaitStep::Poll
                }
            },
            WaitPhase::Succeeded => WaitStep::Done,
            WaitPhase::Failed(e) => WaitStep::Fail(e),
        }
    }
}

/// The wait after taking in `readings` in order, each a level and the clock
/// at that reading.
pub open spec fn replay_wait(w: PinWait, readings: Seq<(Level, u32)>) -> PinWait
    decreases readings.len(),
{
    if readings.len() == 0 {
        w
    } else {
        let prev = replay_wait(w, readings.drop_last());
        let r = readings.last();
        PinWait { phase: wait_transition(prev, r.0, r.1).0, ..prev }
    }
}

/// A wait never gives up while the clock is below the timeout: until then,
/// a wait that has not failed does not fail.
pub proof fn lemma_no_early_timeout(w: PinWait, level: Level, elapsed_ms: u32)
    requires
        elapsed_ms < w.rules.timeout_ms,
        !(w.phase is Failed),
    ensures
        !(wait_transition(w, level, elapsed_ms).0 is Failed),
        !(wait_transition(w, level, elapsed_ms).1 is Fail),
{
}

/// A wait whose rules do not name its phases gives the one `Timeout` error
/// whichever phase gave up.
pub proof fn lemma_unnamed_timeouts(w: PinWait, level: Level, elapsed_ms: u32)
    requires
        !w.rules.name_phase,
        !(w.phase is Failed),
    ensures
        wait_transition(w, level, elapsed_ms).1 matches WaitStep::Fail(e) ==> e == WaitError::Timeout,
        wait_transition(w, level, elapsed_ms).0 matches WaitPhase::Failed(e) ==> e
            == WaitError::Timeout,
{
}

/// A wait succeeds only through the change: it reaches `Succeeded` only from
/// a phase that had already seen the starting level, on a reading of the
/// target level.
pub proof fn lemma_success_needs_change(w: PinWait, level: Level, elapsed_ms: u32)
    requires
        !(w.phase is Succeeded),
        wait_transition(w, level, elapsed_ms).0 is Succeeded,
    ensures
        level == w.to,
        w.phase is AwaitTo || w.phase is Stabilize,
        w.phase is AwaitTo ==> !w.rules.stabilize,
{
}

/// A fresh wait that reads the starting level and then the target level
/// (twice when it stabilizes) succeeds, whatever the clock shows.
pub proof fn lemma_clean_change_succeeds(w: PinWait, t0: u32, t1: u32, t2: u32)
    requires
        w.phase == WaitPhase::AwaitFrom,
    ensures
        !w.rules.stabilize ==> replay_wait(w, seq![(w.from, t0), (w.to, t1)]).phase
            == WaitPhase::Succeeded,
        w.rules.stabilize ==> replay_wait(w, seq![(w.from, t0), (w.to, t1), (w.to, t2)]).phase
            == WaitPhase::Succeeded,
{
    let two = seq![(w.from, t0), (w.to, t1)];
    let three = seq![(w.from, t0), (w.to, t1), (w.to, t2)];
    assert(two.drop_last() =~= seq![(w.from, t0)]);
    assert(seq![(w.from, t0)].drop_last() =~= Seq::<(Level, u32)>::empty());
    assert(three.drop_last() =~= two);
    reveal_with_fuel(replay_wait, 4);
}

/// A wait that has not seen its starting level stays waiting for it: a
/// reading of any other level either leaves it waiting (and asks for another
/// reading) or, past the timeout, fails it; it never moves on towards the
/// change. A reading of the starting level moves it on to wait for the
/// target level.
pub proof fn lemma_start_level_first(w: PinWait, level: Level, elapsed_ms: u32)
    ensures
        w.phase == WaitPhase::AwaitFrom && level != w.from ==> (wait_transition(
            w,
            level,
            elapsed_ms,
        ).0 == WaitPhase::AwaitFrom && wait_transition(w, level, elapsed_ms).1 == WaitStep::Poll)
            || (wait_transition(w, level, elapsed_ms).0 is Failed && wait_transition(
            w,
            level,
            elapsed_ms,
        ).1 is Fail),
        w.phase == WaitPhase::AwaitFrom && level == w.from ==> wait_transition(
            w,
            level,
            elapsed_ms,
        ).0 == WaitPhase::AwaitTo,
        wait_transition(w, level, elapsed_ms).0 == WaitPhase::Succeeded ==> wait_transition(
            w,
            level,
            elapsed_ms,
        ).1 == WaitStep::Done,
{
}

/// Over any readings, a fresh wait that ends in `Succeeded` read its
/// starting level at some point, and later read its target level; a wait that
/// has moved past its first phase read its starting level. A wait that never
/// reads the starting level therefore never reports the change.
pub proof fn lemma_success_needs_start_then_target(w: PinWait, readings: Seq<(Level, u32)>)
    requires
        w.phase == WaitPhase::AwaitFrom,
    ensures
        (replay_wait(w, readings).phase is AwaitTo || replay_wait(w, readings).phase is Stabilize
            || replay_wait(w, readings).phase is Succeeded) ==> exists|i: int|
            0 <= i < readings.len() && #[trigger] readings[i].0 == w.from,
        replay_wait(w, readings).phase is Succeeded ==> exists|i: int, j: int|
            0 <= i < j < readings.len() && #[trigger] readings[i].0 == w.from && #[trigger] readings[j].0
                == w.to,
        (forall|i: int| 0 <= i < readings.len() ==> #[trigger] readings[i].0 != w.from) ==> !(
        replay_wait(w, readings).phase is Succeeded),
    decreases readings.len(),
{
    lemma_replay_keeps_wait(w, readings);
    if readings.len() > 0 {
        let rest = readings.drop_last();
        lemma_success_needs_start_then_target(w, rest);
        lemma_replay_keeps_wait(w, rest);
        let prev = replay_wait(w, rest);
        let r = readings.last();
        let n = readings.len() - 1;
        assert(readings[n] == r);
        assert forall|i: int| 0 <= i < rest.len() implies rest[i] == readings[i] by {}
        if prev.phase is AwaitTo || prev.phase is Stabilize || prev.phase is Succeeded {
            let i = choose|i: int| 0 <= i < rest.len() && #[trigger] rest[i].0 == w.from;
            assert(readings[i].0 == w.from);
            if prev.phase is Succeeded {
                let (i2, j2) = choose|i2: int, j2: int|
                    0 <= i2 < j2 < rest.len() && #[trigger] rest[i2].0 == w.from
                        && #[trigger] rest[j2].0 == w.to;
                assert(readings[i2].0 == w.from && readings[j2].0 == w.to);
            } else if replay_wait(w, readings).phase is Succeeded {
                assert(r.0 == w.to);
                assert(readings[i].0 == w.from && readings[n].0 == w.to);
            }
        } else if prev.phase is AwaitFrom {
            if replay_wait(w, readings).phase is AwaitTo {
                assert(readings[n].0 == w.from);
            }
        }
        if forall|i: int| 0 <= i < readings.len() ==> #[trigger] readings[i].0 != w.from {
            assert forall|i: int| 0 <= i < rest.len() implies #[trigger] rest[i].0 != w.from by {
                assert(readings[i].0 != w.from);
            }
        }
    }
}

proof fn lemma_replay_keeps_wait(w: PinWait, readings: Seq<(Level, u32)>)
    ensures
        replay_wait(w, readings).pin == w.pin,
        replay_wait(w, readings).from == w.from,
        replay_wait(w, readings).to == w.to,
        replay_wait(w, readings).rules == w.rules,
    decreases readings.len(),
{
    if readings.len() > 0 {
        lemma_replay_keeps_wait(w, readings.drop_last());
    }
}

} // verus!
