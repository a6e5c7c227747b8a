//! A controller for steppers driven coil by coil from four pins each, with a
//! fifth pin that reads high at the stepper's null position. The controller
//! keeps one half-step position and a count of the steps made since the last
//! reset; it runs a stepper a given number of steps, or until its null pin
//! reads high.

use vstd::prelude::*;

verus! {

use crate::pins::{Level, PinMode, PinSetup, PinWrite, level_of, write_of};
use crate::motor::{coil_pattern, next_state, MotorAction};

/// The direction of a step.
#[derive(Clone, Copy, Debug, PartialEq, Eq, Structural)]
pub enum Direction {
    CW,
    CCW,
}

/// The pins of one stepper.
#[derive(Clone, Copy, Debug, PartialEq, Eq, Structural)]
pub struct Stepper {
    /// Reads high at the null position.
    pub null_pin: u8,
    pub pin1: u8,
    pub pin2: u8,
    pub pin3: u8,
    pub pin4: u8,
}

/// The registered steppers, the current half-step position and the steps
/// made since the last reset.
pub struct StepperController {
    pub steppers: Vec<Stepper>,
    pub sub_step: u8,
    pub total_steps: u64,
}

/// The outcome of one round of a stepping loop.
pub enum StepTick {
    /// A step was made; write these levels, pause, and go on.
    Stepped(Vec<PinWrite>),
    /// The loop is over: the count is back at zero and the coils are
    /// released by these writes.
    Finished(Vec<PinWrite>),
}

/// The half-step position after a step from `s` in direction `d`.
pub open spec fn next_sub_step(s: u8, d: Direction) -> u8 {
    match d {
        Direction::CW => if s < 7 { (s + 1) as u8 } else { 0 },
        Direction::CCW => if s > 0 { (s - 1) as u8 } else { 7 },
    }
}

/// The writes of levels `l1` to `l4` to the four coil pins of `st`.
pub open spec fn level_writes(st: Stepper, l1: Level, l2: Level, l3: Level, l4: Level) -> Seq<
    PinWrite,
> {
    seq![write_of(st.pin1, l1), write_of(st.pin2, l2), write_of(st.pin3, l3), write_of(st.pin4, l4)]
}

/// The writes that energise the coils of `st` as in `pattern`.
pub open spec fn coil_writes(st: Stepper, pattern: Seq<bool>) -> Seq<PinWrite> {
    level_writes(
        st,
        level_of(pattern[0]),
        level_of(pattern[1]),
        level_of(pattern[2]),
        level_of(pattern[3]),
    )
}

/// The writes that release all four coils of `st`.
pub open spec fn release_writes(st: Stepper) -> Seq<PinWrite> {
    level_writes(st, Level::Low, Level::Low, Level::Low, Level::Low)
}

/// The pin configuration of a stepper: the null pin is read, the coil pins
/// are driven.
pub open spec fn stepper_setups(st: Stepper) -> Seq<PinSetup> {
    seq![
        PinSetup { pin: st.null_pin, mode: PinMode::Input },
        PinSetup { pin: st.pin1, mode: PinMode::Output },
        PinSetup { pin: st.pin2, mode: PinMode::Output },
        PinSetup { pin: st.pin3, mode: PinMode::Output },
        PinSetup { pin: st.pin4, mode: PinMode::Output },
    ]
}

/// The position and count after one round of `multi_step_tick` that runs up
/// to `num_steps`: a step while the count is below it, else a reset.
pub open spec fn multi_tick(sub: u8, total: u64, d: Direction, num_steps: u64) -> (u8, u64) {
    if total < num_steps {
        (next_sub_step(sub, d), (total + 1) as u64)
    } else {
        (7, 0)
    }
}

/// The position after `n` steps in direction `d` from `sub`.
pub open spec fn advance_sub(sub: u8, d: Direction, n: nat) -> u8
    decreases n,
{
    if n == 0 {
        sub
    } else {
        next_sub_step(advance_sub(sub, d, (n - 1) as nat), d)
    }
}

/// The position and count after `n` rounds of `multi_step_tick`.
pub open spec fn multi_ticks(sub: u8, total: u64, d: Direction, num_steps: u64, n: nat) -> (u8, u64)
    decreases n,
{
    if n == 0 {
        (sub, total)
    } else {
        let p = multi_ticks(sub, total, d, num_steps, (n - 1) as nat);
        multi_tick(p.0, p.1, d, num_steps)
    }
}

/// The milliseconds a stepping loop pauses after each step.
pub fn pause_ms(delay_per_step: u64) -> (ms: u64)
    requires
        delay_per_step < u64::MAX,
    ensures
        ms == delay_per_step + 1,
{
    1 + delay_per_step
}

impl StepperController {
    /// A controller with no steppers, at position 7 with a count of zero.
    pub fn new() -> (c: StepperController)
        ensures
            c.steppers@ == Seq::<Stepper>::empty(),
            c.sub_step == 7,
            c.total_steps == 0,
    {
        StepperController { steppers: Vec::new(), sub_step: 7, total_steps: 0 }
    }

    /// Adds a stepper; the result is the configuration its pins need.
    pub fn register_stepper(&mut self, stepper: Stepper) -> (setups: Vec<PinSetup>)
        ensures
            final(self).steppers@ == old(self).steppers@.push(stepper),
            final(self).sub_step == old(self).sub_step,
            final(self).total_steps == old(self).total_steps,
            setups@ == stepper_setups(stepper),
            setups@ == seq![
                PinSetup { pin: stepper.null_pin, mode: PinMode::Input },
                PinSetup { pin: stepper.pin1, mode: PinMode::Output },
                PinSetup { pin: stepper.pin2, mode: PinMode::Output },
                PinSetup { pin: stepper.pin3, mode: PinMode::Output },
                PinSetup { pin: stepper.pin4, mode: PinMode::Output },
            ],
    {
        proof {
            lemma_setups_sense_null_and_drive_coils(stepper);
        }
        let setups = vec![
            PinSetup { pin: stepper.null_pin, mode: PinMode::Input },
            PinSetup { pin: stepper.pin1, mode: PinMode::Output },
            PinSetup { pin: stepper.pin2, mode: PinMode::Output },
            PinSetup { pin: stepper.pin3, mode: PinMode::Output },
            PinSetup { pin: stepper.pin4, mode: PinMode::Output },
        ];
        self.steppers.push(stepper);
        assert(setups@ =~= stepper_setups(stepper));
        setups
    }

    /// The null pin of stepper `stepper`.
    pub fn null_pin(&self, stepper: usize) -> (pin: u8)
        requires
            stepper < self.steppers.len(),
        ensures
            pin == self.steppers@[stepper as int].null_pin,
    {
        self.steppers[stepper].null_pin
    }

    /// The writes of the four levels to the coil pins of stepper `stepper`.
    pub fn set_pins(&self, stepper: usize, pl1: Level, pl2: Level, pl3: Level, pl4: Level) -> (writes: Vec<PinWrite>)
        requires
            stepper < self.steppers.len(),
        ensures
            writes@ == level_writes(self.steppers@[stepper as int], pl1, pl2, pl3, pl4),
            writes@ == seq![
                PinWrite { pin: self.steppers@[stepper as int].pin1, level: pl1 },
                PinWrite { pin: self.steppers@[stepper as int].pin2, level: pl2 },
                PinWrite { pin: self.steppers@[stepper as int].pin3, level: pl3 },
                PinWrite { pin: self.steppers@[stepper as int].pin4, level: pl4 },
            ],
    {
        proof {
            lemma_writes_go_to_their_pins(
                self.steppers@[stepper as int],
                pl1,
                pl2,
                pl3,
                pl4,
                seq![false, false, false, false],
            );
        }
        let s = &self.steppers[stepper];
        let writes = vec![
            PinWrite { pin: s.pin1, level: pl1 },
            PinWrite { pin: s.pin2, level: pl2 },
            PinWrite { pin: s.pin3, level: pl3 },
            PinWrite { pin: s.pin4, level: pl4 },
        ];
        assert(writes@ =~= level_writes(self.steppers@[stepper as int], pl1, pl2, pl3, pl4));
        writes
    }

    /// Releases the coils of stepper `stepper` and puts the position back at 7.
    pub fn reset_pins(&mut self, stepper: usize) -> (writes: Vec<PinWrite>)
        requires
            stepper < old(self).steppers.len(),
        ensures
            writes@ == release_writes(old(self).steppers@[stepper as int]),
            final(self).sub_step == 7,
            final(self).total_steps == old(self).total_steps,
            final(self).steppers@ == old(self).steppers@,
    {
        let writes = self.set_pins(stepper, Level::Low, Level::Low, Level::Low, Level::Low);
        self.sub_step = 7;
        writes
    }

    /// One half step of stepper `stepper` in `direction`: the position moves
    /// on the eight-step cycle, the count goes up by one, and the coils are
    /// energised as the motor sequence has them for the new position.
    pub fn step(&mut self, stepper: usize, direction: &Direction) -> (writes: Vec<PinWrite>)
        requires
            stepper < old(self).steppers.len(),
            old(self).total_steps < u64::MAX,
        ensures
            final(self).sub_step == next_sub_step(old(self).sub_step, *direction),
            final(self).total_steps == old(self).total_steps + 1,
            final(self).steppers@ == old(self).steppers@,
            writes@ == coil_writes(
                old(self).steppers@[stepper as int],
                coil_pattern(final(self).sub_step as int),
            ),
            writes@.len() == 4,
            forall|k: int|
                0 <= k < 4 ==> #[trigger] writes@[k] == (PinWrite {
                    pin: coil_pin(old(self).steppers@[stepper as int], k),
                    level: if coil_pattern(final(self).sub_step as int)[k] {
                        Level::High
                    } else {
                        Level::Low
                    },
                }),
    {
        proof {
            lemma_writes_go_to_their_pins(
                old(self).steppers@[stepper as int],
                Level::Low,
                Level::Low,
                Level::Low,
                Level::Low,
                coil_pattern(next_sub_step(old(self).sub_step, *direction) as int),
            );
        }
        self.sub_step = match direction {
            Direction::CW => if self.sub_step < 7 { self.sub_step + 1 } else { 0 },
            Direction::CCW => if self.sub_step > 0 { self.sub_step - 1 } else { 7 },
        };
        self.total_steps += 1;
        let writes = match self.sub_step {
            0 => self.set_pins(stepper, Level::Low, Level::Low, Level::Low, Level::High),
            1 => self.set_pins(stepper, Level::Low, Level::Low, Level::High, Level::High),
            2 => self.set_pins(stepper, Level::Low, Level::Low, Level::High, Level::Low),
            3 => self.set_pins(stepper, Level::Low, Level::High, Level::High, Level::Low),
            4 => self.set_pins(stepper, Level::Low, Level::High, Level::Low, Level::Low),
            5 => self.set_pins(stepper, Level::High, Level::High, Level::Low, Level::Low),
            6 => self.set_pins(stepper, Level::High, Level::Low, Level::Low, Level::Low),
            7 => self.set_pins(stepper, Level::High, Level::Low, Level::Low, Level::High),
            _ => self.set_pins(stepper, Level::Low, Level::Low, Level::Low, Level::Low),
        };
        writes
    }

    /// One round of the loop that runs stepper `stepper` until the count
    /// reaches `num_steps`: while the count is below it, a step; otherwise
    /// the count goes back to zero and the coils are released.
    pub fn multi_step_tick(&mut self, stepper: usize, direction: &Direction, num_steps: u64) -> (tick: StepTick)
        requires
            stepper < old(self).steppers.len(),
        ensures
            (final(self).sub_step, final(self).total_steps) == multi_tick(
                old(self).sub_step,
                old(self).total_steps,
                *direction,
                num_steps,
            ),
            final(self).steppers@ == old(self).steppers@,
            old(self).total_steps < num_steps ==> (tick matches StepTick::Stepped(w) && w@
                == coil_writes(
                old(self).steppers@[stepper as int],
                coil_pattern(final(self).sub_step as int),
            )),
            old(self).total_steps >= num_steps ==> (tick matches StepTick::Finished(w) && w@
                == release_writes(old(self).steppers@[stepper as int])),
    {
        if self.total_steps < num_steps {
            StepTick::Stepped(self.step(stepper, direction))
        } else {
            self.total_steps = 0;
            StepTick::Finished(self.reset_pins(stepper))
        }
    }

    /// One round of the loop that turns stepper `stepper` until its null pin
    /// reads high: on a low reading, a step; on a high one, the count goes
    /// back to zero and the coils are released.
    pub fn find_null_tick(&mut self, stepper: usize, direction: &Direction, null_level: Level) -> (tick: StepTick)
        requires
            stepper < old(self).steppers.len(),
            null_level == Level::Low ==> old(self).total_steps < u64::MAX,
        ensures
            final(self).steppers@ == old(self).steppers@,
            null_level == Level::Low ==> {
                &&& final(self).sub_step == next_sub_step(old(self).sub_step, *direction)
                &&& final(self).total_steps == old(self).total_steps + 1
                &&& tick matches StepTick::Stepped(w) && w@ == coil_writes(
                    old(self).steppers@[stepper as int],
                    coil_pattern(final(self).sub_step as int),
                )
            },
            null_level == Level::High ==> {
                &&& final(self).sub_step == 7
                &&& final(self).total_steps == 0
                &&& tick matches StepTick::Finished(w) && w@ == release_writes(
                    old(self).steppers@[stepper as int],
                )
            },
    {
        if null_level == Level::Low {
            StepTick::Stepped(self.step(stepper, direction))
        } else {
            self.total_steps = 0;
            StepTick::Finished(self.reset_pins(stepper))
        }
    }
}

/// The controller steps through the same eight-position cycle as the
/// motors of the arm: from a position on the cycle, a clockwise step goes
/// where a motor's clockwise half step goes, and likewise counter-clockwise.
pub proof fn lemma_sub_step_is_motor_cycle(s: u8)
    requires
        s <= 7,
    ensures
        next_sub_step(s, Direction::CW) == next_state(s as i8, MotorAction::RotateCW),
        next_sub_step(s, Direction::CCW) == next_state(s as i8, MotorAction::RotateCCW),
{
}

/// From a position on the cycle, `n` clockwise steps reach `(s + n) mod 8`,
/// `n` counter-clockwise steps reach `(s - n) mod 8`, and a step one way
/// undoes a step the other way.
pub proof fn lemma_sub_step_cycle(s: u8, n: nat)
    requires
        s <= 7,
    ensures
        advance_sub(s, Direction::CW, n) == (s + n) % 8,
        advance_sub(s, Direction::CCW, n) == (s - n) % 8,
        next_sub_step(next_sub_step(s, Direction::CW), Direction::CCW) == s,
        next_sub_step(next_sub_step(s, Direction::CCW), Direction::CW) == s,
    decreases n,
{
    if n > 0 {
        lemma_sub_step_cycle(s, (n - 1) as nat);
        let p = advance_sub(s, Direction::CW, (n - 1) as nat);
        let q = advance_sub(s, Direction::CCW, (n - 1) as nat);
        assert((s + n) % 8 == if p < 7 { p + 1 } else { 0 });
        assert((s - n) % 8 == if q > 0 { q - 1 } else { 7 });
    }
}

/// Running up to a count: from a count `total` no larger than `num_steps`,
/// the first `num_steps - total` rounds each make one step, and the round
/// after them resets the count to zero and the position to 7. From a count
/// beyond `num_steps`, the first round resets.
pub proof fn lemma_multi_step_runs(sub: u8, total: u64, d: Direction, num_steps: u64)
    ensures
        total <= num_steps ==> forall|k: nat|
            k <= num_steps - total ==> #[trigger] multi_ticks(sub, total, d, num_steps, k) == (
                advance_sub(sub, d, k),
                (total + k) as u64,
            ),
        total <= num_steps ==> multi_ticks(
            sub,
            total,
            d,
            num_steps,
            (num_steps - total + 1) as nat,
        ) == (7u8, 0u64),
        total > num_steps ==> multi_ticks(sub, total, d, num_steps, 1) == (7u8, 0u64),
{
    if total <= num_steps {
        assert forall|k: nat| k <= num_steps - total implies #[trigger] multi_ticks(
            sub,
            total,
            d,
            num_steps,
            k,
        ) == (advance_sub(sub, d, k), (total + k) as u64) by {
            lemma_multi_ticks_prefix(sub, total, d, num_steps, k);
        }
        lemma_multi_ticks_prefix(sub, total, d, num_steps, (num_steps - total) as nat);
    } else {
        reveal_with_fuel(multi_ticks, 2);
    }
}

proof fn lemma_multi_ticks_prefix(sub: u8, total: u64, d: Direction, num_steps: u64, k: nat)
    requires
        total <= num_steps,
        k <= num_steps - total,
    ensures
        multi_ticks(sub, total, d, num_steps, k) == (advance_sub(sub, d, k), (total + k) as u64),
    decreases k,
{
    if k > 0 {
        lemma_multi_ticks_prefix(sub, total, d, num_steps, (k - 1) as nat);
    }
}

/// Coil pin `k` (counted from zero) of a stepper: `pin1` to `pin4`.
pub open spec fn coil_pin(st: Stepper, k: int) -> u8 {
    if k == 0 {
        st.pin1
    } else if k == 1 {
        st.pin2
    } else if k == 2 {
        st.pin3
    } else {
        st.pin4
    }
}

/// Each of four levels goes to its own coil pin, in order, whatever the pin
/// numbers: write `k` of a stepper's coil writes goes to coil pin `k` with
/// level `k`; energising a pattern drives coil pin `k` high exactly when
/// coil `k` is on; releasing drives all four coil pins low.
pub proof fn lemma_writes_go_to_their_pins(
    st: Stepper,
    l1: Level,
    l2: Level,
    l3: Level,
    l4: Level,
    pattern: Seq<bool>,
)
    requires
        pattern.len() == 4,
    ensures
        level_writes(st, l1, l2, l3, l4).len() == 4,
        level_writes(st, l1, l2, l3, l4)[0] == (PinWrite { pin: st.pin1, level: l1 }),
        level_writes(st, l1, l2, l3, l4)[1] == (PinWrite { pin: st.pin2, level: l2 }),
        level_writes(st, l1, l2, l3, l4)[2] == (PinWrite { pin: st.pin3, level: l3 }),
        level_writes(st, l1, l2, l3, l4)[3] == (PinWrite { pin: st.pin4, level: l4 }),
        coil_writes(st, pattern).len() == 4,
        forall|k: int|
            0 <= k < 4 ==> #[trigger] coil_writes(st, pattern)[k] == (PinWrite {
                pin: coil_pin(st, k),
                level: if pattern[k] { Level::High } else { Level::Low },
            }),
        release_writes(st).len() == 4,
        forall|k: int|
            0 <= k < 4 ==> #[trigger] release_writes(st)[k] == (PinWrite {
                pin: coil_pin(st, k),
                level: Level::Low,
            }),
{
}

/// Registering a stepper reads its null pin and drives its four coil pins,
/// whatever the pin numbers.
pub proof fn lemma_setups_sense_null_and_drive_coils(st: Stepper)
    ensures
        stepper_setups(st).len() == 5,
        stepper_setups(st)[0] == (PinSetup { pin: st.null_pin, mode: PinMode::Input }),
        forall|k: int|
            1 <= k < 5 ==> #[trigger] stepper_setups(st)[k] == (PinSetup {
                pin: coil_pin(st, k - 1),
                mode: PinMode::Output,
            }),
{
}

} // verus!
