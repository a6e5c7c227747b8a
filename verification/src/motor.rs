//! The three motors of the arm: each has a half-step position in `0..=7`,
//! or `-1` when it is shut down, and each position energises a fixed set of
//! its four coils.

use vstd::prelude::*;

verus! {

/// What a motor is told to do next.
pub enum MotorAction {
    RotateCW,
    RotateCCW,
    ShutDown,
}

/// The half-step positions of the three motors.
pub struct MotorStates {
    pub state_1: i8,
    pub state_2: i8,
    pub state_3: i8,
}

/// The state a motor in state `s` moves to under `action`: one half step
/// forward or back on the eight-step cycle, or `-1` when shut down.
pub open spec fn next_state(s: i8, action: MotorAction) -> i8 {
    match action {
        MotorAction::RotateCW => if s + 1 > 7 { 0 } else { (s + 1) as i8 },
        MotorAction::RotateCCW => if s - 1 < 0 { 7 } else { (s - 1) as i8 },
        MotorAction::ShutDown => -1i8,
    }
}

/// `action` can be applied to state `s` without leaving the range of `i8`.
pub open spec fn can_apply(s: i8, action: MotorAction) -> bool {
    match action {
        MotorAction::RotateCW => s < i8::MAX,
        MotorAction::RotateCCW => s > i8::MIN,
        MotorAction::ShutDown => true,
    }
}

/// A state on the motor's cycle, or the shut-down state.
pub open spec fn valid_state(s: int) -> bool {
    -1 <= s <= 7
}

/// The coils `[A, B, C, D]` energised in half-step position `s`; every other
/// value, the shut-down state among them, leaves all four off.
pub open spec fn coil_pattern(s: int) -> Seq<bool> {
    if s == 0 {
        seq![false, false, false, true]
    } else if s == 1 {
        seq![false, false, true, true]
    } else if s == 2 {
        seq![false, false, true, false]
    } else if s == 3 {
        seq![false, true, true, false]
    } else if s == 4 {
        seq![false, true, false, false]
    } else if s == 5 {
        seq![true, true, false, false]
    } else if s == 6 {
        seq![true, false, false, false]
    } else if s == 7 {
        seq![true, false, false, true]
    } else {
        seq![false, false, false, false]
    }
}

/// The sixteen bits sent to the motor drivers for states `s1`, `s2`, `s3`:
/// four coils per motor in motor order, then four unused bits that are off.
pub open spec fn frame_pattern(s1: int, s2: int, s3: int) -> Seq<bool> {
    coil_pattern(s1) + coil_pattern(s2) + coil_pattern(s3) + seq![false, false, false, false]
}

/// Applies `action` to one motor state.
fn apply(state: &mut i8, action: MotorAction)
    requires
        can_apply(*old(state), action),
    ensures
        *final(state) == next_state(*old(state), action),
{
    match action {
        MotorAction::RotateCW => {
            *state += 1;
            if *state > 7 {
                *state = 0;
            }
        },
        MotorAction::RotateCCW => {
            *state -= 1;
            if *state < 0 {
                *state = 7;
            }
        },
        MotorAction::ShutDown => *state = -1,
    }
}

impl MotorStates {
    /// Moves motor 1 one half step, or shuts it down.
    pub fn motor_1(&mut self, action: MotorAction)
        requires
            can_apply(old(self).state_1, action),
        ensures
            final(self).state_1 == next_state(old(self).state_1, action),
            final(self).state_2 == old(self).state_2,
            final(self).state_3 == old(self).state_3,
    {
        apply(&mut self.state_1, action);
    }

    /// Moves motor 2 one half step, or shuts it down.
    pub fn motor_2(&mut self, action: MotorAction)
        requires
            can_apply(old(self).state_2, action),
        ensures
            final(self).state_2 == next_state(old(self).state_2, action),
            final(self).state_1 == old(self).state_1,
            final(self).state_3 == old(self).state_3,
    {
        apply(&mut self.state_2, action);
    }

    /// Moves motor 3 one half step, or shuts it down.
    pub fn motor_3(&mut self, action: MotorAction)
        requires
            can_apply(old(self).state_3, action),
        ensures
            final(self).state_3 == next_state(old(self).state_3, action),
            final(self).state_1 == old(self).state_1,
            final(self).state_2 == old(self).state_2,
    {
        apply(&mut self.state_3, action);
    }

    /// The sixteen bits for the drivers: the coils of motors 1, 2 and 3,
    /// then four bits that are off.
    pub fn translate_all(&mut self) -> (bits: Vec<bool>)
        ensures
            *final(self) == *old(self),
            bits@ == frame_pattern(
                old(self).state_1 as int,
                old(self).state_2 as int,
                old(self).state_3 as int,
            ),
    {
        let s1 = self.translate(&self.state_1);
        let s2 = self.translate(&self.state_2);
        let s3 = self.translate(&self.state_3);
        let bits = vec![
            s1[0], s1[1], s1[2], s1[3],
            s2[0], s2[1], s2[2], s2[3],
            s3[0], s3[1], s3[2], s3[3],
            false, false, false, false,
        ];
        assert(bits@ =~= frame_pattern(
            self.state_1 as int,
            self.state_2 as int,
            self.state_3 as int,
        ));
        bits
    }

    /// The coils energised in position `state`.
    pub fn translate(&self, state: &i8) -> (coils: Vec<bool>)
        ensures
            coils@ == coil_pattern(*state as int),
    {
        let coils = match *state {
            0 => vec![false, false, false, true],
            1 => vec![false, false, true, true],
            2 => vec![false, false, true, false],
            3 => vec![false, true, true, false],
            4 => vec![false, true, false, false],
            5 => vec![true, true, false, false],
            6 => vec![true, false, false, false],
            7 => vec![true, false, false, true],
            _ => vec![false, false, false, false],
        };
        assert(coils@ =~= coil_pattern(*state as int));
        coils
    }
}

/// The state reached from `s` after `n` applications of `action`.
pub open spec fn repeat_action(s: i8, action: MotorAction, n: nat) -> i8
    decreases n,
{
    if n == 0 {
        s
    } else {
        next_state(repeat_action(s, action, (n - 1) as nat), action)
    }
}

/// The number of positions in which two coil patterns differ.
pub open spec fn coils_changed(a: Seq<bool>, b: Seq<bool>) -> int {
    (if a[0] != b[0] { 1int } else { 0int }) + (if a[1] != b[1] { 1int } else { 0int }) + (if a[2]
        != b[2] { 1int } else { 0int }) + (if a[3] != b[3] { 1int } else { 0int })
}

/// The number of coils a pattern energises.
pub open spec fn coils_on(a: Seq<bool>) -> int {
    (if a[0] { 1int } else { 0int }) + (if a[1] { 1int } else { 0int }) + (if a[2] { 1int } else {
        0int
    }) + (if a[3] { 1int } else { 0int })
}

/// Every action can be applied to a motor whose state is on the cycle or shut
/// down, and it leaves the state on the cycle or shut down; rotating a motor
/// that is on the cycle keeps it on the cycle.
pub proof fn lemma_state_stays_valid(s: i8, action: MotorAction)
    requires
        valid_state(s as int),
    ensures
        can_apply(s, action),
        valid_state(next_state(s, action) as int),
        0 <= s <= 7 && !(action is ShutDown) ==> 0 <= next_state(s, action) <= 7,
{
}

/// On the cycle, a clockwise half step undoes a counter-clockwise one and the
/// other way round.
pub proof fn lemma_rotation_inverse(s: i8)
    requires
        0 <= s <= 7,
    ensures
        next_state(next_state(s, MotorAction::RotateCW), MotorAction::RotateCCW) == s,
        next_state(next_state(s, MotorAction::RotateCCW), MotorAction::RotateCW) == s,
{
}

/// From a state on the cycle, `n` clockwise half steps reach `(s + n) mod 8`
/// and `n` counter-clockwise half steps reach `(s - n) mod 8`; in particular
/// eight half steps either way come back to `s`.
pub proof fn lemma_rotation_counts(s: i8, n: nat)
    requires
        0 <= s <= 7,
    ensures
        repeat_action(s, MotorAction::RotateCW, n) == (s + n) % 8,
        repeat_action(s, MotorAction::RotateCCW, n) == (s - n) % 8,
        repeat_action(s, MotorAction::RotateCW, 8) == s,
        repeat_action(s, MotorAction::RotateCCW, 8) == s,
{
    lemma_rotation_counts_n(s, n);
    lemma_rotation_counts_n(s, 8);
}

proof fn lemma_rotation_counts_n(s: i8, n: nat)
    requires
        0 <= s <= 7,
    ensures
        repeat_action(s, MotorAction::RotateCW, n) == (s + n) % 8,
        repeat_action(s, MotorAction::RotateCCW, n) == (s - n) % 8,
    decreases n,
{
    if n > 0 {
        lemma_rotation_counts_n(s, (n - 1) as nat);
        let p = repeat_action(s, MotorAction::RotateCW, (n - 1) as nat);
        let q = repeat_action(s, MotorAction::RotateCCW, (n - 1) as nat);
        assert(p == (s + n - 1) % 8);
        assert(q == (s - (n - 1)) % 8);
        assert((s + n) % 8 == if p + 1 > 7 { 0 } else { p + 1 });
        assert((s - n) % 8 == if q - 1 < 0 { 7 } else { q - 1 });
    }
}

/// Neighbouring positions of the cycle, the step from 7 back to 0 included,
/// differ in exactly one coil: the sequence is a half-step sequence.
pub proof fn lemma_half_step_sequence(s: int)
    requires
        0 <= s <= 7,
    ensures
        coils_changed(coil_pattern(s), coil_pattern((s + 1) % 8)) == 1,
{
}

/// Even positions energise one coil and odd positions two; a motor that is
/// shut down has all four coils off.
pub proof fn lemma_coil_counts(s: int)
    ensures
        0 <= s <= 7 && s % 2 == 0 ==> coils_on(coil_pattern(s)) == 1,
        0 <= s <= 7 && s % 2 == 1 ==> coils_on(coil_pattern(s)) == 2,
        coil_pattern(-1) == seq![false, false, false, false],
        coils_on(coil_pattern(next_state(s as i8, MotorAction::ShutDown) as int)) == 0,
{
}

} // verus!
