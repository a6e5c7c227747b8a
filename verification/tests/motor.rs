use stepper_arm::motor::{MotorAction, MotorStates};

fn states(a: i8, b: i8, c: i8) -> MotorStates {
    MotorStates { state_1: a, state_2: b, state_3: c }
}

#[test]
fn clockwise_wraps_from_seven_to_zero() {
    let mut m = states(7, 3, 0);
    m.motor_1(MotorAction::RotateCW);
    assert_eq!((m.state_1, m.state_2, m.state_3), (0, 3, 0));
}

#[test]
fn counter_clockwise_wraps_from_zero_to_seven() {
    let mut m = states(1, 0, 5);
    m.motor_2(MotorAction::RotateCCW);
    assert_eq!((m.state_1, m.state_2, m.state_3), (1, 7, 5));
}

#[test]
fn shut_down_sets_minus_one() {
    let mut m = states(1, 2, 3);
    m.motor_3(MotorAction::ShutDown);
    assert_eq!((m.state_1, m.state_2, m.state_3), (1, 2, -1));
}

#[test]
fn shut_down_motor_restarts_at_zero_or_seven() {
    let mut m = states(-1, -1, 4);
    m.motor_1(MotorAction::RotateCW);
    m.motor_2(MotorAction::RotateCCW);
    assert_eq!((m.state_1, m.state_2), (0, 7));
}

#[test]
fn translate_gives_the_half_step_table() {
    let m = states(0, 0, 0);
    let table = [
        [false, false, false, true],
        [false, false, true, true],
        [false, false, true, false],
        [false, true, true, false],
        [false, true, false, false],
        [true, true, false, false],
        [true, false, false, false],
        [true, false, false, true],
    ];
    for s in 0..8i8 {
        assert_eq!(m.translate(&s), table[s as usize].to_vec());
    }
    assert_eq!(m.translate(&-1), vec![false; 4]);
    assert_eq!(m.translate(&42), vec![false; 4]);
}

#[test]
fn translate_all_concatenates_and_pads() {
    let mut m = states(1, 5, -1);
    let bits = m.translate_all();
    assert_eq!(
        bits,
        vec![
            false, false, true, true, true, true, false, false, false, false, false, false, false,
            false, false, false
        ]
    );
    assert_eq!((m.state_1, m.state_2, m.state_3), (1, 5, -1));
}

#[test]
fn clockwise_then_counter_clockwise_is_identity() {
    for s in 0..8i8 {
        let mut m = states(s, s, s);
        m.motor_1(MotorAction::RotateCW);
        m.motor_1(MotorAction::RotateCCW);
        m.motor_2(MotorAction::RotateCCW);
        m.motor_2(MotorAction::RotateCW);
        assert_eq!((m.state_1, m.state_2), (s, s));
    }
}

#[test]
fn eight_half_steps_make_a_full_cycle() {
    let mut m = states(3, 6, 0);
    for n in 1..=8i8 {
        m.motor_1(MotorAction::RotateCW);
        m.motor_2(MotorAction::RotateCCW);
        assert_eq!(m.state_1, (3 + n) % 8);
        assert_eq!(m.state_2, (6 - n).rem_euclid(8));
    }
    assert_eq!((m.state_1, m.state_2), (3, 6));
}

#[test]
fn neighbouring_positions_differ_in_one_coil() {
    let m = states(0, 0, 0);
    for s in 0..8i8 {
        let a = m.translate(&s);
        let b = m.translate(&((s + 1) % 8));
        let changed = a.iter().zip(b.iter()).filter(|(x, y)| x != y).count();
        assert_eq!(changed, 1);
        let on = a.iter().filter(|x| **x).count();
        assert_eq!(on, if s % 2 == 0 { 1 } else { 2 });
    }
}

#[test]
fn demo_loop_of_serial_stepper() {
    let mut m = states(0, 0, 0);
    for _ in 0..4096 {
        m.motor_1(MotorAction::RotateCW);
        m.motor_2(MotorAction::RotateCW);
        m.motor_3(MotorAction::RotateCW);
    }
    assert_eq!((m.state_1, m.state_2, m.state_3), (0, 0, 0));
}
