use stepper_arm::pins::{Level, PinMode, PinSetup, PinWrite};
use stepper_arm::stepper::{pause_ms, Direction, StepTick, Stepper, StepperController};

const STEPPER: Stepper = Stepper { null_pin: 6, pin1: 2, pin2: 3, pin3: 4, pin4: 5 };

fn levels(writes: &[PinWrite]) -> Vec<Level> {
    assert_eq!(writes.iter().map(|w| w.pin).collect::<Vec<u8>>(), vec![2, 3, 4, 5]);
    writes.iter().map(|w| w.level).collect()
}

fn controller() -> StepperController {
    let mut c = StepperController::new();
    c.register_stepper(STEPPER);
    c
}

use Level::{High as H, Low as L};

#[test]
fn new_controller_starts_at_seven() {
    let c = StepperController::new();
    assert_eq!((c.sub_step, c.total_steps, c.steppers.len()), (7, 0, 0));
}

#[test]
fn register_reports_pin_modes() {
    let mut c = StepperController::new();
    let setups = c.register_stepper(STEPPER);
    assert_eq!(
        setups,
        vec![
            PinSetup { pin: 6, mode: PinMode::Input },
            PinSetup { pin: 2, mode: PinMode::Output },
            PinSetup { pin: 3, mode: PinMode::Output },
            PinSetup { pin: 4, mode: PinMode::Output },
            PinSetup { pin: 5, mode: PinMode::Output },
        ]
    );
    assert_eq!(c.steppers, vec![STEPPER]);
    assert_eq!(c.null_pin(0), 6);
}

#[test]
fn step_follows_the_half_step_table() {
    let mut c = controller();
    let expected = [
        [L, L, L, H],
        [L, L, H, H],
        [L, L, H, L],
        [L, H, H, L],
        [L, H, L, L],
        [H, H, L, L],
        [H, L, L, L],
        [H, L, L, H],
    ];
    for k in 0..16u64 {
        let w = c.step(0, &Direction::CW);
        let s = (k % 8) as usize;
        assert_eq!(c.sub_step as usize, s);
        assert_eq!(levels(&w), expected[s].to_vec());
        assert_eq!(c.total_steps, k + 1);
    }
}

#[test]
fn counter_clockwise_steps_go_down() {
    let mut c = controller();
    c.step(0, &Direction::CCW);
    assert_eq!(c.sub_step, 6);
    c.sub_step = 0;
    let w = c.step(0, &Direction::CCW);
    assert_eq!(c.sub_step, 7);
    assert_eq!(levels(&w), vec![H, L, L, H]);
}

#[test]
fn out_of_cycle_position_releases_coils() {
    let mut c = controller();
    c.sub_step = 100;
    let w = c.step(0, &Direction::CCW);
    assert_eq!(c.sub_step, 99);
    assert_eq!(levels(&w), vec![L, L, L, L]);
}

#[test]
fn reset_releases_and_returns_to_seven() {
    let mut c = controller();
    c.step(0, &Direction::CW);
    c.step(0, &Direction::CW);
    let w = c.reset_pins(0);
    assert_eq!(levels(&w), vec![L, L, L, L]);
    assert_eq!((c.sub_step, c.total_steps), (7, 2));
}

#[test]
fn multi_step_makes_the_missing_steps_then_resets() {
    let mut c = controller();
    c.total_steps = 3;
    let mut steps = 0;
    loop {
        match c.multi_step_tick(0, &Direction::CW, 10) {
            StepTick::Stepped(w) => {
                steps += 1;
                assert_eq!(w.len(), 4);
            }
            StepTick::Finished(w) => {
                assert_eq!(levels(&w), vec![L, L, L, L]);
                break;
            }
        }
    }
    assert_eq!(steps, 7);
    assert_eq!((c.sub_step, c.total_steps), (7, 0));
}

#[test]
fn multi_step_past_the_target_resets_at_once() {
    let mut c = controller();
    c.total_steps = 12;
    c.sub_step = 2;
    assert!(matches!(c.multi_step_tick(0, &Direction::CW, 10), StepTick::Finished(_)));
    assert_eq!((c.sub_step, c.total_steps), (7, 0));
}

#[test]
fn find_null_steps_while_low_and_stops_on_high() {
    let mut c = controller();
    let readings = [L, L, L, H];
    let mut steps = 0;
    for r in readings {
        match c.find_null_tick(0, &Direction::CCW, r) {
            StepTick::Stepped(_) => steps += 1,
            StepTick::Finished(w) => assert_eq!(levels(&w), vec![L, L, L, L]),
        }
    }
    assert_eq!(steps, 3);
    assert_eq!((c.sub_step, c.total_steps), (7, 0));
}

#[test]
fn set_pins_writes_four_coils() {
    let c = controller();
    assert_eq!(levels(&c.set_pins(0, H, L, H, L)), vec![H, L, H, L]);
}

#[test]
fn pause_is_delay_plus_one() {
    assert_eq!(pause_ms(0), 1);
    assert_eq!(pause_ms(20), 21);
}
