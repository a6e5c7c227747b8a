use stepper_arm::motor::MotorStates;
use stepper_arm::pins::{Level, PinWrite};
use stepper_arm::shift_out::{write_motors, ShiftPins};

const PINS: ShiftPins = ShiftPins { data: 2, clock: 3, latch: 4 };

fn w(pin: u8, level: Level) -> PinWrite {
    PinWrite { pin, level }
}

#[test]
fn frame_has_latch_around_sixteen_clocked_bits() {
    let data: Vec<bool> = (0..16).map(|i| i % 3 == 0).collect();
    let writes = write_motors(&PINS, &data);
    assert_eq!(writes.len(), 50);
    assert_eq!(writes[0], w(4, Level::Low));
    assert_eq!(writes[49], w(4, Level::High));
    for i in 0..16 {
        let level = if i % 3 == 0 { Level::High } else { Level::Low };
        assert_eq!(writes[1 + 3 * i], w(2, level));
        assert_eq!(writes[2 + 3 * i], w(3, Level::High));
        assert_eq!(writes[3 + 3 * i], w(3, Level::Low));
    }
}

#[test]
fn only_first_sixteen_bits_are_sent() {
    let mut data = vec![false; 20];
    data[16] = true;
    data[19] = true;
    let writes = write_motors(&PINS, &data);
    assert_eq!(writes.len(), 50);
    assert!(writes.iter().all(|x| x.pin != 2 || x.level == Level::Low));
}

#[test]
fn all_off_frame_releases_every_coil() {
    let writes = write_motors(&PINS, &vec![false; 16]);
    let data_writes: Vec<&PinWrite> = writes.iter().filter(|x| x.pin == 2).collect();
    assert_eq!(data_writes.len(), 16);
    assert!(data_writes.iter().all(|x| x.level == Level::Low));
}

#[test]
fn motor_frame_carries_coils_in_motor_order() {
    let mut m = MotorStates { state_1: 0, state_2: 5, state_3: 7 };
    let writes = write_motors(&PINS, &m.translate_all());
    let levels: Vec<Level> = writes.iter().filter(|x| x.pin == 2).map(|x| x.level).collect();
    let (h, l) = (Level::High, Level::Low);
    assert_eq!(levels, vec![l, l, l, h, h, h, l, l, h, l, l, h, l, l, l, l]);
}
