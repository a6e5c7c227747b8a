# stepper_arm

Verified control logic for a small stepper-motor arm on a Raspberry Pi.

- `src/` is the library, verified with Verus:
  - `motor`: the half-step coil sequence of the arm's three motors;
  - `shift_out`: the serial frame shifted out to the motor drivers;
  - `frame_bits`: the bits of a sensor frame, kept in a `bit_vec::BitVec`
    and packed into bytes;
  - `pin_wait`: the decision of each step of a wait for a pin change, with
    its timeouts;
  - `serial_read`: the protocol of one 24-bit read of the sensor register;
  - `stepper`: the controller of directly driven steppers, with its
    counting and homing loops;
  - `pins`: levels, modes and pin writes as plain values.
- `app/` runs the programs on the GPIO header with `rppal`: it performs
  the writes, reads and pauses the library asks for and reports back.
- `tests/` runs the library on concrete values.
