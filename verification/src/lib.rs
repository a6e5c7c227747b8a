//! Control logic for a small stepper-motor arm driven from a Raspberry Pi:
//! the half-step coil sequence of each motor, the serial frames shifted out
//! to the motor drivers, the frames read back from the sensor shift register,
//! and the single-stepper controller with its counting and homing loops.
//!
//! Everything here computes on plain values; the GPIO work itself (writing a
//! level, reading a pin, sleeping) is carried out by the caller, which hands
//! the results back.

pub mod pins;
pub mod motor;
pub mod shift_out;
pub mod frame_bits;
pub mod pin_wait;
pub mod serial_read;
pub mod stepper;
