//! Pin levels, pin modes and pin writes as plain values.

use vstd::prelude::*;

verus! {

/// The level of a GPIO pin.
#[derive(Clone, Copy, Debug, PartialEq, Eq, Structural)]
pub enum Level {
    Low,
    High,
}

/// The direction a GPIO pin is configured for.
#[derive(Clone, Copy, Debug, PartialEq, Eq, Structural)]
pub enum PinMode {
    Input,
    Output,
}

/// One write of a level to a pin.
#[derive(Clone, Copy, Debug, PartialEq, Eq, Structural)]
pub struct PinWrite {
    pub pin: u8,
    pub level: Level,
}

/// One pin configuration.
#[derive(Clone, Copy, Debug, PartialEq, Eq, Structural)]
pub struct PinSetup {
    pub pin: u8,
    pub mode: PinMode,
}

/// The level that drives a logical bit: `true` is high.
pub open spec fn level_of(bit: bool) -> Level {
    if bit {
        Level::High
    } else {
        Level::Low
    }
}

/// The level that drives `bit` onto a line.
pub fn level_from_bit(bit: bool) -> (level: Level)
    ensures
        level == level_of(bit),
{
    if bit {
        Level::High
    } else {
        Level::Low
    }
}

/// A write of `level` to `pin`.
pub open spec fn write_of(pin: u8, level: Level) -> PinWrite {
    PinWrite { pin, level }
}

} // verus!
