//! The serial frame that carries the coil bits to the motor drivers: the
//! latch goes low, each of the sixteen bits is put on the data line and
//! clocked in with one high-low pulse, and the latch goes high again.

use vstd::prelude::*;

verus! {

use crate::pins::{Level, PinWrite, level_of, level_from_bit, write_of};
use crate::motor::{coil_pattern, frame_pattern};

/// The number of bits in one frame sent to the motor drivers.
pub const FRAME_BITS: usize = 16;

/// The pins of the output shift register.
#[derive(Clone, Copy, Debug, PartialEq, Eq, Structural)]
pub struct ShiftPins {
    pub data: u8,
    pub clock: u8,
    pub latch: u8,
}

/// The writes that send the first sixteen bits of `data`: latch low; for
/// each bit in order, the bit on the data line, clock high, clock low; latch
/// high.
pub open spec fn frame_writes(pins: ShiftPins, data: Seq<bool>) -> Seq<PinWrite> {
    Seq::new(
        3 * FRAME_BITS as nat + 2,
        |k: int|
            if k == 0 {
                write_of(pins.latch, Level::Low)
            } else if k == 3 * FRAME_BITS + 1 {
                write_of(pins.latch, Level::High)
            } else if (k - 1) % 3 == 0 {
                write_of(pins.data, level_of(data[(k - 1) / 3]))
            } else if (k - 1) % 3 == 1 {
                write_of(pins.clock, Level::High)
            } else {
                write_of(pins.clock, Level::Low)
            },
    )
}

/// The pin writes that shift the first sixteen bits of `data` out to the
/// motor drivers and latch them.
pub fn write_motors(pins: &ShiftPins, data: &Vec<bool>) -> (writes: Vec<PinWrite>)
    requires
        data.len() >= FRAME_BITS,
    ensures
        writes@ == frame_writes(*pins, data@),
        writes@.len() == 50,
        writes@[0] == (PinWrite { pin: pins.latch, level: Level::Low }),
        writes@[49] == (PinWrite { pin: pins.latch, level: Level::High }),
        forall|i: int|
            0 <= i < 16 ==> #[trigger] writes@[1 + 3 * i] == (PinWrite {
                pin: pins.data,
                level: if data@[i] { Level::High } else { Level::Low },
            }) && writes@[2 + 3 * i] == (PinWrite { pin: pins.clock, level: Level::High })
                && writes@[3 + 3 * i] == (PinWrite { pin: pins.clock, level: Level::Low }),
{
    proof {
        lemma_frame_shape(*pins, data@);
    }
    let ghost target = frame_writes(*pins, data@);
    let mut writes: Vec<PinWrite> = Vec::new();
    writes.push(PinWrite { pin: pins.latch, level: Level::Low });
    let mut i: usize = 0;
    while i < FRAME_BITS
        invariant
            i <= FRAME_BITS,
            data.len() >= FRAME_BITS,
            target == frame_writes(*pins, data@),
            writes.len() == 3 * i + 1,
            forall|k: int| 0 <= k < writes.len() ==> writes@[k] == target[k],
        decreases FRAME_BITS - i,
    {
        let level = level_from_bit(data[i]);
        writes.push(PinWrite { pin: pins.data, level });
        writes.push(PinWrite { pin: pins.clock, level: Level::High });
        writes.push(PinWrite { pin: pins.clock, level: Level::Low });
        proof {
            let b = 3 * i + 1;
            assert((b - 1) % 3 == 0 && (b - 1) / 3 == i);
            assert((b + 1 - 1) % 3 == 1);
            assert((b + 2 - 1) % 3 == 2);
        }
        i += 1;
    }
    writes.push(PinWrite { pin: pins.latch, level: Level::High });
    assert(writes@ =~= target);
    writes
}

/// Sending the motor frame puts, for coil `c` of motor `m` (both counted
/// from zero), the level of that coil in the motor's position on the data
/// line as the `4m + c`-th bit, and drives the four unused bits low.
pub proof fn lemma_motor_frame_levels(pins: ShiftPins, s1: int, s2: int, s3: int, c: int)
    requires
        0 <= c < 4,
    ensures
        frame_writes(pins, frame_pattern(s1, s2, s3))[1 + 3 * c] == write_of(
            pins.data,
            level_of(coil_pattern(s1)[c]),
        ),
        frame_writes(pins, frame_pattern(s1, s2, s3))[1 + 3 * (4 + c)] == write_of(
            pins.data,
            level_of(coil_pattern(s2)[c]),
        ),
        frame_writes(pins, frame_pattern(s1, s2, s3))[1 + 3 * (8 + c)] == write_of(
            pins.data,
            level_of(coil_pattern(s3)[c]),
        ),
        frame_writes(pins, frame_pattern(s1, s2, s3))[1 + 3 * (12 + c)] == write_of(
            pins.data,
            Level::Low,
        ),
{
    let f = frame_pattern(s1, s2, s3);
    assert(f.len() == 16);
    assert(f[c] == coil_pattern(s1)[c]);
    assert(f[4 + c] == coil_pattern(s2)[c]);
    assert(f[8 + c] == coil_pattern(s3)[c]);
    assert(!f[12 + c]);
    assert((3 * c) % 3 == 0 && (3 * c) / 3 == c);
    assert((3 * (4 + c)) % 3 == 0 && (3 * (4 + c)) / 3 == 4 + c);
    assert((3 * (8 + c)) % 3 == 0 && (3 * (8 + c)) / 3 == 8 + c);
    assert((3 * (12 + c)) % 3 == 0 && (3 * (12 + c)) / 3 == 12 + c);
}

/// The shape of a motor frame, whatever the data: fifty writes, the first
/// lowering the latch and the last raising it, so that the frame always
/// reaches the driver outputs; in between, for bit `i` in order, the bit on
/// the data line (high for on, low for off), then the clock raised and
/// lowered.
pub proof fn lemma_frame_shape(pins: ShiftPins, data: Seq<bool>)
    requires
        data.len() >= 16,
    ensures
        frame_writes(pins, data).len() == 50,
        frame_writes(pins, data)[0] == (PinWrite { pin: pins.latch, level: Level::Low }),
        frame_writes(pins, data)[49] == (PinWrite { pin: pins.latch, level: Level::High }),
        frame_writes(pins, data).last() == (PinWrite { pin: pins.latch, level: Level::High }),
        forall|i: int|
            0 <= i < 16 ==> #[trigger] frame_writes(pins, data)[1 + 3 * i] == (PinWrite {
                pin: pins.data,
                level: if data[i] { Level::High } else { Level::Low },
            }) && frame_writes(pins, data)[2 + 3 * i] == (PinWrite {
                pin: pins.clock,
                level: Level::High,
            }) && frame_writes(pins, data)[3 + 3 * i] == (PinWrite {
                pin: pins.clock,
                level: Level::Low,
            }),
{
    let f = frame_writes(pins, data);
    assert forall|i: int| 0 <= i < 16 implies #[trigger] f[1 + 3 * i] == (PinWrite {
        pin: pins.data,
        level: if data[i] { Level::High } else { Level::Low },
    }) && f[2 + 3 * i] == (PinWrite { pin: pins.clock, level: Level::High }) && f[3 + 3 * i] == (
    PinWrite { pin: pins.clock, level: Level::Low }) by {
        assert((3 * i) % 3 == 0 && (3 * i) / 3 == i);
        assert((3 * i + 1) % 3 == 1);
        assert((3 * i + 2) % 3 == 2);
    }
}

} // verus!
