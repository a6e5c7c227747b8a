use stepper_arm::pin_wait::{PinWait, WaitError, WaitRules};
use stepper_arm::pins::{Level, PinWrite};
use stepper_arm::serial_read::{
    FrameReader, ReadCommand, ReadEvent, ReadFailure, ReadPhase, ReadStage, ReaderConfig,
    ReaderPins,
};

const PINS: ReaderPins = ReaderPins { data: 14, clock: 15, latch_in: 18, latch_out: 23 };
const RULES: WaitRules = WaitRules { timeout_ms: 500, stabilize: true, restart_clock: false, name_phase: true };

fn config() -> ReaderConfig {
    ReaderConfig { pins: PINS, rules: RULES, complete_from: Level::Low, release_after: true }
}

/// Drives a reader with a scripted bus: `bit_levels[i]` is `Some(level)`
/// when the i-th clock edge comes, `None` when it times out.
fn run(reader: &mut FrameReader, bit_levels: &[Option<Level>]) -> Vec<ReadCommand> {
    let mut seen = Vec::new();
    for _ in 0..200 {
        let c = reader.command();
        seen.push(c);
        let event = match c {
            ReadCommand::Write(_) => ReadEvent::Written,
            ReadCommand::Await(ReadStage::Bit(i), _) => match bit_levels[i] {
                Some(_) => ReadEvent::WaitSucceeded,
                None => ReadEvent::WaitFailed(WaitError::ChangeTimeout),
            },
            ReadCommand::Await(_, _) => ReadEvent::WaitSucceeded,
            ReadCommand::Sample(_) => {
                let i = match reader.phase {
                    ReadPhase::BitSample(i) => i,
                    _ => unreachable!(),
                };
                ReadEvent::Sampled(bit_levels[i].unwrap())
            }
            ReadCommand::Finished | ReadCommand::Aborted(_) => break,
        };
        reader.advance(event);
    }
    seen
}

#[test]
fn a_clean_read_returns_the_sampled_bits() {
    let mut levels = vec![Some(Level::Low); 24];
    for i in [0usize, 3, 8, 15, 16, 23] {
        levels[i] = Some(Level::High);
    }
    let mut r = FrameReader::new(config());
    let seen = run(&mut r, &levels);
    assert_eq!(r.phase, ReadPhase::Finished);
    assert_eq!(r.bytes(), vec![0b1001_0000, 0b1000_0001, 0b1000_0001]);
    assert_eq!(seen[0], ReadCommand::Write(PinWrite { pin: 23, level: Level::High }));
    assert_eq!(
        seen[1],
        ReadCommand::Await(ReadStage::Request, PinWait::new(15, Level::Low, Level::High, RULES))
    );
    assert_eq!(
        seen[2],
        ReadCommand::Await(ReadStage::Bit(0), PinWait::new(15, Level::High, Level::Low, RULES))
    );
    assert_eq!(seen[3], ReadCommand::Sample(14));
    let n = seen.len();
    assert_eq!(seen[n - 1], ReadCommand::Finished);
    assert_eq!(seen[n - 2], ReadCommand::Write(PinWrite { pin: 23, level: Level::Low }));
    assert_eq!(
        seen[n - 3],
        ReadCommand::Await(ReadStage::Completion, PinWait::new(15, Level::Low, Level::Low, RULES))
    );
    assert_eq!(n, 2 + 2 * 24 + 3);
}

#[test]
fn a_read_without_release_finishes_on_completion() {
    let levels = vec![Some(Level::High); 24];
    let mut r = FrameReader::new(ReaderConfig {
        complete_from: Level::High,
        release_after: false,
        ..config()
    });
    let seen = run(&mut r, &levels);
    assert_eq!(r.phase, ReadPhase::Finished);
    assert_eq!(r.bytes(), vec![0xff, 0xff, 0xff]);
    let n = seen.len();
    assert_eq!(n, 2 + 2 * 24 + 2);
    assert_eq!(seen[n - 1], ReadCommand::Finished);
    assert_eq!(
        seen[n - 2],
        ReadCommand::Await(ReadStage::Completion, PinWait::new(15, Level::High, Level::Low, RULES))
    );
    assert!(seen[1..].iter().all(|c| !matches!(c, ReadCommand::Write(_))));
}

#[test]
fn a_missed_clock_edge_leaves_its_bit_off() {
    let mut levels = vec![Some(Level::High); 24];
    levels[1] = None;
    levels[20] = None;
    let mut r = FrameReader::new(config());
    run(&mut r, &levels);
    assert_eq!(r.phase, ReadPhase::Finished);
    assert_eq!(r.bytes(), vec![0b1011_1111, 0xff, 0b1111_0111]);
}

#[test]
fn an_unaccepted_request_aborts() {
    let mut r = FrameReader::new(config());
    r.advance(ReadEvent::Written);
    r.advance(ReadEvent::WaitFailed(WaitError::StartTimeout));
    assert_eq!(r.command(), ReadCommand::Aborted(ReadFailure::Request(WaitError::StartTimeout)));
    r.advance(ReadEvent::WaitSucceeded);
    assert_eq!(r.phase, ReadPhase::Aborted(ReadFailure::Request(WaitError::StartTimeout)));
    assert_eq!(r.bytes(), vec![0, 0, 0]);
}

#[test]
fn an_incomplete_transfer_aborts() {
    let levels = vec![Some(Level::High); 24];
    let mut r = FrameReader::new(ReaderConfig { complete_from: Level::High, ..config() });
    for _ in 0..(2 + 2 * 24) {
        let c = r.command();
        let e = match c {
            ReadCommand::Write(_) => ReadEvent::Written,
            ReadCommand::Sample(_) => ReadEvent::Sampled(Level::High),
            _ => ReadEvent::WaitSucceeded,
        };
        r.advance(e);
    }
    assert_eq!(
        r.command(),
        ReadCommand::Await(ReadStage::Completion, PinWait::new(15, Level::High, Level::Low, RULES))
    );
    r.advance(ReadEvent::WaitFailed(WaitError::ChangeTimeout));
    assert_eq!(r.phase, ReadPhase::Aborted(ReadFailure::Completion(WaitError::ChangeTimeout)));
    let _ = levels;
}

#[test]
fn unexpected_events_are_ignored() {
    let mut r = FrameReader::new(config());
    r.advance(ReadEvent::Sampled(Level::High));
    r.advance(ReadEvent::WaitSucceeded);
    assert_eq!(r.phase, ReadPhase::Requesting);
    assert_eq!(r.bytes(), vec![0, 0, 0]);
}
