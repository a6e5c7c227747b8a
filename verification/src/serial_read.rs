//! One read of the sensor shift register: request the data by raising the
//! request line, wait until the register accepts, take in twenty-four bits,
//! each on a falling clock edge, wait until the register completes, and,
//! where the configuration asks for it, lower the request line. Every wait
//! of the read, the acceptance and the completion too, watches the clock
//! line. A bit whose clock edge does not come stays off; a request that is
//! not accepted, or a transfer that does not complete, aborts the read.

use vstd::prelude::*;

verus! {

use crate::pins::{Level, PinWrite, write_of};
use crate::pin_wait::{PinWait, WaitError, WaitPhase, WaitRules};
use crate::frame_bits::{FrameBits, pack_bytes};

/// The number of bits in one frame read from the sensor register.
pub const READ_BITS: usize = 24;

/// The pins of the input shift register.
#[derive(Clone, Copy, Debug, PartialEq, Eq, Structural)]
pub struct ReaderPins {
    /// The data line, sampled once per bit.
    pub data: u8,
    /// The clock line; a bit is ready on its falling edge.
    pub clock: u8,
    /// The line on which the register answers a request; the read waits
    /// for the answers by watching the clock line.
    pub latch_in: u8,
    /// The line on which a read is requested.
    pub latch_out: u8,
}

/// How a read is carried out.
#[derive(Clone, Copy, Debug, PartialEq, Eq, Structural)]
pub struct ReaderConfig {
    pub pins: ReaderPins,
    /// The rules of every wait of the read.
    pub rules: WaitRules,
    /// The level the answer line starts from when the register completes.
    pub complete_from: Level,
    /// Lower the request line once the register has completed, before the
    /// frame is handed over.
    pub release_after: bool,
}

/// Why a read was aborted.
#[derive(Clone, Copy, Debug, PartialEq, Eq, Structural)]
pub enum ReadFailure {
    /// The register did not accept the request.
    Request(WaitError),
    /// The register did not complete the transfer.
    Completion(WaitError),
}

/// Which wait of the read is meant.
#[derive(Clone, Copy, Debug, PartialEq, Eq, Structural)]
pub enum ReadStage {
    Request,
    Bit(usize),
    Completion,
}

/// Where a read stands.
#[derive(Clone, Copy, Debug, PartialEq, Eq, Structural)]
pub enum ReadPhase {
    Requesting,
    Accepting,
    BitClock(usize),
    BitSample(usize),
    Completing,
    Releasing,
    Finished,
    Aborted(ReadFailure),
}

/// What the caller does next.
#[derive(Clone, Copy, Debug, PartialEq, Eq, Structural)]
pub enum ReadCommand {
    /// Write the level to the pin, then report `Written`.
    Write(PinWrite),
    /// Run the wait, then report how it ended.
    Await(ReadStage, PinWait),
    /// Read the pin, then report its level.
    Sample(u8),
    /// The frame is complete.
    Finished,
    /// The read was aborted.
    Aborted(ReadFailure),
}

/// What the caller reports back.
#[derive(Clone, Copy, Debug, PartialEq, Eq, Structural)]
pub enum ReadEvent {
    Written,
    WaitSucceeded,
    WaitFailed(WaitError),
    Sampled(Level),
}

/// A read in progress.
pub struct FrameReader {
    pub config: ReaderConfig,
    pub phase: ReadPhase,
    pub frame: FrameBits,
}

/// A fresh wait for `pin` to change from `from` to `to` under `rules`.
pub open spec fn wait_for(pin: u8, from: Level, to: Level, rules: WaitRules) -> PinWait {
    PinWait { pin, from, to, rules, phase: WaitPhase::AwaitFrom }
}

/// The phase that comes after bit `i`: the next bit, or the completion.
pub open spec fn after_bit(i: usize) -> ReadPhase {
    if i + 1 < READ_BITS {
        ReadPhase::BitClock((i + 1) as usize)
    } else {
        ReadPhase::Completing
    }
}

/// The command of phase `phase`.
pub open spec fn command_of(config: ReaderConfig, phase: ReadPhase) -> ReadCommand {
    let pins = config.pins;
    match phase {
        ReadPhase::Requesting => ReadCommand::Write(write_of(pins.latch_out, Level::High)),
        ReadPhase::Accepting => ReadCommand::Await(
            ReadStage::Request,
            wait_for(pins.clock, Level::Low, Level::High, config.rules),
        ),
        ReadPhase::BitClock(i) => ReadCommand::Await(
            ReadStage::Bit(i),
            wait_for(pins.clock, Level::High, Level::Low, config.rules),
        ),
        ReadPhase::BitSample(_) => ReadCommand::Sample(pins.data),
        ReadPhase::Completing => ReadCommand::Await(
            ReadStage::Completion,
            wait_for(pins.clock, config.complete_from, Level::Low, config.rules),
        ),
        ReadPhase::Releasing => ReadCommand::Write(write_of(pins.latch_out, Level::Low)),
        ReadPhase::Finished => ReadCommand::Finished,
        ReadPhase::Aborted(f) => ReadCommand::Aborted(f),
    }
}

/// The phase after `event` in `phase`, where `release_after` says whether
/// the request line is lowered after completion; an event that does not
/// answer the phase's command leaves the phase as it is.
pub open spec fn next_phase(release_after: bool, phase: ReadPhase, event: ReadEvent) -> ReadPhase {
    match (phase, event) {
        (ReadPhase::Requesting, ReadEvent::Written) => ReadPhase::Accepting,
        (ReadPhase::Accepting, ReadEvent::WaitSucceeded) => ReadPhase::BitClock(0),
        (ReadPhase::Accepting, ReadEvent::WaitFailed(e)) => ReadPhase::Aborted(
            ReadFailure::Request(e),
        ),
        (ReadPhase::BitClock(i), ReadEvent::WaitSucceeded) => ReadPhase::BitSample(i),
        (ReadPhase::BitClock(i), ReadEvent::WaitFailed(_)) => after_bit(i),
        (ReadPhase::BitSample(i), ReadEvent::Sampled(_)) => after_bit(i),
        (ReadPhase::Completing, ReadEvent::WaitSucceeded) => if release_after {
            ReadPhase::Releasing
        } else {
            ReadPhase::Finished
        },
        (ReadPhase::Completing, ReadEvent::WaitFailed(e)) => ReadPhase::Aborted(
            ReadFailure::Completion(e),
        ),
        (ReadPhase::Releasing, ReadEvent::Written) => ReadPhase::Finished,
        _ => phase,
    }
}

/// The frame after `event` in `phase`: a sample sets the bit being read,
/// high meaning on; nothing else touches the frame.
pub open spec fn next_frame(frame: Seq<bool>, phase: ReadPhase, event: ReadEvent) -> Seq<bool> {
    match (phase, event) {
        (ReadPhase::BitSample(i), ReadEvent::Sampled(l)) => frame.update(i as int, l == Level::High),
        _ => frame,
    }
}

/// The bit indices a phase names are within the frame.
pub open spec fn phase_in_range(phase: ReadPhase) -> bool {
    match phase {
        ReadPhase::BitClock(i) => i < READ_BITS,
        ReadPhase::BitSample(i) => i < READ_BITS,
        _ => true,
    }
}

impl FrameReader {
    /// The frame holds twenty-four bits and the phase names a bit inside it.
    pub open spec fn wf(&self) -> bool {
        &&& self.frame@.len() == READ_BITS
        &&& phase_in_range(self.phase)
    }

    /// A read that has not started: all bits off, the request still to be
    /// made.
    pub fn new(config: ReaderConfig) -> (r: FrameReader)
        ensures
            r.wf(),
            r.config == config,
            r.phase == ReadPhase::Requesting,
            r.frame@ == Seq::new(READ_BITS as nat, |_i: int| false),
    {
        FrameReader { config, phase: ReadPhase::Requesting, frame: FrameBits::new(READ_BITS) }
    }

    /// What the caller does next.
    pub fn command(&self) -> (c: ReadCommand)
        ensures
            c == command_of(self.config, self.phase),
    {
        let pins = self.config.pins;
        let rules = self.config.rules;
        match self.phase {
            ReadPhase::Requesting => ReadCommand::Write(
                PinWrite { pin: pins.latch_out, level: Level::High },
            ),
            ReadPhase::Accepting => ReadCommand::Await(
                ReadStage::Request,
                PinWait::new(pins.clock, Level::Low, Level::High, rules),
            ),
            ReadPhase::BitClock(i) => ReadCommand::Await(
                ReadStage::Bit(i),
                PinWait::new(pins.clock, Level::High, Level::Low, rules),
            ),
            ReadPhase::BitSample(_) => ReadCommand::Sample(pins.data),
            ReadPhase::Completing => ReadCommand::Await(
                ReadStage::Completion,
                PinWait::new(pins.clock, self.config.complete_from, Level::Low, rules),
            ),
            ReadPhase::Releasing => ReadCommand::Write(
                PinWrite { pin: pins.latch_out, level: Level::Low },
            ),
            ReadPhase::Finished => ReadCommand::Finished,
            ReadPhase::Aborted(f) => ReadCommand::Aborted(f),
        }
    }

    /// Takes in how the last command went.
    pub fn advance(&mut self, event: ReadEvent)
        requires
            old(self).wf(),
        ensures
            final(self).wf(),
            final(self).config == old(self).config,
            final(self).phase == next_phase(old(self).config.release_after, old(self).phase, event),
            final(self).frame@ == next_frame(old(self).frame@, old(self).phase, event),
            forall|e: WaitError|
                old(self).phase == ReadPhase::Completing && event == ReadEvent::WaitFailed(e)
                    ==> #[trigger] final(self).phase == ReadPhase::Aborted(ReadFailure::Completion(e)),
            forall|e: WaitError|
                old(self).phase == ReadPhase::Accepting && event == ReadEvent::WaitFailed(e)
                    ==> #[trigger] final(self).phase == ReadPhase::Aborted(ReadFailure::Request(e)),
            final(self).phase == ReadPhase::Finished ==> old(self).phase == ReadPhase::Finished || (
            old(self).phase == ReadPhase::Completing && event == ReadEvent::WaitSucceeded) || (
            old(self).phase == ReadPhase::Releasing && event == ReadEvent::Written),
    {
        proof {
            lemma_failed_wait_aborts(old(self).config.release_after, (old(self).phase, old(self).frame@), event);
        }
        let next = match (self.phase, event) {
            (ReadPhase::Requesting, ReadEvent::Written) => ReadPhase::Accepting,
            (ReadPhase::Accepting, ReadEvent::WaitSucceeded) => ReadPhase::BitClock(0),
            (ReadPhase::Accepting, ReadEvent::WaitFailed(e)) => ReadPhase::Aborted(
                ReadFailure::Request(e),
            ),
            (ReadPhase::BitClock(i), ReadEvent::WaitSucceeded) => ReadPhase::BitSample(i),
            (ReadPhase::BitClock(i), ReadEvent::WaitFailed(_)) => Self::after_bit(i),
            (ReadPhase::BitSample(i), ReadEvent::Sampled(l)) => {
                self.frame.set(i, l == Level::High);
                Self::after_bit(i)
            },
            (ReadPhase::Completing, ReadEvent::WaitSucceeded) => if self.config.release_after {
                ReadPhase::Releasing
            } else {
                ReadPhase::Finished
            },
            (ReadPhase::Completing, ReadEvent::WaitFailed(e)) => ReadPhase::Aborted(
                ReadFailure::Completion(e),
            ),
            (ReadPhase::Releasing, ReadEvent::Written) => ReadPhase::Finished,
            _ => self.phase,
        };
        self.phase = next;
    }

    fn after_bit(i: usize) -> (p: ReadPhase)
        requires
            i < READ_BITS,
        ensures
            p == after_bit(i),
            phase_in_range(p),
    {
        if i + 1 < READ_BITS {
            ReadPhase::BitClock(i + 1)
        } else {
            ReadPhase::Completing
        }
    }

    /// The frame read so far, packed into bytes with the first bit in the
    /// high-order position of the first byte.
    pub fn bytes(&self) -> (bytes: Vec<u8>)
        ensures
            bytes@ == pack_bytes(self.frame@),
    {
        self.frame.to_bytes()
    }
}

/// One step of a read, on its phase and its frame.
pub open spec fn read_step(release_after: bool, s: (ReadPhase, Seq<bool>), event: ReadEvent) -> (
    ReadPhase,
    Seq<bool>,
) {
    (next_phase(release_after, s.0, event), next_frame(s.1, s.0, event))
}

/// The phase and frame after the events, in order.
pub open spec fn replay_read(release_after: bool, s: (ReadPhase, Seq<bool>), events: Seq<ReadEvent>) -> (
    ReadPhase,
    Seq<bool>,
)
    decreases events.len(),
{
    if events.len() == 0 {
        s
    } else {
        read_step(release_after, replay_read(release_after, s, events.drop_last()), events.last())
    }
}

/// The events that report one bit: the level sampled after its clock edge,
/// or the error of a clock wait that gave up.
pub open spec fn outcome_events(outcome: Result<Level, WaitError>) -> Seq<ReadEvent> {
    match outcome {
        Ok(l) => seq![ReadEvent::WaitSucceeded, ReadEvent::Sampled(l)],
        Err(e) => seq![ReadEvent::WaitFailed(e)],
    }
}

/// The events that report the bits, in order.
pub open spec fn bit_events(outcomes: Seq<Result<Level, WaitError>>) -> Seq<ReadEvent>
    decreases outcomes.len(),
{
    if outcomes.len() == 0 {
        Seq::empty()
    } else {
        bit_events(outcomes.drop_last()) + outcome_events(outcomes.last())
    }
}

/// The events after the bits of a read that completes: the completion, and
/// the write that lowers the request line where the read releases it.
pub open spec fn completion_events(release_after: bool) -> Seq<ReadEvent> {
    if release_after {
        seq![ReadEvent::WaitSucceeded, ReadEvent::Written]
    } else {
        seq![ReadEvent::WaitSucceeded]
    }
}

/// The events of a read that is accepted and completed: the request is
/// written, accepted, the bits come in, the transfer completes and, where
/// the read releases it, the request line is lowered.
pub open spec fn read_events(release_after: bool, outcomes: Seq<Result<Level, WaitError>>) -> Seq<
    ReadEvent,
> {
    seq![ReadEvent::Written, ReadEvent::WaitSucceeded] + bit_events(outcomes) + completion_events(
        release_after,
    )
}

/// The bit a read keeps for one outcome: on when a high level was sampled,
/// off when the level was low or the clock edge never came.
pub open spec fn outcome_bit(outcome: Result<Level, WaitError>) -> bool {
    match outcome {
        Ok(l) => l == Level::High,
        Err(_) => false,
    }
}

proof fn lemma_replay_append(
    release_after: bool,
    s: (ReadPhase, Seq<bool>),
    a: Seq<ReadEvent>,
    b: Seq<ReadEvent>,
)
    ensures
        replay_read(release_after, s, a + b) == replay_read(
            release_after,
            replay_read(release_after, s, a),
            b,
        ),
    decreases b.len(),
{
    if b.len() == 0 {
        assert(a + b =~= a);
    } else {
        lemma_replay_append(release_after, s, a, b.drop_last());
        assert((a + b).drop_last() =~= a + b.drop_last());
        assert((a + b).last() == b.last());
    }
}

proof fn lemma_replay_bits(release_after: bool, outcomes: Seq<Result<Level, WaitError>>, k: int)
    requires
        outcomes.len() == READ_BITS,
        0 <= k <= READ_BITS,
    ensures
        replay_read(
            release_after,
            (ReadPhase::BitClock(0), Seq::new(READ_BITS as nat, |_i: int| false)),
            bit_events(outcomes.take(k)),
        ) == (
            if k < READ_BITS { ReadPhase::BitClock(k as usize) } else { ReadPhase::Completing },
            Seq::new(
                READ_BITS as nat,
                |i: int| if i < k { outcome_bit(outcomes[i]) } else { false },
            ),
        ),
    decreases k,
{
    let start = (ReadPhase::BitClock(0), Seq::new(READ_BITS as nat, |_i: int| false));
    if k == 0 {
        assert(outcomes.take(0) =~= Seq::<Result<Level, WaitError>>::empty());
        assert(Seq::new(READ_BITS as nat, |i: int| if i < k { outcome_bit(outcomes[i]) } else { false })
            =~= Seq::new(READ_BITS as nat, |_i: int| false));
    } else {
        lemma_replay_bits(release_after, outcomes, k - 1);
        let o = outcomes[k - 1];
        assert(outcomes.take(k).drop_last() =~= outcomes.take(k - 1));
        assert(outcomes.take(k).last() == o);
        lemma_replay_append(release_after, start, bit_events(outcomes.take(k - 1)), outcome_events(o));
        let prev = replay_read(release_after, start, bit_events(outcomes.take(k - 1)));
        let target = Seq::new(
            READ_BITS as nat,
            |i: int| if i < k { outcome_bit(outcomes[i]) } else { false },
        );
        match o {
            Ok(l) => {
                let evs = seq![ReadEvent::WaitSucceeded, ReadEvent::Sampled(l)];
                assert(evs.drop_last() =~= seq![ReadEvent::WaitSucceeded]);
                assert(seq![ReadEvent::WaitSucceeded].drop_last() =~= Seq::<ReadEvent>::empty());
                reveal_with_fuel(replay_read, 3);
                assert(replay_read(release_after, prev, evs).1 =~= target);
            },
            Err(e) => {
                let evs = seq![ReadEvent::WaitFailed(e)];
                assert(evs.drop_last() =~= Seq::<ReadEvent>::empty());
                reveal_with_fuel(replay_read, 2);
                assert(replay_read(release_after, prev, evs).1 =~= target);
            },
        }
    }
}

/// What a read gives back is what was on the data line: a read that is
/// accepted and completed ends `Finished`, and bit `i` of its frame is on
/// exactly when a high level was sampled after the `i`-th clock edge (a bit
/// whose clock edge never came stays off).
pub proof fn lemma_read_returns_sampled_bits(
    release_after: bool,
    outcomes: Seq<Result<Level, WaitError>>,
)
    requires
        outcomes.len() == READ_BITS,
    ensures
        replay_read(
            release_after,
            (ReadPhase::Requesting, Seq::new(READ_BITS as nat, |_i: int| false)),
            read_events(release_after, outcomes),
        ) == (
            ReadPhase::Finished,
            Seq::new(READ_BITS as nat, |i: int| outcome_bit(outcomes[i])),
        ),
{
    let zeros = Seq::new(READ_BITS as nat, |_i: int| false);
    let head = seq![ReadEvent::Written, ReadEvent::WaitSucceeded];
    let tail = completion_events(release_after);
    let bits = bit_events(outcomes);
    assert(head.drop_last() =~= seq![ReadEvent::Written]);
    assert(seq![ReadEvent::Written].drop_last() =~= Seq::<ReadEvent>::empty());
    assert(seq![ReadEvent::WaitSucceeded, ReadEvent::Written].drop_last() =~= seq![
        ReadEvent::WaitSucceeded,
    ]);
    assert(seq![ReadEvent::WaitSucceeded].drop_last() =~= Seq::<ReadEvent>::empty());
    reveal_with_fuel(replay_read, 3);
    let s0 = (ReadPhase::Requesting, zeros);
    assert(replay_read(release_after, s0, head) == (ReadPhase::BitClock(0), zeros));
    lemma_replay_bits(release_after, outcomes, READ_BITS as int);
    assert(outcomes.take(READ_BITS as int) =~= outcomes);
    lemma_replay_append(release_after, s0, head, bits);
    lemma_replay_append(release_after, s0, head + bits, tail);
    let full = Seq::new(READ_BITS as nat, |i: int| outcome_bit(outcomes[i]));
    assert(Seq::new(
        READ_BITS as nat,
        |i: int| if i < READ_BITS { outcome_bit(outcomes[i]) } else { false },
    ) =~= full);
    assert(replay_read(release_after, (ReadPhase::Completing, full), tail) == (
        ReadPhase::Finished,
        full,
    ));
}

/// A read that has finished or been aborted stays so, with its frame
/// unchanged, whatever is reported afterwards.
pub proof fn lemma_read_end_is_final(release_after: bool, s: (ReadPhase, Seq<bool>), event: ReadEvent)
    requires
        s.0 is Finished || s.0 is Aborted,
    ensures
        read_step(release_after, s, event) == s,
{
}

/// A request that the register does not accept aborts the read with the
/// error of the wait, and the frame stays all off.
pub proof fn lemma_refused_request_aborts(release_after: bool, e: WaitError)
    ensures
        replay_read(
            release_after,
            (ReadPhase::Requesting, Seq::new(READ_BITS as nat, |_i: int| false)),
            seq![ReadEvent::Written, ReadEvent::WaitFailed(e)],
        ) == (
            ReadPhase::Aborted(ReadFailure::Request(e)),
            Seq::new(READ_BITS as nat, |_i: int| false),
        ),
{
    let evs = seq![ReadEvent::Written, ReadEvent::WaitFailed(e)];
    assert(evs.drop_last() =~= seq![ReadEvent::Written]);
    assert(seq![ReadEvent::Written].drop_last() =~= Seq::<ReadEvent>::empty());
    reveal_with_fuel(replay_read, 3);
}

/// Whatever the configuration, a completion wait that fails aborts the read
/// with that error and keeps the frame, and so does a failed wait for the
/// register to accept the request; the read finishes only from a finished
/// read, a completion wait that succeeded, or the write that lowers the
/// request line.
pub proof fn lemma_failed_wait_aborts(release_after: bool, s: (ReadPhase, Seq<bool>), event: ReadEvent)
    ensures
        forall|e: WaitError|
            s.0 == ReadPhase::Completing && event == ReadEvent::WaitFailed(e) ==> #[trigger] read_step(
                release_after,
                s,
                event,
            ) == (ReadPhase::Aborted(ReadFailure::Completion(e)), s.1) && read_step(
                release_after,
                s,
                ReadEvent::WaitFailed(e),
            ).0 == ReadPhase::Aborted(ReadFailure::Completion(e)),
        forall|e: WaitError|
            s.0 == ReadPhase::Accepting && event == ReadEvent::WaitFailed(e) ==> #[trigger] read_step(
                release_after,
                s,
                event,
            ) == (ReadPhase::Aborted(ReadFailure::Request(e)), s.1) && read_step(
                release_after,
                s,
                ReadEvent::WaitFailed(e),
            ).0 == ReadPhase::Aborted(ReadFailure::Request(e)),
        read_step(release_after, s, event).0 == ReadPhase::Finished ==> s.0 == ReadPhase::Finished
            || (s.0 == ReadPhase::Completing && event == ReadEvent::WaitSucceeded) || (s.0
            == ReadPhase::Releasing && event == ReadEvent::Written),
        read_step(release_after, s, event).0 == ReadPhase::Releasing ==> s.0 == ReadPhase::Releasing
            || (s.0 == ReadPhase::Completing && event == ReadEvent::WaitSucceeded),
{
}

/// A read reaches `Finished` only through a completion wait that succeeded:
/// over any events, from any phase before the completion, a replay that ends
/// finished (or releasing the request line) passed through `Completing` and
/// took a `WaitSucceeded` there.
pub proof fn lemma_finish_needs_completion(
    release_after: bool,
    s: (ReadPhase, Seq<bool>),
    events: Seq<ReadEvent>,
)
    requires
        s.0 != ReadPhase::Finished,
        s.0 != ReadPhase::Releasing,
        replay_read(release_after, s, events).0 == ReadPhase::Finished || replay_read(
            release_after,
            s,
            events,
        ).0 == ReadPhase::Releasing,
    ensures
        exists|i: int|
            0 <= i < events.len() && #[trigger] replay_read(release_after, s, events.take(i)).0
                == ReadPhase::Completing && events[i] == ReadEvent::WaitSucceeded,
    decreases events.len(),
{
    if events.len() == 0 {
        assert(false);
    } else {
        let rest = events.drop_last();
        let n = events.len() - 1;
        let prev = replay_read(release_after, s, rest);
        lemma_failed_wait_aborts(release_after, prev, events.last());
        if prev.0 == ReadPhase::Finished || prev.0 == ReadPhase::Releasing {
            lemma_finish_needs_completion(release_after, s, rest);
            let i = choose|i: int|
                0 <= i < rest.len() && #[trigger] replay_read(release_after, s, rest.take(i)).0
                    == ReadPhase::Completing && rest[i] == ReadEvent::WaitSucceeded;
            assert(rest.take(i) =~= events.take(i));
            assert(events[i] == rest[i]);
        } else {
            assert(events.take(n) =~= rest);
            assert(events[n] == events.last());
        }
    }
}

} // verus!
