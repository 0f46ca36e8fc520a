//! The timed-pin bit decoder of the humidity and temperature sensor.
//!
//! One read of the sensor is a fixed conversation on a single line: the host
//! wakes the sensor, waits for its handshake, and then times forty pulses whose
//! widths carry the data bits. The conversation is modelled as a state machine
//! that never touches the hardware. It names the next [`Command`] for the host
//! to perform and takes the [`Reply`] the hardware gave; from these alone it
//! decides how the read goes on, and in the end yields the raw frame or the
//! reason the read failed.

use vstd::prelude::*;
use crate::dht22::DhtError;

verus! {

/// How long the host holds the line low to wake the sensor, in microseconds.
pub const WAKE_LOW_US: u32 = 3000;

/// How long the host waits after releasing the line before it samples.
pub const REQUEST_SETTLE_US: u32 = 25;

/// Bound on each half of the sensor's handshake, in microseconds.
pub const HANDSHAKE_TIMEOUT_US: u32 = 85;

/// Bound on the wait for a data pulse to begin.
pub const BIT_START_TIMEOUT_US: u32 = 55;

/// Bound on the width of a data pulse.
pub const BIT_END_TIMEOUT_US: u32 = 70;

/// A pulse wider than this many microseconds is a one, any other a zero.
pub const ONE_THRESHOLD_US: u32 = 30;

/// The pause between two samples of the line.
pub const POLL_INTERVAL_US: u32 = 1;

/// Number of data bits in one frame.
pub const FRAME_BITS: u8 = 40;

/// The observable signal on the line.
#[derive(Debug, Clone, Copy, PartialEq, Eq)]
pub enum PinLevel {
    High,
    Low,
}

/// What the host must do next.
#[derive(Debug, Clone, Copy, PartialEq, Eq)]
pub enum Command {
    /// Drive the line low.
    SetLow,
    /// Release the line to its pull-up.
    SetHigh,
    /// Block for this many microseconds.
    Delay(u32),
    /// Sample the line once: is it at this level?
    Sample(PinLevel),
}

/// What came of the command the host performed.
#[derive(Debug, PartialEq, Eq)]
pub enum Reply<E> {
    /// The line was driven, or the delay has passed.
    Done,
    /// The line was sampled: whether it was at the level asked for.
    Level(bool),
    /// The line reported a fault.
    Fault(E),
}

/// The steps of one read, in the order they are taken.
#[derive(Debug, Clone, Copy, PartialEq, Eq)]
pub enum Stage {
    /// The host is about to pull the line low.
    Wake,
    /// The host holds the line low.
    WakeHold,
    /// The host is about to release the line.
    Request,
    /// The host lets the line settle.
    RequestHold,
    /// The host waits for the sensor to raise the line.
    PresenceHigh,
    /// The host waits for the sensor to lower the line again.
    PresenceLow,
    /// The host waits for the next data pulse to begin.
    BitStart,
    /// The host times the data pulse.
    BitEnd,
}

impl Stage {
    /// Whether the host polls the line in this stage.
    pub open spec fn polls(self) -> bool {
        self is PresenceHigh || self is PresenceLow || self is BitStart || self is BitEnd
    }

    /// Whether the stage belongs to the handshake.
    pub open spec fn in_handshake(self) -> bool {
        self is PresenceHigh || self is PresenceLow
    }

    /// Whether the stage belongs to the reading of a data bit.
    pub open spec fn in_bit(self) -> bool {
        self is BitStart || self is BitEnd
    }

    /// The level a polling stage waits for.
    pub open spec fn level(self) -> PinLevel {
        if self is PresenceLow || self is BitEnd {
            PinLevel::Low
        } else {
            PinLevel::High
        }
    }

    /// The elapsed time at which a polling stage gives up, in microseconds.
    pub open spec fn timeout(self) -> nat {
        match self {
            Stage::PresenceHigh | Stage::PresenceLow => HANDSHAKE_TIMEOUT_US as nat,
            Stage::BitStart => BIT_START_TIMEOUT_US as nat,
            Stage::BitEnd => BIT_END_TIMEOUT_US as nat,
            _ => 0,
        }
    }

    /// The failure a polling stage reports when it gives up: a silent handshake
    /// means that no sensor is attached, a silent data bit that the read timed
    /// out.
    pub open spec fn timeout_error<E>(self) -> DhtError<E> {
        if self.in_bit() {
            DhtError::ReadTimeout
        } else {
            DhtError::NotFoundOnGPio
        }
    }

    /// How many later stages a read can still pass through, given the number
    /// of bits it has decoded.
    pub open spec fn stages_left(self, bits: nat) -> nat {
        match self {
            Stage::Wake => 85,
            Stage::WakeHold => 84,
            Stage::Request => 83,
            Stage::RequestHold => 82,
            Stage::PresenceHigh => 81,
            Stage::PresenceLow => 80,
            Stage::BitStart => (79 - 2 * bits) as nat,
            Stage::BitEnd => (78 - 2 * bits) as nat,
        }
    }
}

/// The value of bit `index` of a bit sequence as a number; bits not yet
/// received count as zero.
pub open spec fn bit_value(bits: Seq<bool>, index: int) -> int {
    if 0 <= index < bits.len() && bits[index] {
        1
    } else {
        0
    }
}

/// Byte `k` of the frame that a bit sequence packs to: eight consecutive
/// bits, the first received being the most significant.
#[verifier::opaque]
pub open spec fn packed_byte(bits: Seq<bool>, k: int) -> int {
    128 * bit_value(bits, 8 * k) + 64 * bit_value(bits, 8 * k + 1) + 32 * bit_value(
        bits,
        8 * k + 2,
    ) + 16 * bit_value(bits, 8 * k + 3) + 8 * bit_value(bits, 8 * k + 4) + 4 * bit_value(
        bits,
        8 * k + 5,
    ) + 2 * bit_value(bits, 8 * k + 6) + bit_value(bits, 8 * k + 7)
}

/// The five-byte frame that a bit sequence packs to: bit `i` lands in byte
/// `i / 8` at position `7 - i % 8`.
pub open spec fn packed(bits: Seq<bool>) -> Seq<u8> {
    Seq::new(5, |k: int| packed_byte(bits, k) as u8)
}

/// The state of one read: where it stands and what it has measured.
pub struct ReaderState {
    /// The step the read is in.
    pub stage: Stage,
    /// In a polling stage: whether the last sample missed and the pause
    /// before the next sample is still to come.
    pub resting: bool,
    /// In a polling stage: the pauses taken so far, in microseconds.
    pub elapsed: nat,
    /// The data bits decoded so far, in the order received.
    pub bits: Seq<bool>,
}

/// Where a read stands after a reply.
pub enum Outcome<E> {
    /// The read goes on from this state.
    Continue(ReaderState),
    /// All forty bits are in: the raw frame, not yet validated.
    Frame(Seq<u8>),
    /// The read is abandoned; no part of the frame is kept.
    Failed(DhtError<E>),
}

/// Whether a reply is one that the command can have: a sample answers with a
/// level, the other commands with their completion, and each may fault.
pub open spec fn answers<E>(command: Command, reply: Reply<E>) -> bool {
    match reply {
        Reply::Done => !(command is Sample),
        Reply::Level(_) => command is Sample,
        Reply::Fault(_) => true,
    }
}

impl ReaderState {
    /// The state a read begins in.
    pub open spec fn initial() -> ReaderState {
        ReaderState::enter(Stage::Wake, Seq::empty())
    }

    /// The state at the beginning of a stage.
    pub open spec fn enter(stage: Stage, bits: Seq<bool>) -> ReaderState {
        ReaderState { stage, resting: false, elapsed: 0, bits }
    }

    /// The states a read can be in.
    pub open spec fn wf(self) -> bool {
        &&& self.bits.len() < FRAME_BITS
        &&& self.elapsed <= self.stage.timeout()
        &&& !self.stage.polls() ==> !self.resting
        &&& !self.stage.in_bit() ==> self.bits.len() == 0
    }

    /// The command the host must perform next.
    pub open spec fn command(self) -> Command {
        match self.stage {
            Stage::Wake => Command::SetLow,
            Stage::WakeHold => Command::Delay(WAKE_LOW_US),
            Stage::Request => Command::SetHigh,
            Stage::RequestHold => Command::Delay(REQUEST_SETTLE_US),
            _ => if self.resting {
                Command::Delay(POLL_INTERVAL_US)
            } else {
                Command::Sample(self.stage.level())
            },
        }
    }

    /// The state after a line write or a delay has completed. A pause that
    /// ends at the stage's timeout ends the read.
    pub open spec fn after_done<E>(self) -> Outcome<E> {
        match self.stage {
            Stage::Wake => Outcome::Continue(ReaderState::enter(Stage::WakeHold, self.bits)),
            Stage::WakeHold => Outcome::Continue(ReaderState::enter(Stage::Request, self.bits)),
            Stage::Request => Outcome::Continue(
                ReaderState::enter(Stage::RequestHold, self.bits),
            ),
            Stage::RequestHold => Outcome::Continue(
                ReaderState::enter(Stage::PresenceHigh, self.bits),
            ),
            _ => if self.elapsed >= self.stage.timeout() {
                Outcome::Failed(self.stage.timeout_error())
            } else {
                Outcome::Continue(
                    ReaderState { resting: false, elapsed: self.elapsed + 1, ..self },
                )
            },
        }
    }

    /// The state after the line was sampled. A miss is followed by a pause; a
    /// hit ends the stage, and at the end of a data pulse decides the bit by the
    /// time the pulse took.
    pub open spec fn after_sample<E>(self, hit: bool) -> Outcome<E> {
        if !hit {
            Outcome::Continue(ReaderState { resting: true, ..self })
        } else {
            match self.stage {
                Stage::PresenceHigh => Outcome::Continue(
                    ReaderState::enter(Stage::PresenceLow, self.bits),
                ),
                Stage::PresenceLow => Outcome::Continue(
                    ReaderState::enter(Stage::BitStart, self.bits),
                ),
                Stage::BitStart => Outcome::Continue(
                    ReaderState::enter(Stage::BitEnd, self.bits),
                ),
                _ => {
                    let bits = self.bits.push(self.elapsed > ONE_THRESHOLD_US);
                    if bits.len() == FRAME_BITS {
                        Outcome::Frame(packed(bits))
                    } else {
                        Outcome::Continue(ReaderState::enter(Stage::BitStart, bits))
                    }
                },
            }
        }
    }

    /// The state after a reply. A fault ends the read; a reply that the pending
    /// command cannot have is ignored.
    pub open spec fn step<E>(self, reply: Reply<E>) -> Outcome<E> {
        if !answers(self.command(), reply) {
            Outcome::Continue(self)
        } else {
            match reply {
                Reply::Fault(fault) => Outcome::Failed(DhtError::PinError(fault)),
                Reply::Done => self.after_done(),
                Reply::Level(hit) => self.after_sample(hit),
            }
        }
    }

    /// An upper bound on the number of replies the read still needs.
    pub open spec fn budget(self) -> nat {
        200 * self.stage.stages_left(self.bits.len()) + if self.stage.polls() {
            2 * (self.stage.timeout() - self.elapsed) + if self.resting {
                1int
            } else {
                2int
            }
        } else {
            1int
        } as nat
    }
}

/// Where a read that begins in `state` stands after a sequence of replies.
/// Replies that come after the read has ended are not looked at.
pub open spec fn run<E>(state: ReaderState, replies: Seq<Reply<E>>) -> Outcome<E>
    decreases replies.len(),
{
    if replies.len() == 0 {
        Outcome::Continue(state)
    } else {
        match run(state, replies.drop_last()) {
            Outcome::Continue(reached) => reached.step(replies.last()),
            ended => ended,
        }
    }
}

impl Stage {
    /// The elapsed time at which a polling stage gives up.
    fn timeout_us(self) -> (limit: u32)
        ensures
            limit == self.timeout(),
    {
        match self {
            Stage::PresenceHigh | Stage::PresenceLow => HANDSHAKE_TIMEOUT_US,
            Stage::BitStart => BIT_START_TIMEOUT_US,
            Stage::BitEnd => BIT_END_TIMEOUT_US,
            _ => 0,
        }
    }

    /// The level a polling stage waits for.
    fn awaited(self) -> (level: PinLevel)
        ensures
            level == self.level(),
    {
        match self {
            Stage::PresenceLow | Stage::BitEnd => PinLevel::Low,
            _ => PinLevel::High,
        }
    }

    /// The failure a polling stage reports when it gives up.
    fn gives_up<E>(self) -> (error: DhtError<E>)
        ensures
            error == self.timeout_error::<E>(),
    {
        match self {
            Stage::BitStart | Stage::BitEnd => DhtError::ReadTimeout,
            _ => DhtError::NotFoundOnGPio,
        }
    }
}

/// One read of the sensor in progress: the state machine that the host steps
/// through, one command and one reply at a time.
pub struct PulseReader {
    stage: Stage,
    resting: bool,
    elapsed: u32,
    count: u8,
    frame: [u8; 5],
    bits: Ghost<Seq<bool>>,
}

impl View for PulseReader {
    type V = ReaderState;

    closed spec fn view(&self) -> ReaderState {
        ReaderState {
            stage: self.stage,
            resting: self.resting,
            elapsed: self.elapsed as nat,
            bits: self.bits@,
        }
    }
}

/// Where a read stands after a reply was taken.
pub enum Step<E> {
    /// The read goes on: ask this reader for the next command.
    Continue(PulseReader),
    /// All forty bits are in: the raw frame, not yet validated.
    Frame([u8; 5]),
    /// The read is abandoned.
    Failed(DhtError<E>),
}

impl<E> View for Step<E> {
    type V = Outcome<E>;

    open spec fn view(&self) -> Outcome<E> {
        match *self {
            Step::Continue(reader) => Outcome::Continue(reader@),
            Step::Frame(frame) => Outcome::Frame(frame@),
            Step::Failed(error) => Outcome::Failed(error),
        }
    }
}

/// The weight of the bit at position `shift` of a byte.
spec fn place(shift: u8) -> int {
    if shift == 0 {
        1
    } else if shift == 1 {
        2
    } else if shift == 2 {
        4
    } else if shift == 3 {
        8
    } else if shift == 4 {
        16
    } else if shift == 5 {
        32
    } else if shift == 6 {
        64
    } else {
        128
    }
}

/// Whether a byte has no bit set at position `shift` or below it.
spec fn vacant(byte: int, shift: u8) -> bool {
    if shift == 0 {
        byte % 2 == 0
    } else if shift == 1 {
        byte % 4 == 0
    } else if shift == 2 {
        byte % 8 == 0
    } else if shift == 3 {
        byte % 16 == 0
    } else if shift == 4 {
        byte % 32 == 0
    } else if shift == 5 {
        byte % 64 == 0
    } else if shift == 6 {
        byte % 128 == 0
    } else {
        byte == 0
    }
}

/// Setting a bit in a byte that is vacant from that bit down adds the bit's
/// weight.
proof fn lemma_set_bit(byte: u8, shift: u8)
    requires
        shift < 8,
        vacant(byte as int, shift),
    ensures
        (byte | (1u8 << shift)) == byte + place(shift),
{
    if shift == 0 {
        assert(byte % 2 == 0 ==> (byte | (1u8 << 0u8)) == byte + 1) by (bit_vector);
    } else if shift == 1 {
        assert(byte % 4 == 0 ==> (byte | (1u8 << 1u8)) == byte + 2) by (bit_vector);
    } else if shift == 2 {
        assert(byte % 8 == 0 ==> (byte | (1u8 << 2u8)) == byte + 4) by (bit_vector);
    } else if shift == 3 {
        assert(byte % 16 == 0 ==> (byte | (1u8 << 3u8)) == byte + 8) by (bit_vector);
    } else if shift == 4 {
        assert(byte % 32 == 0 ==> (byte | (1u8 << 4u8)) == byte + 16) by (bit_vector);
    } else if shift == 5 {
        assert(byte % 64 == 0 ==> (byte | (1u8 << 5u8)) == byte + 32) by (bit_vector);
    } else if shift == 6 {
        assert(byte % 128 == 0 ==> (byte | (1u8 << 6u8)) == byte + 64) by (bit_vector);
    } else {
        assert(byte == 0 ==> (byte | (1u8 << 7u8)) == byte + 128) by (bit_vector);
    }
}

/// What one more bit does to byte `k` of the packed frame: the byte the bit
/// lands in is vacant from the bit's position down and gains the bit's weight,
/// the others stay as they are.
proof fn lemma_packed_byte_push(bits: Seq<bool>, one: bool, k: int)
    requires
        bits.len() < FRAME_BITS,
        0 <= k < 5,
    ensures
        0 <= packed_byte(bits, k) <= 255,
        packed_byte(bits.push(one), k) == packed_byte(bits, k) + if one && k == bits.len() / 8 {
            place((7 - bits.len() % 8) as u8)
        } else {
            0
        },
        0 <= packed_byte(bits.push(one), k) <= 255,
        k == bits.len() / 8 ==> vacant(packed_byte(bits, k), (7 - bits.len() % 8) as u8),
{
    reveal(packed_byte);
    let more = bits.push(one);
    assert forall|i: int| 0 <= i < 40 implies bit_value(more, i) == #[trigger] bit_value(bits, i)
        + (if one && i == bits.len() {
        1int
    } else {
        0int
    }) by {
        if i < bits.len() {
            assert(more[i] == bits[i]);
        }
    }
}

/// What one more bit does to byte `k` of the frame: the byte the bit lands in
/// has the bit's place or-ed in, the others stay as they are.
proof fn lemma_packed_entry_push(bits: Seq<bool>, one: bool, k: int)
    requires
        bits.len() < FRAME_BITS,
        0 <= k < 5,
    ensures
        packed(bits.push(one))[k] == if one && k == bits.len() / 8 {
            packed(bits)[k] | (1u8 << ((7 - bits.len() % 8) as u8))
        } else {
            packed(bits)[k]
        },
{
    lemma_packed_byte_push(bits, one, k);
    if one && k == bits.len() / 8 {
        lemma_set_bit(packed(bits)[k], (7 - bits.len() % 8) as u8);
    }
}

/// Storing one more bit in the frame: or-ing its place into the byte it lands
/// in gives the frame that the longer bit sequence packs to.
proof fn lemma_push_packs(bits: Seq<bool>, one: bool, frame: Seq<u8>)
    requires
        bits.len() < FRAME_BITS,
        frame == packed(bits),
    ensures
        !one ==> packed(bits.push(one)) == frame,
        one ==> packed(bits.push(one)) == frame.update(
            bits.len() as int / 8,
            frame[bits.len() as int / 8] | (1u8 << ((7 - bits.len() % 8) as u8)),
        ),
{
    lemma_packed_entry_push(bits, one, 0);
    lemma_packed_entry_push(bits, one, 1);
    lemma_packed_entry_push(bits, one, 2);
    lemma_packed_entry_push(bits, one, 3);
    lemma_packed_entry_push(bits, one, 4);
    if one {
        let k = bits.len() as int / 8;
        let shift = (7 - bits.len() % 8) as u8;
        assert(packed(bits.push(one)) =~= frame.update(k, frame[k] | (1u8 << shift)));
    } else {
        assert(packed(bits.push(one)) =~= frame);
    }
}

/// The bits of a byte that is the weighted sum of eight binary digits are
/// these digits, the first at the top.
proof fn lemma_digits_of_sum(x: u8, b0: u8, b1: u8, b2: u8, b3: u8, b4: u8, b5: u8, b6: u8, b7: u8)
    by (bit_vector)
    requires
        b0 <= 1 && b1 <= 1 && b2 <= 1 && b3 <= 1 && b4 <= 1 && b5 <= 1 && b6 <= 1 && b7 <= 1,
        x == 128 * b0 + 64 * b1 + 32 * b2 + 16 * b3 + 8 * b4 + 4 * b5 + 2 * b6 + b7,
    ensures
        (x >> 7) & 1 == b0,
        (x >> 6) & 1 == b1,
        (x >> 5) & 1 == b2,
        (x >> 4) & 1 == b3,
        (x >> 3) & 1 == b4,
        (x >> 2) & 1 == b5,
        (x >> 1) & 1 == b6,
        (x >> 0) & 1 == b7,
{
}

/// Bits are packed most significant first: bit `i` of the sequence is the bit
/// at position `7 - i % 8` of byte `i / 8` of the frame.
pub proof fn law_packed_bit_position(bits: Seq<bool>, i: int)
    requires
        0 <= i < FRAME_BITS,
    ensures
        packed(bits).len() == 5,
        (packed(bits)[i / 8] >> ((7 - i % 8) as u8)) & 1 == bit_value(bits, i),
{
    reveal(packed_byte);
    let k = i / 8;
    lemma_digits_of_sum(
        packed(bits)[k],
        bit_value(bits, 8 * k) as u8,
        bit_value(bits, 8 * k + 1) as u8,
        bit_value(bits, 8 * k + 2) as u8,
        bit_value(bits, 8 * k + 3) as u8,
        bit_value(bits, 8 * k + 4) as u8,
        bit_value(bits, 8 * k + 5) as u8,
        bit_value(bits, 8 * k + 6) as u8,
        bit_value(bits, 8 * k + 7) as u8,
    );
}

impl PulseReader {
    #[verifier::type_invariant]
    spec fn inv(self) -> bool {
        &&& self@.wf()
        &&& self.count == self.bits@.len()
        &&& self.frame@ == packed(self.bits@)
    }

    /// The reader at the beginning of a stage.
    fn enter(stage: Stage, count: u8, frame: [u8; 5], bits: Ghost<Seq<bool>>) -> (reader: Self)
        requires
            ReaderState::enter(stage, bits@).wf(),
            count == bits@.len(),
            frame@ == packed(bits@),
        ensures
            reader@ == ReaderState::enter(stage, bits@),
    {
        PulseReader { stage, resting: false, elapsed: 0, count, frame, bits }
    }

    /// Begins a read: nothing has been sent to the sensor yet.
    pub fn start() -> (reader: Self)
        ensures
            reader@ == ReaderState::initial(),
            reader@.wf(),
    {
        let frame: [u8; 5] = [0; 5];
        proof {
            reveal(packed_byte);
            assert(frame@ =~= packed(Seq::empty()));
        }
        Self::enter(Stage::Wake, 0, frame, Ghost(Seq::empty()))
    }

    /// The command the host must perform next.
    pub fn command(&self) -> (command: Command)
        ensures
            command == self@.command(),
            self@.wf(),
    {
        proof {
            use_type_invariant(self);
        }
        match self.stage {
            Stage::Wake => Command::SetLow,
            Stage::WakeHold => Command::Delay(WAKE_LOW_US),
            Stage::Request => Command::SetHigh,
            Stage::RequestHold => Command::Delay(REQUEST_SETTLE_US),
            _ => if self.resting {
                Command::Delay(POLL_INTERVAL_US)
            } else {
                Command::Sample(self.stage.awaited())
            },
        }
    }

    /// Takes the reply to the pending command and says how the read goes on.
    ///
    /// A fault ends the read with the fault wrapped. A missed sample is followed
    /// by a pause of one microsecond; the pause that ends at the stage's timeout
    /// ends the read, during the handshake as a sensor not found, during the
    /// data bits as a read timeout. The pulse that ends bit forty completes the
    /// frame. A reply that the pending command cannot have changes nothing.
    pub fn advance<E>(self, reply: Reply<E>) -> (step: Step<E>)
        ensures
            step@ == self@.step(reply),
            step matches Step::Continue(next) ==> next@.wf(),
    {
        proof {
            use_type_invariant(&self);
        }
        match reply {
            Reply::Fault(fault) => Step::Failed(DhtError::PinError(fault)),
            Reply::Done => self.completed(),
            Reply::Level(hit) => self.sampled(hit),
        }
    }

    /// The read after a line write or a delay has completed.
    fn completed<E>(self) -> (step: Step<E>)
        ensures
            step@ == self@.step(Reply::<E>::Done),
            step matches Step::Continue(next) ==> next@.wf(),
    {
        proof {
            use_type_invariant(&self);
        }
        match self.stage {
            Stage::Wake => Step::Continue(
                Self::enter(Stage::WakeHold, self.count, self.frame, self.bits),
            ),
            Stage::WakeHold => Step::Continue(
                Self::enter(Stage::Request, self.count, self.frame, self.bits),
            ),
            Stage::Request => Step::Continue(
                Self::enter(Stage::RequestHold, self.count, self.frame, self.bits),
            ),
            Stage::RequestHold => Step::Continue(
                Self::enter(Stage::PresenceHigh, self.count, self.frame, self.bits),
            ),
            _ => if !self.resting {
                Step::Continue(self)
            } else if self.elapsed >= self.stage.timeout_us() {
                Step::Failed(self.stage.gives_up())
            } else {
                Step::Continue(
                    PulseReader {
                        stage: self.stage,
                        resting: false,
                        elapsed: self.elapsed + 1,
                        count: self.count,
                        frame: self.frame,
                        bits: self.bits,
                    },
                )
            },
        }
    }

    /// The read after the line was sampled.
    fn sampled<E>(self, hit: bool) -> (step: Step<E>)
        ensures
            step@ == self@.step(Reply::<E>::Level(hit)),
            step matches Step::Continue(next) ==> next@.wf(),
    {
        proof {
            use_type_invariant(&self);
        }
        match self.stage {
            Stage::Wake | Stage::WakeHold | Stage::Request | Stage::RequestHold => Step::Continue(
                self,
            ),
            _ => if self.resting {
                Step::Continue(self)
            } else if !hit {
                Step::Continue(
                    PulseReader {
                        stage: self.stage,
                        resting: true,
                        elapsed: self.elapsed,
                        count: self.count,
                        frame: self.frame,
                        bits: self.bits,
                    },
                )
            } else {
                match self.stage {
                    Stage::PresenceHigh => Step::Continue(
                        Self::enter(Stage::PresenceLow, self.count, self.frame, self.bits),
                    ),
                    Stage::PresenceLow => Step::Continue(
                        Self::enter(Stage::BitStart, self.count, self.frame, self.bits),
                    ),
                    Stage::BitStart => Step::Continue(
                        Self::enter(Stage::BitEnd, self.count, self.frame, self.bits),
                    ),
                    _ => self.record_bit(),
                }
            },
        }
    }

    /// Decides the bit whose pulse has just ended and stores it in the frame.
    fn record_bit<E>(self) -> (step: Step<E>)
        requires
            self@.stage is BitEnd,
            !self@.resting,
        ensures
            step@ == self@.after_sample::<E>(true),
            step matches Step::Continue(next) ==> next@.wf(),
    {
        proof {
            use_type_invariant(&self);
        }
        let one: bool = self.elapsed > ONE_THRESHOLD_US;
        let ghost bits = self.bits@.push(one);
        let byte: usize = (self.count / 8) as usize;
        let shift: u8 = 7 - self.count % 8;
        let mut frame = self.frame;
        proof {
            lemma_push_packs(self.bits@, one, frame@);
        }
        if one {
            frame[byte] = frame[byte] | (1u8 << shift);
        }
        if self.count + 1 == FRAME_BITS {
            Step::Frame(frame)
        } else {
            Step::Continue(Self::enter(Stage::BitStart, self.count + 1, frame, Ghost(bits)))
        }
    }
}

impl<E> Reply<E> {
    /// The reply that stands for the result of driving the line.
    pub fn from_write(result: Result<(), E>) -> (reply: Self)
        ensures
            reply == match result {
                Ok(_) => Reply::Done,
                Err(fault) => Reply::Fault(fault),
            },
            !(reply is Level),
    {
        match result {
            Ok(_) => Reply::Done,
            Err(fault) => Reply::Fault(fault),
        }
    }

    /// The reply that stands for the result of sampling the line.
    pub fn from_sample(result: Result<bool, E>) -> (reply: Self)
        ensures
            reply == match result {
                Ok(hit) => Reply::Level(hit),
                Err(fault) => Reply::Fault(fault),
            },
            !(reply is Done),
    {
        match result {
            Ok(hit) => Reply::Level(hit),
            Err(fault) => Reply::Fault(fault),
        }
    }
}

/// Every read ends: a reply that answers the pending command either ends the
/// read or leaves a state that is again well formed and has less budget. A read
/// begins with a budget of 17001 replies.
pub proof fn law_reply_spends_budget<E>(state: ReaderState, reply: Reply<E>)
    requires
        state.wf(),
        answers(state.command(), reply),
    ensures
        ReaderState::initial().wf(),
        ReaderState::initial().budget() == 17001,
        state.step(reply) matches Outcome::Continue(next) ==> next.wf() && next.budget()
            < state.budget(),
{
}

/// A reply never leads out of the states a read can be in, and it completes
/// the frame only as the answer to the sample that ends the fortieth pulse.
pub proof fn law_step_keeps_wf<E>(state: ReaderState, reply: Reply<E>)
    requires
        state.wf(),
    ensures
        state.step(reply) matches Outcome::Continue(next) ==> next.wf(),
        state.step(reply) matches Outcome::Frame(frame) ==> {
            &&& state.stage is BitEnd
            &&& state.bits.len() + 1 == FRAME_BITS
            &&& reply == Reply::<E>::Level(true)
            &&& frame == packed(state.bits.push(state.elapsed > ONE_THRESHOLD_US))
            &&& frame.len() == 5
        },
{
}

/// A failure names the part of the read it came from: only the handshake
/// reports a sensor not found, only the data bits report a read timeout, a
/// fault of the line is passed on as it is, and no checksum is judged here.
pub proof fn law_failure_names_its_stage<E>(state: ReaderState, reply: Reply<E>)
    requires
        state.wf(),
    ensures
        state.step(reply) matches Outcome::Failed(error) ==> match error {
            DhtError::NotFoundOnGPio => state.stage.in_handshake() && reply is Done,
            DhtError::ReadTimeout => state.stage.in_bit() && reply is Done,
            DhtError::PinError(fault) => reply == Reply::Fault(fault),
            DhtError::CheckSum(_, _) => false,
        },
{
}

} // verus!
