//! The humidity and temperature sensor: its frame codec and its driver.
//!
//! A frame is five bytes: humidity and temperature, each big-endian in tenths
//! of a unit, and an additive checksum. The top bit of the temperature is a sign
//! flag, the remaining fifteen bits its magnitude. The codec validates a frame
//! and converts it to a readout; the driver obtains the frame from the line by
//! stepping the bit decoder of [`crate::pulse`].

use vstd::prelude::*;
use crate::capability::{DigitalPin, MicrosecondDelay};
use crate::pulse::{
    answers, law_reply_spends_budget, run, Command, Outcome, PinLevel, PulseReader, ReaderState,
    Reply, Step,
};
use crate::trace::{lemma_run_push, well_answered};

verus! {

/// Length of a sensor frame.
pub const FRAME_LEN: usize = 5;

/// Why a read of the humidity and temperature sensor failed.
#[derive(Debug, Clone, PartialEq, Eq)]
pub enum DhtError<HalError> {
    /// The sensor did not answer the request during the handshake.
    NotFoundOnGPio,
    /// The sensor stopped answering while its data bits were read.
    ReadTimeout,
    /// The line itself reported a fault while it was driven or sampled.
    PinError(HalError),
    /// The frame arrived in full but its checksum is wrong: computed, received.
    CheckSum(u8, u8),
}

impl<HalError> From<HalError> for DhtError<HalError> {
    fn from(error: HalError) -> (wrapped: Self) {
        DhtError::PinError(error)
    }
}

impl<HalError> vstd::std_specs::convert::FromSpecImpl<HalError> for DhtError<HalError> {
    open spec fn obeys_from_spec() -> bool {
        true
    }

    open spec fn from_spec(error: HalError) -> Self {
        DhtError::PinError(error)
    }
}

/// What a readout holds, as mathematical values in tenths of a unit.
pub struct Reading {
    /// Relative humidity in tenths of a percent.
    pub humidity: int,
    /// Magnitude of the temperature in tenths of a degree Celsius.
    pub magnitude: int,
    /// The frame's sign flag; it may be set on a zero magnitude.
    pub negative: bool,
}

impl Reading {
    /// The signed temperature in tenths of a degree Celsius.
    pub open spec fn temperature(self) -> int {
        if self.negative {
            -self.magnitude
        } else {
            self.magnitude
        }
    }

    /// Whether a frame can carry this reading.
    pub open spec fn fits_frame(self) -> bool {
        0 <= self.humidity <= 0xFFFF && 0 <= self.magnitude <= 0x7FFF
    }
}

/// One validated measurement of the sensor, in tenths of a unit.
#[derive(Debug, Clone, Copy, PartialEq, Eq)]
pub struct ReadoutData {
    humidity: u16,
    magnitude: u16,
    negative: bool,
}

impl View for ReadoutData {
    type V = Reading;

    closed spec fn view(&self) -> Reading {
        Reading {
            humidity: self.humidity as int,
            magnitude: self.magnitude as int,
            negative: self.negative,
        }
    }
}

impl ReadoutData {
    #[verifier::type_invariant]
    spec fn magnitude_leaves_sign_bit(self) -> bool {
        self.magnitude <= 0x7FFF
    }

    /// The relative humidity in tenths of a percent: 652 stands for 65.2 %.
    pub fn humidity(&self) -> (tenths: u16)
        ensures
            tenths == self@.humidity,
    {
        self.humidity
    }

    /// The temperature in tenths of a degree Celsius: -10 stands for -1.0 °C.
    pub fn temperature(&self) -> (tenths: i32)
        ensures
            tenths == self@.temperature(),
    {
        if self.negative {
            -(self.magnitude as i32)
        } else {
            self.magnitude as i32
        }
    }

    /// Whether the frame's sign flag was set. With a zero magnitude this is the
    /// only trace of the sign: the temperature is then negative zero.
    pub fn is_negative(&self) -> (flag: bool)
        ensures
            flag == self@.negative,
    {
        self.negative
    }

    /// Encodes the readout as the frame that decodes to it.
    pub fn to_frame(&self) -> (frame: [u8; 5])
        ensures
            frame@ == frame_of(self@),
    {
        proof {
            use_type_invariant(self);
        }
        let h0: u8 = (self.humidity / 256) as u8;
        let h1: u8 = (self.humidity % 256) as u8;
        let flag: u8 = if self.negative {
            0x80
        } else {
            0
        };
        let t0: u8 = (self.magnitude / 256) as u8 + flag;
        let t1: u8 = (self.magnitude % 256) as u8;
        let mut frame: [u8; 5] = [h0, h1, t0, t1, 0];
        let sum = compute_checksum(&frame);
        frame[4] = sum;
        assert(frame@ =~= frame_of(self@));
        frame
    }
}

/// Sum of the four data bytes of a frame.
pub open spec fn data_sum(frame: Seq<u8>) -> int
    recommends
        frame.len() == FRAME_LEN,
{
    frame[0] + frame[1] + frame[2] + frame[3]
}

/// The checksum of a frame: the low eight bits of the sum of its data bytes.
pub open spec fn frame_checksum(frame: Seq<u8>) -> u8
    recommends
        frame.len() == FRAME_LEN,
{
    (data_sum(frame) % 256) as u8
}

/// The reading that the data bytes of a frame carry.
pub open spec fn reading_of(frame: Seq<u8>) -> Reading
    recommends
        frame.len() == FRAME_LEN,
{
    Reading {
        humidity: frame[0] * 256 + frame[1],
        magnitude: (frame[2] % 128) * 256 + frame[3],
        negative: frame[2] >= 128,
    }
}

/// The frame that carries a reading, checksum included.
pub open spec fn frame_of(reading: Reading) -> Seq<u8>
    recommends
        reading.fits_frame(),
{
    let body = seq![
        (reading.humidity / 256) as u8,
        (reading.humidity % 256) as u8,
        (reading.magnitude / 256 + if reading.negative { 128int } else { 0int }) as u8,
        (reading.magnitude % 256) as u8,
        0u8,
    ];
    body.update(4, frame_checksum(body))
}

/// What a frame decodes to: its reading when the checksum holds, otherwise
/// the computed and the received checksum.
pub open spec fn decoded<HalError>(frame: Seq<u8>) -> Result<Reading, DhtError<HalError>>
    recommends
        frame.len() == FRAME_LEN,
{
    if frame_checksum(frame) == frame[4] {
        Ok(reading_of(frame))
    } else {
        Err(DhtError::CheckSum(frame_checksum(frame), frame[4]))
    }
}

/// The result of a read with the readout taken as the reading it holds.
pub open spec fn as_reading<HalError>(outcome: Result<ReadoutData, DhtError<HalError>>) -> Result<
    Reading,
    DhtError<HalError>,
> {
    match outcome {
        Ok(readout) => Ok(readout@),
        Err(error) => Err(error),
    }
}

/// Computes the checksum over the four data bytes of a frame.
pub fn compute_checksum(frame: &[u8; 5]) -> (sum: u8)
    ensures
        sum == frame_checksum(frame@),
{
    let mut total: u16 = 0;
    let mut i: usize = 0;
    while i < 4
        invariant
            i <= 4,
            total <= 255 * i,
            total == leading_sum(frame@, i as int),
        decreases 4 - i,
    {
        total = total + frame[i] as u16;
        i = i + 1;
    }
    proof {
        reveal_with_fuel(leading_sum, 5);
    }
    let low: u16 = total & 0xff;
    assert(low == total % 256) by (bit_vector)
        requires
            low == total & 0xff,
    ;
    low as u8
}

/// Sum of the first `end` bytes.
spec fn leading_sum(frame: Seq<u8>, end: int) -> int
    decreases end,
{
    if end <= 0 {
        0
    } else {
        leading_sum(frame, end - 1) + frame[end - 1]
    }
}

/// Reads humidity and temperature out of the data bytes of a frame.
fn parse_buffer(buf: &[u8; 5]) -> (readout: ReadoutData)
    ensures
        readout@ == reading_of(buf@),
{
    let h0: u8 = buf[0];
    let h1: u8 = buf[1];
    let t0: u8 = buf[2];
    let t1: u8 = buf[3];
    let high: u16 = (h0 as u16) << 8;
    assert(high == h0 * 256) by (bit_vector)
        requires
            high == (h0 as u16) << 8,
    ;
    let humidity: u16 = high + h1 as u16;
    let magnitude: u16 = (((t0 & 0x7f) as u16) << 8) | t1 as u16;
    let negative: bool = t0 & 0x80 != 0;
    assert(magnitude == (t0 % 128) * 256 + t1) by (bit_vector)
        requires
            magnitude == (((t0 & 0x7f) as u16) << 8) | t1 as u16,
    ;
    assert((t0 & 0x80 != 0) == (t0 >= 128)) by (bit_vector);
    ReadoutData { humidity, magnitude, negative }
}

/// Validates a frame and converts it to a readout.
///
/// Succeeds exactly when the checksum computed over the data bytes equals the
/// last byte; otherwise reports both values, computed first. No readout is ever
/// made from a frame whose checksum is wrong.
pub fn decode_frame<HalError>(frame: &[u8; 5]) -> (outcome: Result<ReadoutData, DhtError<HalError>>)
    ensures
        as_reading(outcome) == decoded::<HalError>(frame@),
        outcome is Ok <==> frame_checksum(frame@) == frame[4],
        outcome matches Ok(readout) ==> readout@ == reading_of(frame@) && readout@.fits_frame(),
        outcome matches Err(error) ==> error == DhtError::<HalError>::CheckSum(
            frame_checksum(frame@),
            frame[4],
        ),
{
    let computed = compute_checksum(frame);
    if computed == frame[4] {
        return Ok(parse_buffer(frame));
    }
    Err(DhtError::CheckSum(computed, frame[4]))
}

/// Decoding a frame whose checksum holds and encoding the reading again gives
/// the same five bytes.
pub proof fn law_frame_round_trip(frame: Seq<u8>)
    requires
        frame.len() == FRAME_LEN,
        frame_checksum(frame) == frame[4],
    ensures
        reading_of(frame).fits_frame(),
        frame_of(reading_of(frame)) == frame,
{
    assert(frame_of(reading_of(frame)) =~= frame);
}

/// Encoding a reading that fits a frame and decoding it again gives the same
/// reading, sign flag included, and the encoded frame passes validation.
pub proof fn law_reading_round_trip<HalError>(reading: Reading)
    requires
        reading.fits_frame(),
    ensures
        frame_of(reading).len() == FRAME_LEN,
        decoded::<HalError>(frame_of(reading)) == Ok::<Reading, DhtError<HalError>>(reading),
{
}

/// What a read has come to, once it has ended: the decoded frame or the
/// failure. A read that still goes on has come to nothing yet.
pub open spec fn concluded<HalError>(outcome: Outcome<HalError>) -> Option<
    Result<Reading, DhtError<HalError>>,
> {
    match outcome {
        Outcome::Continue(_) => None,
        Outcome::Frame(frame) => Some(decoded(frame)),
        Outcome::Failed(error) => Some(Err(error)),
    }
}

/// A humidity and temperature sensor on a single line.
pub struct Dht22<D: MicrosecondDelay, P: DigitalPin> {
    delay: D,
    pin: P,
}

impl<D: MicrosecondDelay, P: DigitalPin> Dht22<D, P> {
    /// The delay that times the protocol.
    pub closed spec fn delay(&self) -> D {
        self.delay
    }

    /// The line the sensor is attached to.
    pub closed spec fn pin(&self) -> P {
        self.pin
    }

    /// Takes ownership of the line the sensor is attached to and of the delay
    /// that times the protocol. Nothing is sent to the sensor yet.
    pub fn new(delay: D, pin: P) -> (sensor: Self)
        ensures
            sensor.delay() == delay,
            sensor.pin() == pin,
    {
        Dht22 { delay, pin }
    }

    /// Performs one command on the hardware and reports what came of it.
    fn perform(&mut self, command: Command) -> (reply: Reply<P::Error>)
        ensures
            answers(command, reply),
            command is Delay ==> reply == Reply::<P::Error>::Done,
    {
        match command {
            Command::SetLow => Reply::from_write(self.pin.set_low()),
            Command::SetHigh => Reply::from_write(self.pin.set_high()),
            Command::Delay(us) => {
                self.delay.sleep_us(us);
                Reply::Done
            },
            Command::Sample(PinLevel::High) => Reply::from_sample(self.pin.is_high()),
            Command::Sample(PinLevel::Low) => Reply::from_sample(self.pin.is_low()),
        }
    }

    /// Reads the sensor once.
    ///
    /// Steps a [`PulseReader`] from its start to its end, performing each
    /// command it names on the line and handing it the reply, then validates
    /// the frame with [`decode_frame`]. The result is therefore what the
    /// protocol comes to on the replies the hardware gave, each the answer to
    /// the command that was pending: what these replies were is not for this
    /// function to decide.
    pub fn read(&mut self) -> (outcome: Result<ReadoutData, DhtError<P::Error>>)
        ensures
            exists|replies: Seq<Reply<P::Error>>|
                well_answered(ReaderState::initial(), replies) && concluded(
                    #[trigger] run(ReaderState::initial(), replies),
                ) == Some(as_reading(outcome)),
            outcome matches Ok(readout) ==> readout@.fits_frame(),
            outcome matches Err(DhtError::CheckSum(computed, received)) ==> computed != received,
    {
        let mut reader = PulseReader::start();
        let ghost mut replies = Seq::<Reply<P::Error>>::empty();
        loop
            invariant
                run(ReaderState::initial(), replies) == Outcome::<P::Error>::Continue(reader@),
                well_answered(ReaderState::initial(), replies),
                reader@.wf(),
            decreases reader@.budget(),
        {
            let command = reader.command();
            let reply = self.perform(command);
            proof {
                law_reply_spends_budget(reader@, reply);
                lemma_run_push(ReaderState::initial(), replies, reply);
                assert(replies.push(reply).drop_last() =~= replies);
                replies = replies.push(reply);
            }
            match reader.advance(reply) {
                Step::Continue(next) => {
                    reader = next;
                },
                Step::Frame(frame) => {
                    let outcome = decode_frame(&frame);
                    proof {
                        assert(concluded(run(ReaderState::initial(), replies)) == Some(
                            as_reading(outcome),
                        ));
                    }
                    return outcome;
                },
                Step::Failed(error) => {
                    proof {
                        assert(concluded(run(ReaderState::initial(), replies)) == Some(
                            as_reading(Err::<ReadoutData, DhtError<P::Error>>(error)),
                        ));
                    }
                    return Err(error);
                },
            }
        }
    }
}

} // verus!
