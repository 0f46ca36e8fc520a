//! The framed serial codec of the CO2 sensor.
//!
//! Every frame is nine bytes: a start byte `0xFF`, the sensor address or the
//! echoed command, payload bytes, and a checksum over bytes one to seven.

use vstd::prelude::*;
use crate::capability::ByteTransport;

verus! {

/// Length of every command and response frame.
pub const FRAME_LEN: usize = 9;

/// Start byte of every frame.
pub const START_BYTE: u8 = 0xFF;

/// Address of the sensor on the link.
pub const SENSOR_ADDRESS: u8 = 0x01;

/// Command byte that asks for the gas concentration.
pub const READ_CO2: u8 = 0x86;

/// Command byte that switches the automatic baseline calibration.
pub const AUTO_CALIBRATION: u8 = 0x79;

/// Payload byte that switches the automatic calibration on.
pub const CALIBRATION_ON: u8 = 0xA0;

/// Why an exchange with the CO2 sensor failed.
#[derive(Debug, PartialEq, Eq)]
pub enum MHz19Error<HE> {
    /// The checksum computed over the response and the one received differ.
    Checksum(u8, u8),
    /// The transport itself failed.
    HalError(HE),
}

impl<HE> From<HE> for MHz19Error<HE> {
    fn from(error: HE) -> (wrapped: Self) {
        MHz19Error::HalError(error)
    }
}

impl<HE> vstd::std_specs::convert::FromSpecImpl<HE> for MHz19Error<HE> {
    open spec fn obeys_from_spec() -> bool {
        true
    }

    open spec fn from_spec(error: HE) -> Self {
        MHz19Error::HalError(error)
    }
}

/// Sum of the seven bytes a frame's checksum covers.
pub open spec fn payload_sum(frame: Seq<u8>) -> int
    recommends
        frame.len() == FRAME_LEN,
{
    frame[1] + frame[2] + frame[3] + frame[4] + frame[5] + frame[6] + frame[7]
}

/// The checksum of a frame: `0xFF` minus the payload sum, plus one, kept to
/// eight bits.
pub open spec fn checksum(frame: Seq<u8>) -> u8
    recommends
        frame.len() == FRAME_LEN,
{
    ((0xFF - payload_sum(frame) + 1) % 256) as u8
}

/// The concentration a response carries: bytes two and three, big-endian.
pub open spec fn concentration(frame: Seq<u8>) -> int
    recommends
        frame.len() == FRAME_LEN,
{
    frame[2] * 256 + frame[3]
}

/// The command frame for `command` with first payload byte `data0`.
pub open spec fn command_frame(command: u8, data0: u8) -> Seq<u8> {
    let body = seq![START_BYTE, SENSOR_ADDRESS, command, data0, 0u8, 0u8, 0u8, 0u8, 0u8];
    body.update(8, checksum(body))
}

/// The frame that asks for the gas concentration.
pub open spec fn read_frame() -> Seq<u8> {
    command_frame(READ_CO2, 0)
}

/// The frame that switches the automatic calibration on or off.
pub open spec fn calibration_frame(enable: bool) -> Seq<u8> {
    command_frame(AUTO_CALIBRATION, if enable { CALIBRATION_ON } else { 0 })
}

/// What a received frame decodes to.
pub open spec fn parsed<HE>(frame: Seq<u8>) -> Result<i32, MHz19Error<HE>>
    recommends
        frame.len() == FRAME_LEN,
{
    if checksum(frame) == frame[8] {
        Ok(concentration(frame) as i32)
    } else {
        Err(MHz19Error::Checksum(checksum(frame), frame[8]))
    }
}

/// Computes the checksum over bytes one to seven of a frame.
pub fn calculate_checksum(data: &[u8; 9]) -> (sum: u8)
    ensures
        sum == checksum(data@),
{
    let mut total: u16 = 0;
    let mut i: usize = 1;
    while i < 8
        invariant
            1 <= i <= 8,
            total <= 255 * (i - 1),
            total == partial_sum(data@, i as int),
        decreases 8 - i,
    {
        total = total + data[i] as u16;
        i = i + 1;
    }
    proof {
        reveal_with_fuel(partial_sum, 8);
    }
    let folded: u16 = (256 - total % 256) % 256;
    folded as u8
}

/// Sum of bytes one up to, not including, `end`.
spec fn partial_sum(frame: Seq<u8>, end: int) -> int
    decreases end,
{
    if end <= 1 {
        0
    } else {
        partial_sum(frame, end - 1) + frame[end - 1]
    }
}

/// Builds the frame that asks for the gas concentration. Its payload is all
/// zero, so its checksum is the constant `0x79`.
pub fn read_command() -> (frame: [u8; 9])
    ensures
        frame@ == read_frame(),
        frame[8] == 0x79,
{
    let frame: [u8; 9] = [0xFF, 0x01, 0x86, 0, 0, 0, 0, 0, 0x79];
    assert(frame@ =~= read_frame());
    frame
}

/// Builds the frame that switches the automatic calibration on or off.
pub fn calibration_command(enable: bool) -> (frame: [u8; 9])
    ensures
        frame@ == calibration_frame(enable),
{
    let mut frame: [u8; 9] = [0xFF, 0x01, 0x79, 0, 0, 0, 0, 0, 0];
    if enable {
        frame[3] = 0xA0;
    }
    let sum = calculate_checksum(&frame);
    frame[8] = sum;
    assert(frame@ =~= calibration_frame(enable));
    frame
}

/// Validates a received frame and extracts the concentration in ppm.
///
/// Succeeds exactly when the checksum computed over the frame equals its last
/// byte; otherwise reports both values, computed first.
pub fn parse_response<HE>(response: &[u8; 9]) -> (outcome: Result<i32, MHz19Error<HE>>)
    ensures
        outcome == parsed::<HE>(response@),
        outcome is Ok <==> checksum(response@) == response[8],
        outcome matches Ok(ppm) ==> ppm == concentration(response@) && 0 <= ppm <= 0xFFFF,
{
    let computed = calculate_checksum(response);
    if computed != response[8] {
        return Err(MHz19Error::Checksum(computed, response[8]));
    }
    let high: i32 = response[2] as i32;
    let low: i32 = response[3] as i32;
    Ok(high * 256 + low)
}

/// A CO2 sensor behind a byte transport.
pub struct MHz19<U: ByteTransport> {
    uart: U,
}

impl<U: ByteTransport> MHz19<U> {
    /// The transport the sensor is attached to.
    pub closed spec fn uart(&self) -> U {
        self.uart
    }

    /// Takes ownership of the transport the sensor is attached to. Nothing is
    /// sent to the sensor yet.
    pub fn new(uart: U) -> (sensor: Self)
        ensures
            sensor.uart() == uart,
    {
        MHz19 { uart }
    }

    /// Asks the sensor for the gas concentration in ppm.
    ///
    /// Sends the read command, receives one response frame and decodes it with
    /// [`parse_response`]. A transport fault ends the exchange at once; any
    /// other result is what some nine received bytes decode to.
    pub fn read_co2(&mut self) -> (outcome: Result<i32, MHz19Error<U::Error>>)
        ensures
            outcome matches Ok(ppm) ==> 0 <= ppm <= 0xFFFF,
            outcome matches Err(MHz19Error::Checksum(computed, received)) ==> computed
                != received,
            !(outcome matches Err(MHz19Error::HalError(_))) ==> exists|response: Seq<u8>|
                response.len() == FRAME_LEN && outcome == #[trigger] parsed::<U::Error>(response),
    {
        let command = read_command();
        match self.uart.write(&command) {
            Ok(()) => {},
            Err(fault) => {
                return Err(MHz19Error::from(fault));
            },
        }
        let mut response: [u8; 9] = [0; 9];
        match self.uart.read(&mut response) {
            Ok(()) => {},
            Err(fault) => {
                return Err(MHz19Error::from(fault));
            },
        }
        parse_response(&response)
    }

    /// Switches the sensor's automatic baseline calibration on or off.
    ///
    /// Sends the calibration command and reads nothing back: the call succeeds
    /// when the write did, and fails only with the transport's fault.
    pub fn enable_auto_calibration(&mut self, enable: bool) -> (outcome: Result<
        (),
        MHz19Error<U::Error>,
    >)
        ensures
            outcome matches Err(error) ==> error is HalError,
    {
        let command = calibration_command(enable);
        conclude_write(self.uart.write(&command))
    }
}

/// What a command that expects no response comes to, given what the transport
/// answered to the write: success when the write completed, otherwise the
/// transport's fault, wrapped and not reinterpreted.
pub open spec fn write_outcome<HE>(written: Result<(), HE>) -> Result<(), MHz19Error<HE>> {
    match written {
        Ok(_) => Ok(()),
        Err(fault) => Err(MHz19Error::HalError(fault)),
    }
}

/// Says how a command that expects no response ended, from what the
/// transport answered to the write of its frame.
pub fn conclude_write<HE>(written: Result<(), HE>) -> (outcome: Result<(), MHz19Error<HE>>)
    ensures
        outcome == write_outcome(written),
        outcome is Ok <==> written is Ok,
{
    match written {
        Ok(()) => Ok(()),
        Err(fault) => Err(MHz19Error::from(fault)),
    }
}

/// Every command frame carries the checksum of its own payload: recomputing
/// the checksum over bytes one to seven of a built frame gives its last byte.
pub proof fn law_command_checksum_matches(command: u8, data0: u8)
    ensures
        command_frame(command, data0).len() == FRAME_LEN,
        checksum(command_frame(command, data0)) == command_frame(command, data0)[8],
        checksum(read_frame()) == read_frame()[8],
        read_frame()[8] == 0x79,
        forall|enable: bool| checksum(#[trigger] calibration_frame(enable)) == calibration_frame(enable)[8],
{
}

/// A response is accepted exactly when its last byte is the checksum of the
/// rest, and a rejected one reports the computed and the received checksum.
pub proof fn law_response_checksum_decides<HE>(frame: Seq<u8>)
    requires
        frame.len() == FRAME_LEN,
    ensures
        parsed::<HE>(frame) is Ok <==> frame[8] == checksum(frame),
        parsed::<HE>(frame) matches Ok(ppm) ==> ppm == frame[2] * 256 + frame[3],
        parsed::<HE>(frame) matches Err(error) ==> error == MHz19Error::<HE>::Checksum(
            checksum(frame),
            frame[8],
        ) && checksum(frame) != frame[8],
{
}

} // verus!
