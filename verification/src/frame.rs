//! Command and response frames of the sensor's serial protocol.

use vstd::prelude::*;

verus! {

/// First byte of every frame, in both directions.
pub const START_BYTE: u8 = 0xFF;

/// Command code: read the gas concentration.
pub const READ_CONCENTRATION: u8 = 0x86;

/// Command code: calibrate the zero point.
pub const CALIBRATE_ZERO: u8 = 0x87;

/// Device number of a sensor that was never given another one.
pub const DEFAULT_DEVICE: u8 = 0x01;

/// Length of a command frame.
pub const COMMAND_LEN: usize = 8;

/// Length of a response frame.
pub const RESPONSE_LEN: usize = 9;

/// The command frame for `code`, addressed to `device_number`: the start
/// byte, the device number, the command code and five reserved zero bytes.
pub open spec fn command_frame(device_number: u8, code: u8) -> Seq<u8> {
    seq![START_BYTE, device_number, code, 0u8, 0u8, 0u8, 0u8, 0u8]
}

/// Why a response was not accepted as a frame.
#[derive(Clone, Copy, Debug, PartialEq, Eq, Structural)]
pub enum MalformedResponse {
    /// The response does not have `RESPONSE_LEN` bytes.
    WrongLength { length: usize },
    /// The response has the right length, but does not begin with `START_BYTE`.
    WrongStartByte { byte: u8 },
}

impl MalformedResponse {
    /// What is wrong with the response, in words.
    pub open spec fn description_text(self) -> Seq<char> {
        match self {
            MalformedResponse::WrongLength { .. } => "response is not nine bytes long"@,
            MalformedResponse::WrongStartByte { .. } => "response does not begin with 0xFF"@,
        }
    }

    /// What is wrong with the response, in words.
    pub fn description(&self) -> (text: &'static str)
        ensures
            text@ == self.description_text(),
    {
        match self {
            MalformedResponse::WrongLength { .. } => "response is not nine bytes long",
            MalformedResponse::WrongStartByte { .. } => "response does not begin with 0xFF",
        }
    }
}

/// What a response decodes to: the concentration in ppm held in bytes 2
/// (high) and 3 (low) of a nine-byte frame that begins with the start byte.
pub open spec fn concentration(response: Seq<u8>) -> Result<u32, MalformedResponse> {
    if response.len() != RESPONSE_LEN {
        Err(MalformedResponse::WrongLength { length: response.len() as usize })
    } else if response[0] != START_BYTE {
        Err(MalformedResponse::WrongStartByte { byte: response[0] })
    } else {
        Ok((response[2] as int * 256 + response[3] as int) as u32)
    }
}

/// A response that answers `command` with the concentration
/// `high * 256 + low`: the start byte, the command's code, the two bytes of
/// the concentration, and five bytes that nothing reads.
pub open spec fn response_to(command: Seq<u8>, high: u8, low: u8) -> Seq<u8> {
    seq![START_BYTE, command[2], high, low, 0u8, 0u8, 0u8, 0u8, 0u8]
}

/// What comes of asking device `device_number` for its concentration and
/// decoding the response that answers with `high * 256 + low`.
pub open spec fn exchange(device_number: u8, high: u8, low: u8) -> Result<u32, MalformedResponse> {
    concentration(response_to(command_frame(device_number, READ_CONCENTRATION), high, low))
}

/// What comes of making the same exchange `times` times over.
pub open spec fn exchanges(device_number: u8, high: u8, low: u8, times: nat) -> Seq<
    Result<u32, MalformedResponse>,
> {
    Seq::new(times, |i: int| exchange(device_number, high, low))
}

/// An exchange gives back the concentration that the response holds,
/// whichever device is asked and however often the exchange is made:
/// encoding and decoding depend on their arguments alone.
pub proof fn law_exchange_round_trip(device_number: u8, high: u8, low: u8, times: nat)
    ensures
        exchange(device_number, high, low) == Ok::<u32, MalformedResponse>(
            (high as int * 256 + low as int) as u32,
        ),
        forall|i: int|
            0 <= i < times ==> #[trigger] exchanges(device_number, high, low, times)[i] == exchange(
                device_number,
                high,
                low,
            ),
        high as int * 256 + low as int <= u32::MAX,
{
}

/// Decoding looks at the length and at bytes 0, 2 and 3, and at nothing
/// else: two responses that agree there decode alike.
pub proof fn law_decoding_reads_three_bytes(response: Seq<u8>, other: Seq<u8>)
    requires
        response.len() == other.len(),
        response.len() == RESPONSE_LEN ==> response[0] == other[0] && response[2] == other[2]
            && response[3] == other[3],
    ensures
        concentration(response) == concentration(other),
{
}

fn command(device_number: u8, code: u8) -> (frame: [u8; 8])
    ensures
        frame@ == command_frame(device_number, code),
{
    let frame: [u8; 8] = [START_BYTE, device_number, code, 0, 0, 0, 0, 0];
    assert(frame@ =~= command_frame(device_number, code));
    frame
}

/// Builds the frame that asks device `device_number` for its gas concentration.
pub fn encode_read_command(device_number: u8) -> (frame: [u8; 8])
    ensures
        frame@ == command_frame(device_number, READ_CONCENTRATION),
        frame@.len() == COMMAND_LEN,
        frame@[0] == START_BYTE,
        frame@[1] == device_number,
        frame@[2] == READ_CONCENTRATION,
{
    command(device_number, READ_CONCENTRATION)
}

/// Builds the frame that tells device `device_number` to take the air around
/// it as its zero point.
pub fn encode_calibrate_zero(device_number: u8) -> (frame: [u8; 8])
    ensures
        frame@ == command_frame(device_number, CALIBRATE_ZERO),
        frame@.len() == COMMAND_LEN,
{
    command(device_number, CALIBRATE_ZERO)
}

/// Decodes a response to the read command. Any nine bytes that begin with
/// the start byte decode to `byte 2 * 256 + byte 3`; anything else is
/// malformed. The trailing bytes, the check byte among them, are not looked at.
pub fn decode_concentration(response: &[u8]) -> (result: Result<u32, MalformedResponse>)
    ensures
        result == concentration(response@),
{
    if response.len() != RESPONSE_LEN {
        return Err(MalformedResponse::WrongLength { length: response.len() });
    }
    if response[0] != START_BYTE {
        return Err(MalformedResponse::WrongStartByte { byte: response[0] });
    }
    let high: u32 = response[2] as u32;
    let low: u32 = response[3] as u32;
    Ok(high * 256 + low)
}

} // verus!
