//! Line settings of the serial link to the sensor.

use vstd::prelude::*;

verus! {

/// Path of the serial device where none is configured.
pub const DEFAULT_DEVICE_PATH: &'static str = "/dev/ttyAMA0";

/// Milliseconds between two polls where none were configured.
pub const DEFAULT_POLL_DELAY_MS: u64 = 1000;

/// Parity checking on the line.
#[derive(Clone, Copy, Debug, PartialEq, Eq, Structural)]
pub enum Parity {
    ParityNone,
    ParityOdd,
    ParityEven,
}

/// Flow control on the line.
#[derive(Clone, Copy, Debug, PartialEq, Eq, Structural)]
pub enum FlowControl {
    FlowNone,
    FlowSoftware,
    FlowHardware,
}

/// How the serial line is set up before the first byte moves.
#[derive(Clone, Copy, Debug, PartialEq, Eq, Structural)]
pub struct SerialConfig {
    pub baud_rate: u32,
    pub byte_size: u8,
    pub parity: Parity,
    pub stop_bits: u8,
    pub flow_control: FlowControl,
    pub read_timeout_ms: u64,
}

impl SerialConfig {
    /// The settings that the sensor talks at: 9600 baud, eight data bits,
    /// no parity, one stop bit, no flow control, and a second to answer.
    pub open spec fn device() -> SerialConfig {
        SerialConfig {
            baud_rate: 9600,
            byte_size: 8,
            parity: Parity::ParityNone,
            stop_bits: 1,
            flow_control: FlowControl::FlowNone,
            read_timeout_ms: 1000,
        }
    }

    /// The settings that the sensor talks at.
    pub fn for_device() -> (config: SerialConfig)
        ensures
            config == SerialConfig::device(),
    {
        SerialConfig {
            baud_rate: 9600,
            byte_size: 8,
            parity: Parity::ParityNone,
            stop_bits: 1,
            flow_control: FlowControl::FlowNone,
            read_timeout_ms: 1000,
        }
    }
}

/// The device path to open: the configured one, or the default where none
/// is configured.
pub fn device_path(configured: Option<String>) -> (path: String)
    ensures
        path@ == match configured {
            Some(given) => given@,
            None => DEFAULT_DEVICE_PATH@,
        },
{
    match configured {
        Some(given) => given,
        None => DEFAULT_DEVICE_PATH.to_owned(),
    }
}

} // verus!
