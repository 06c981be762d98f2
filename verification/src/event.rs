//! What passes between the sensor and its driver: the events that the
//! driver reports, the actions that the sensor asks for, and the faults
//! that it wants logged.

use vstd::prelude::*;
use crate::config::SerialConfig;
use crate::frame::MalformedResponse;
use crate::timestamp::ClockReading;

verus! {

/// What the driver reports to the sensor.
#[derive(Clone, Debug, PartialEq, Eq)]
pub enum Event {
    /// The driver is ready to run the sensor.
    Start,
    /// The port was opened and set up.
    Opened,
    /// The port could not be opened or set up.
    OpenFailed(String),
    /// A write returned, having taken this many bytes.
    Written(usize),
    /// A write failed.
    WriteFailed(String),
    /// A read returned these bytes.
    Received(Vec<u8>),
    /// A read ran into the read timeout.
    TimedOut,
    /// A read failed otherwise.
    ReadFailed(String),
    /// The bytes were appended to the log.
    Appended,
    /// The bytes could not be appended to the log.
    AppendFailed(String),
    /// The rest between two polls is over.
    Woke,
    /// The sensor is to stop.
    Stop,
}

/// An event as mathematics.
pub enum EventView {
    Start,
    Opened,
    OpenFailed(Seq<char>),
    Written(nat),
    WriteFailed(Seq<char>),
    Received(Seq<u8>),
    TimedOut,
    ReadFailed(Seq<char>),
    Appended,
    AppendFailed(Seq<char>),
    Woke,
    Stop,
}

impl View for Event {
    type V = EventView;

    open spec fn view(&self) -> EventView {
        match *self {
            Event::Start => EventView::Start,
            Event::Opened => EventView::Opened,
            Event::OpenFailed(detail) => EventView::OpenFailed(detail@),
            Event::Written(count) => EventView::Written(count as nat),
            Event::WriteFailed(detail) => EventView::WriteFailed(detail@),
            Event::Received(bytes) => EventView::Received(bytes@),
            Event::TimedOut => EventView::TimedOut,
            Event::ReadFailed(detail) => EventView::ReadFailed(detail@),
            Event::Appended => EventView::Appended,
            Event::AppendFailed(detail) => EventView::AppendFailed(detail@),
            Event::Woke => EventView::Woke,
            Event::Stop => EventView::Stop,
        }
    }
}

/// What the sensor asks the driver to do next.
#[derive(Clone, Debug, PartialEq, Eq)]
pub enum Action {
    /// Nothing, until the sensor is started.
    Wait,
    /// Open the serial device at `path` and set it up as `config` says.
    Open { path: String, config: SerialConfig },
    /// Write these bytes to the port.
    Write(Vec<u8>),
    /// Read exactly this many bytes from the port.
    Read(usize),
    /// Append these bytes to the log.
    Append(Vec<u8>),
    /// Rest for this many milliseconds.
    Sleep(u64),
    /// Nothing more: the sensor has stopped.
    Halt,
}

/// An action as mathematics.
pub enum ActionView {
    Wait,
    Open { path: Seq<char>, config: SerialConfig },
    Write(Seq<u8>),
    Read(nat),
    Append(Seq<u8>),
    Sleep(u64),
    Halt,
}

impl View for Action {
    type V = ActionView;

    open spec fn view(&self) -> ActionView {
        match *self {
            Action::Wait => ActionView::Wait,
            Action::Open { path, config } => ActionView::Open { path: path@, config },
            Action::Write(bytes) => ActionView::Write(bytes@),
            Action::Read(count) => ActionView::Read(count as nat),
            Action::Append(bytes) => ActionView::Append(bytes@),
            Action::Sleep(millis) => ActionView::Sleep(millis),
            Action::Halt => ActionView::Halt,
        }
    }
}

impl ActionView {
    /// Whether the action touches the serial port.
    pub open spec fn uses_port(self) -> bool {
        self is Open || self is Write || self is Read
    }
}

/// The step of a poll in which an input or output failure came up.
#[derive(Clone, Copy, Debug, PartialEq, Eq, Structural)]
pub enum Operation {
    Write,
    Read,
    Append,
}

/// What went wrong, for the driver to log.
#[derive(Clone, Debug, PartialEq, Eq)]
pub enum Fault {
    /// The device could not be opened or set up.
    PortUnavailable { detail: String },
    /// No response came within the read timeout.
    Timeout,
    /// The response is no frame; `raw` holds its bytes.
    MalformedResponse { reason: MalformedResponse, raw: Vec<u8> },
    /// The port or the log failed.
    IoFailure { operation: Operation, detail: String },
    /// A write took `written` bytes of a frame of `expected`.
    ShortWrite { written: usize, expected: usize },
    /// The clock reported a time that no timestamp can hold.
    ClockOutOfRange { clock: ClockReading },
}

/// A fault as mathematics.
pub enum FaultView {
    PortUnavailable { detail: Seq<char> },
    Timeout,
    MalformedResponse { reason: MalformedResponse, raw: Seq<u8> },
    IoFailure { operation: Operation, detail: Seq<char> },
    ShortWrite { written: nat, expected: nat },
    ClockOutOfRange { clock: ClockReading },
}

impl View for Fault {
    type V = FaultView;

    open spec fn view(&self) -> FaultView {
        match *self {
            Fault::PortUnavailable { detail } => FaultView::PortUnavailable { detail: detail@ },
            Fault::Timeout => FaultView::Timeout,
            Fault::MalformedResponse { reason, raw } => FaultView::MalformedResponse {
                reason,
                raw: raw@,
            },
            Fault::IoFailure { operation, detail } => FaultView::IoFailure {
                operation,
                detail: detail@,
            },
            Fault::ShortWrite { written, expected } => FaultView::ShortWrite {
                written: written as nat,
                expected: expected as nat,
            },
            Fault::ClockOutOfRange { clock } => FaultView::ClockOutOfRange { clock },
        }
    }
}

/// The kinds of fault that a log tells apart.
#[derive(Clone, Copy, Debug, PartialEq, Eq, Structural)]
pub enum FaultKind {
    /// The device could not be opened or set up. Ends the probe.
    PortUnavailable,
    /// No response came in time.
    Timeout,
    /// A response came that is no frame.
    MalformedResponse,
    /// The port, the log or the clock failed.
    IoFailure,
}

impl FaultView {
    /// The kind of the fault.
    pub open spec fn kind(self) -> FaultKind {
        match self {
            FaultView::PortUnavailable { .. } => FaultKind::PortUnavailable,
            FaultView::Timeout => FaultKind::Timeout,
            FaultView::MalformedResponse { .. } => FaultKind::MalformedResponse,
            FaultView::IoFailure { .. } => FaultKind::IoFailure,
            FaultView::ShortWrite { .. } => FaultKind::IoFailure,
            FaultView::ClockOutOfRange { .. } => FaultKind::IoFailure,
        }
    }
}

impl Fault {
    /// The kind of the fault.
    pub fn kind(&self) -> (kind: FaultKind)
        ensures
            kind == self@.kind(),
    {
        match self {
            Fault::PortUnavailable { .. } => FaultKind::PortUnavailable,
            Fault::Timeout => FaultKind::Timeout,
            Fault::MalformedResponse { .. } => FaultKind::MalformedResponse,
            Fault::IoFailure { .. } => FaultKind::IoFailure,
            Fault::ShortWrite { .. } => FaultKind::IoFailure,
            Fault::ClockOutOfRange { .. } => FaultKind::IoFailure,
        }
    }
}

/// The fault that a report holds, as mathematics.
pub open spec fn reported(report: Option<Fault>) -> Option<FaultView> {
    match report {
        Some(fault) => Some(fault@),
        None => None,
    }
}

} // verus!
