//! The sensor's state machine as mathematics: its states, and what each
//! event makes of them.

use vstd::prelude::*;
use crate::config::SerialConfig;
use crate::event::{ActionView, EventView, FaultView, Operation};
use crate::frame::{command_frame, concentration, COMMAND_LEN, READ_CONCENTRATION, RESPONSE_LEN};
use crate::reading::Measurement;
use crate::timestamp::ClockReading;

verus! {

/// Lowest concentration that a mock sensor makes up.
pub const MOCK_FLOOR_PPM: u32 = 400;

/// Width of the band of concentrations that a mock sensor makes up.
pub const MOCK_SPAN_PPM: u32 = 100;

/// Whether the sensor has a serial connection to talk over.
#[derive(Clone, Copy, Debug, PartialEq, Eq, Structural)]
pub enum SensorMode {
    /// A device is attached.
    Live,
    /// No device is attached; readings are made up.
    Mock,
}

/// Where a sensor stands in its life.
#[derive(Clone, Copy, Debug, PartialEq, Eq, Structural)]
pub enum Phase {
    /// Made, not started.
    Idle,
    /// Finding out whether the port answers.
    Probing,
    /// Polling; the last poll that ended, if any, gave a reading.
    Polling,
    /// Polling; the last poll that ended failed.
    Faulted,
    /// Stopped for good.
    Stopped,
}

/// What a sensor is waiting for.
pub enum StageView {
    /// To be started.
    Idle,
    /// For the port to be opened.
    Opening,
    /// For the probe's command to be written.
    ProbeSending,
    /// For the answer to the probe.
    ProbeListening,
    /// For a poll's command to be written.
    Sending,
    /// For the answer to a poll.
    Listening,
    /// For this measurement to be appended to the log.
    Recording(Measurement),
    /// For the rest between two polls to end.
    Resting,
    /// For nothing any more.
    Stopped,
}

/// A sensor as mathematics.
pub struct SensorView {
    pub mode: SensorMode,
    pub device: Seq<char>,
    pub device_number: u8,
    pub poll_delay_ms: u64,
    pub stage: StageView,
    pub faulted: bool,
}

/// What one event makes of a sensor: its next state, and the fault to log.
pub struct Outcome {
    pub next: SensorView,
    pub report: Option<FaultView>,
}

impl SensorView {
    /// Whether the measurement that waits to be recorded, if any, is valid.
    pub open spec fn wf(self) -> bool {
        self.stage matches StageView::Recording(m) ==> m.valid()
    }

    /// The same sensor at another stage.
    pub open spec fn at(self, stage: StageView) -> SensorView {
        SensorView { stage, ..self }
    }

    pub open spec fn phase(self) -> Phase {
        match self.stage {
            StageView::Idle => Phase::Idle,
            StageView::Opening | StageView::ProbeSending | StageView::ProbeListening => Phase::Probing,
            StageView::Stopped => Phase::Stopped,
            _ => if self.faulted {
                Phase::Faulted
            } else {
                Phase::Polling
            },
        }
    }

    /// Whether the sensor is polling.
    pub open spec fn running(self) -> bool {
        self.phase() == Phase::Polling || self.phase() == Phase::Faulted
    }

    /// The action that the sensor is waiting on.
    pub open spec fn pending(self) -> ActionView {
        match self.stage {
            StageView::Idle => ActionView::Wait,
            StageView::Opening => ActionView::Open {
                path: self.device,
                config: SerialConfig::device(),
            },
            StageView::ProbeSending | StageView::Sending => ActionView::Write(
                command_frame(self.device_number, READ_CONCENTRATION),
            ),
            StageView::ProbeListening | StageView::Listening => ActionView::Read(
                RESPONSE_LEN as nat,
            ),
            StageView::Recording(m) => ActionView::Append(m.record()),
            StageView::Resting => ActionView::Sleep(self.poll_delay_ms),
            StageView::Stopped => ActionView::Halt,
        }
    }

    /// Nothing happens: the event was not the one awaited.
    pub open spec fn stay(self) -> Outcome {
        Outcome { next: self, report: None }
    }

    /// The sensor moves on to `stage` with nothing to log.
    pub open spec fn go(self, stage: StageView) -> Outcome {
        Outcome { next: self.at(stage), report: None }
    }

    /// The probe fails: the sensor stops.
    pub open spec fn abandon(self, fault: FaultView) -> Outcome {
        Outcome { next: self.at(StageView::Stopped), report: Some(fault) }
    }

    /// A poll fails: the sensor rests, and polls again after the rest.
    pub open spec fn fail(self, fault: FaultView) -> Outcome {
        Outcome {
            next: SensorView { stage: StageView::Resting, faulted: true, ..self },
            report: Some(fault),
        }
    }

    /// A poll has given its reading to the log: the sensor rests.
    pub open spec fn succeed(self) -> Outcome {
        Outcome {
            next: SensorView { stage: StageView::Resting, faulted: false, ..self },
            report: None,
        }
    }

    /// A concentration was found at the time `clock`: it waits to be
    /// recorded where the time can be written, and the poll fails where
    /// it cannot.
    pub open spec fn record(self, ppm: nat, clock: ClockReading) -> Outcome {
        if clock.calendar().valid() {
            self.go(StageView::Recording(Measurement { time: clock.calendar(), ppm }))
        } else {
            self.fail(FaultView::ClockOutOfRange { clock })
        }
    }

    /// What the write of a command makes of the sensor: on to `then` where
    /// the whole frame was taken.
    pub open spec fn written(self, event: EventView, then: StageView, fatal: bool) -> Outcome {
        match event {
            EventView::Written(count) => if count == COMMAND_LEN {
                self.go(then)
            } else {
                self.give_up(
                    FaultView::ShortWrite { written: count, expected: COMMAND_LEN as nat },
                    fatal,
                )
            },
            EventView::WriteFailed(detail) => self.give_up(
                FaultView::IoFailure { operation: Operation::Write, detail },
                fatal,
            ),
            _ => self.stay(),
        }
    }

    /// A failure that ends the probe where `fatal`, and the poll otherwise.
    pub open spec fn give_up(self, fault: FaultView, fatal: bool) -> Outcome {
        if fatal {
            self.abandon(fault)
        } else {
            self.fail(fault)
        }
    }

    /// What `event` makes of a sensor that runs the live loop, where the
    /// clock shows `clock`.
    pub open spec fn live_step(self, event: EventView, clock: ClockReading) -> Outcome {
        if event is Stop {
            self.go(StageView::Stopped)
        } else {
            match self.stage {
                StageView::Idle => if event is Start {
                    match self.mode {
                        SensorMode::Live => self.go(StageView::Opening),
                        SensorMode::Mock => self.go(StageView::Resting),
                    }
                } else {
                    self.stay()
                },
                StageView::Opening => match event {
                    EventView::Opened => self.go(StageView::ProbeSending),
                    EventView::OpenFailed(detail) => self.abandon(
                        FaultView::PortUnavailable { detail },
                    ),
                    _ => self.stay(),
                },
                StageView::ProbeSending => self.written(event, StageView::ProbeListening, true),
                StageView::ProbeListening => match event {
                    EventView::Received(_) => self.go(StageView::Sending),
                    EventView::TimedOut => self.abandon(FaultView::Timeout),
                    EventView::ReadFailed(detail) => self.abandon(
                        FaultView::IoFailure { operation: Operation::Read, detail },
                    ),
                    _ => self.stay(),
                },
                StageView::Sending => self.written(event, StageView::Listening, false),
                StageView::Listening => match event {
                    EventView::Received(bytes) => match concentration(bytes) {
                        Ok(ppm) => self.record(ppm as nat, clock),
                        Err(reason) => self.fail(
                            FaultView::MalformedResponse { reason, raw: bytes },
                        ),
                    },
                    EventView::TimedOut => self.fail(FaultView::Timeout),
                    EventView::ReadFailed(detail) => self.fail(
                        FaultView::IoFailure { operation: Operation::Read, detail },
                    ),
                    _ => self.stay(),
                },
                StageView::Recording(_) => self.appended(event),
                StageView::Resting => if event is Woke {
                    match self.mode {
                        SensorMode::Live => self.go(StageView::Sending),
                        SensorMode::Mock => self.go(StageView::Resting),
                    }
                } else {
                    self.stay()
                },
                StageView::Stopped => self.stay(),
            }
        }
    }

    /// What the append of a record makes of the sensor.
    pub open spec fn appended(self, event: EventView) -> Outcome {
        match event {
            EventView::Appended => self.succeed(),
            EventView::AppendFailed(detail) => self.fail(
                FaultView::IoFailure { operation: Operation::Append, detail },
            ),
            _ => self.stay(),
        }
    }

    /// What `event` makes of a sensor that runs the mock loop, where the
    /// clock shows `clock` and `draw` is the byte drawn at random.
    pub open spec fn mock_step(self, event: EventView, clock: ClockReading, draw: u8) -> Outcome {
        if event is Stop {
            self.go(StageView::Stopped)
        } else {
            match self.stage {
                StageView::Idle => if event is Start {
                    self.record(mock_ppm(draw), clock)
                } else {
                    self.stay()
                },
                StageView::Resting => if event is Woke {
                    self.record(mock_ppm(draw), clock)
                } else {
                    self.stay()
                },
                StageView::Recording(_) => self.appended(event),
                _ => self.stay(),
            }
        }
    }
}

/// Whether a probe shows the port responsive, where its write ended as
/// `written` says and its read as `answered` says: the whole command was
/// taken, and an answer came.
pub open spec fn probe_verdict(written: EventView, answered: EventView) -> bool {
    written == EventView::Written(COMMAND_LEN as nat) && answered is Received
}

/// The concentration that a mock sensor makes of the byte `draw`.
pub open spec fn mock_ppm(draw: u8) -> nat {
    (MOCK_FLOOR_PPM + draw % (MOCK_SPAN_PPM as u8)) as nat
}

} // verus!
