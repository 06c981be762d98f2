//! The sensor: one polling loop over one serial device, driven from outside.

use vstd::prelude::*;
use crate::clock::local_now;
use crate::mock::{random_byte, synthetic_ppm};
use crate::config::{SerialConfig, DEFAULT_DEVICE_PATH, DEFAULT_POLL_DELAY_MS};
use crate::event::{reported, Action, Event, EventView, Fault, FaultView, Operation};
use crate::frame::{
    decode_concentration, encode_calibrate_zero, encode_read_command, command_frame,
    CALIBRATE_ZERO, COMMAND_LEN, DEFAULT_DEVICE, RESPONSE_LEN,
};
use crate::machine::{probe_verdict, Phase, SensorMode, SensorView, StageView};
use crate::reading::Reading;
use crate::timestamp::{ClockReading, Timestamp};

verus! {

#[derive(Clone, Copy, Debug, PartialEq, Eq, Structural)]
enum Stage {
    Idle,
    Opening,
    ProbeSending,
    ProbeListening,
    Sending,
    Listening,
    Recording(Reading),
    Resting,
    Stopped,
}

impl View for Stage {
    type V = StageView;

    closed spec fn view(&self) -> StageView {
        match *self {
            Stage::Idle => StageView::Idle,
            Stage::Opening => StageView::Opening,
            Stage::ProbeSending => StageView::ProbeSending,
            Stage::ProbeListening => StageView::ProbeListening,
            Stage::Sending => StageView::Sending,
            Stage::Listening => StageView::Listening,
            Stage::Recording(reading) => StageView::Recording(reading@),
            Stage::Resting => StageView::Resting,
            Stage::Stopped => StageView::Stopped,
        }
    }
}

/// One sensor on one serial device. It does no input or output itself: it
/// is told what happened, and says what is to be done next.
#[derive(Clone, Debug, PartialEq, Eq)]
pub struct Sensor {
    mode: SensorMode,
    serial_device: String,
    device_number: u8,
    poll_delay_ms: u64,
    stage: Stage,
    faulted: bool,
}

impl View for Sensor {
    type V = SensorView;

    closed spec fn view(&self) -> SensorView {
        SensorView {
            mode: self.mode,
            device: self.serial_device@,
            device_number: self.device_number,
            poll_delay_ms: self.poll_delay_ms,
            stage: self.stage@,
            faulted: self.faulted,
        }
    }
}

/// What the sensor answers to an event: the fault to log, if the event
/// brought one, and the action to take next.
#[derive(Clone, Debug, PartialEq, Eq)]
pub struct Turn {
    pub report: Option<Fault>,
    pub action: Action,
}

impl Turn {
    /// The fault to log, as mathematics.
    pub open spec fn report_view(self) -> Option<FaultView> {
        reported(self.report)
    }
}

/// Whether `turn` and `after` are what the live loop makes of `event` on
/// the sensor `before`, by the clock reading `clock`.
pub open spec fn live_turn(
    before: SensorView,
    event: EventView,
    clock: ClockReading,
    after: SensorView,
    turn: Turn,
) -> bool {
    &&& after == before.live_step(event, clock).next
    &&& turn.report_view() == before.live_step(event, clock).report
    &&& turn.action@ == after.pending()
}

/// Whether `turn` and `after` are what the mock loop makes of `event` on
/// the sensor `before`, by the clock reading `clock` and the byte `draw`.
pub open spec fn mock_turn(
    before: SensorView,
    event: EventView,
    clock: ClockReading,
    draw: u8,
    after: SensorView,
    turn: Turn,
) -> bool {
    &&& after == before.mock_step(event, clock, draw).next
    &&& turn.report_view() == before.mock_step(event, clock, draw).report
    &&& turn.action@ == after.pending()
}

/// A sensor as it is made: idle, with the default device number and the
/// default rest between polls.
pub open spec fn fresh(mode: SensorMode, device: Seq<char>) -> SensorView {
    SensorView {
        mode,
        device,
        device_number: DEFAULT_DEVICE,
        poll_delay_ms: DEFAULT_POLL_DELAY_MS,
        stage: StageView::Idle,
        faulted: false,
    }
}

/// Whether a probe shows the port responsive, where its write ended as
/// `written` says and its read as `answered` says. This is the verdict by
/// which a sensor goes on from probing to polling.
pub fn check_port(written: &Event, answered: &Event) -> (responsive: bool)
    ensures
        responsive == probe_verdict(written@, answered@),
{
    match (written, answered) {
        (Event::Written(count), Event::Received(_)) => *count == COMMAND_LEN,
        _ => false,
    }
}

impl Sensor {
    /// A sensor on the serial device `device`, not started yet. The port
    /// is opened by the driver, when the sensor asks for it.
    pub fn new(device: String) -> (sensor: Sensor)
        ensures
            sensor@ == fresh(SensorMode::Live, device@),
            sensor@.wf(),
    {
        Sensor {
            mode: SensorMode::Live,
            serial_device: device,
            device_number: DEFAULT_DEVICE,
            poll_delay_ms: DEFAULT_POLL_DELAY_MS,
            stage: Stage::Idle,
            faulted: false,
        }
    }

    /// A sensor with no device behind it, not started yet. It is named
    /// after the default device whatever `device` says.
    pub fn new_mock(device: String) -> (sensor: Sensor)
        ensures
            sensor@ == fresh(SensorMode::Mock, DEFAULT_DEVICE_PATH@),
            sensor@.wf(),
    {
        let _ = device;
        Sensor {
            mode: SensorMode::Mock,
            serial_device: DEFAULT_DEVICE_PATH.to_owned(),
            device_number: DEFAULT_DEVICE,
            poll_delay_ms: DEFAULT_POLL_DELAY_MS,
            stage: Stage::Idle,
            faulted: false,
        }
    }

    /// The same sensor, resting `millis` milliseconds between polls.
    pub fn with_poll_delay(self, millis: u64) -> (sensor: Sensor)
        ensures
            sensor@ == (SensorView { poll_delay_ms: millis, ..self@ }),
    {
        Sensor { poll_delay_ms: millis, ..self }
    }

    /// The same sensor, addressing the device numbered `device_number`.
    pub fn with_device_number(self, device_number: u8) -> (sensor: Sensor)
        ensures
            sensor@ == (SensorView { device_number, ..self@ }),
    {
        Sensor { device_number, ..self }
    }

    pub fn mode(&self) -> (mode: SensorMode)
        ensures
            mode == self@.mode,
    {
        self.mode
    }

    pub fn serial_device(&self) -> (device: &str)
        ensures
            device@ == self@.device,
    {
        self.serial_device.as_str()
    }

    pub fn device_number(&self) -> (device_number: u8)
        ensures
            device_number == self@.device_number,
    {
        self.device_number
    }

    pub fn poll_delay_ms(&self) -> (millis: u64)
        ensures
            millis == self@.poll_delay_ms,
    {
        self.poll_delay_ms
    }

    /// Where the sensor stands in its life.
    pub fn phase(&self) -> (phase: Phase)
        ensures
            phase == self@.phase(),
    {
        match self.stage {
            Stage::Idle => Phase::Idle,
            Stage::Opening | Stage::ProbeSending | Stage::ProbeListening => Phase::Probing,
            Stage::Stopped => Phase::Stopped,
            _ => if self.faulted {
                Phase::Faulted
            } else {
                Phase::Polling
            },
        }
    }

    /// Whether the sensor is polling: the probe has passed, and nothing
    /// has stopped it since.
    pub fn is_running(&self) -> (running: bool)
        ensures
            running == self@.running(),
    {
        match self.phase() {
            Phase::Polling | Phase::Faulted => true,
            _ => false,
        }
    }

    /// The reading that waits to be appended to the log, if one does.
    pub fn pending_reading(&self) -> (reading: Option<Reading>)
        ensures
            match reading {
                Some(r) => self@.stage == StageView::Recording(r@) && r@.valid(),
                None => !(self@.stage is Recording),
            },
            self@.wf(),
    {
        match self.stage {
            Stage::Recording(reading) => {
                reading.timestamp.confirm_valid();
                Some(reading)
            },
            _ => None,
        }
    }

    /// The action that the sensor is waiting on.
    pub fn pending_action(&self) -> (action: Action)
        ensures
            action@ == self@.pending(),
            self@.wf(),
    {
        match self.stage {
            Stage::Idle => Action::Wait,
            Stage::Opening => Action::Open {
                path: self.serial_device.clone(),
                config: SerialConfig::for_device(),
            },
            Stage::ProbeSending | Stage::Sending => {
                let frame = encode_read_command(self.device_number);
                Action::Write(vstd::slice::slice_to_vec(frame.as_slice()))
            },
            Stage::ProbeListening | Stage::Listening => Action::Read(RESPONSE_LEN),
            Stage::Recording(reading) => Action::Append(reading.to_record()),
            Stage::Resting => Action::Sleep(self.poll_delay_ms),
            Stage::Stopped => Action::Halt,
        }
    }

    fn fail(&mut self, fault: Fault) -> (report: Option<Fault>)
        ensures
            final(self)@ == old(self)@.fail(fault@).next,
            report == Some(fault),
    {
        self.stage = Stage::Resting;
        self.faulted = true;
        Some(fault)
    }

    fn give_up(&mut self, fault: Fault, fatal: bool) -> (report: Option<Fault>)
        ensures
            final(self)@ == old(self)@.give_up(fault@, fatal).next,
            report == Some(fault),
    {
        if fatal {
            self.stage = Stage::Stopped;
            Some(fault)
        } else {
            self.fail(fault)
        }
    }

    fn record(&mut self, ppm: u32, clock: ClockReading) -> (report: Option<Fault>)
        ensures
            final(self)@ == old(self)@.record(ppm as nat, clock).next,
            reported(report) == old(self)@.record(
                ppm as nat,
                clock,
            ).report,
            final(self)@.wf(),
    {
        match Timestamp::from_clock(clock) {
            Some(timestamp) => {
                self.stage = Stage::Recording(Reading::new(timestamp, ppm));
                None
            },
            None => self.fail(Fault::ClockOutOfRange { clock }),
        }
    }

    fn written(&mut self, event: Event, then: Stage, fatal: bool) -> (report: Option<Fault>)
        requires
            !(then is Recording),
        ensures
            final(self)@ == old(self)@.written(event@, then@, fatal).next,
            reported(report) == old(self)@.written(
                event@,
                then@,
                fatal,
            ).report,
    {
        match event {
            Event::Written(count) => {
                if count == COMMAND_LEN {
                    self.stage = then;
                    None
                } else {
                    self.give_up(Fault::ShortWrite { written: count, expected: COMMAND_LEN }, fatal)
                }
            },
            Event::WriteFailed(detail) => self.give_up(
                Fault::IoFailure { operation: Operation::Write, detail },
                fatal,
            ),
            _ => None,
        }
    }

    fn appended(&mut self, event: Event) -> (report: Option<Fault>)
        ensures
            final(self)@ == old(self)@.appended(event@).next,
            reported(report) == old(self)@.appended(
                event@,
            ).report,
    {
        match event {
            Event::Appended => {
                self.stage = Stage::Resting;
                self.faulted = false;
                None
            },
            Event::AppendFailed(detail) => self.fail(
                Fault::IoFailure { operation: Operation::Append, detail },
            ),
            _ => None,
        }
    }

    fn confirm_wf(&self)
        ensures
            self@.wf(),
    {
        let _ = self.pending_reading();
    }

    fn advance(&mut self, event: Event, clock: ClockReading) -> (report: Option<Fault>)
        ensures
            final(self)@ == old(self)@.live_step(event@, clock).next,
            reported(report) == old(self)@.live_step(event@, clock).report,
            final(self)@.wf(),
    {
        self.confirm_wf();
        if let Event::Stop = event {
            self.stage = Stage::Stopped;
            return None;
        }
        match self.stage {
            Stage::Idle => {
                if let Event::Start = event {
                    match self.mode {
                        SensorMode::Live => {
                            self.stage = Stage::Opening;
                        },
                        SensorMode::Mock => {
                            self.stage = Stage::Resting;
                        },
                    }
                }
                None
            },
            Stage::Opening => match event {
                Event::Opened => {
                    self.stage = Stage::ProbeSending;
                    None
                },
                Event::OpenFailed(detail) => {
                    self.stage = Stage::Stopped;
                    Some(Fault::PortUnavailable { detail })
                },
                _ => None,
            },
            Stage::ProbeSending => self.written(event, Stage::ProbeListening, true),
            Stage::ProbeListening => match event {
                Event::Received(_) => {
                    self.stage = Stage::Sending;
                    None
                },
                Event::TimedOut => {
                    self.stage = Stage::Stopped;
                    Some(Fault::Timeout)
                },
                Event::ReadFailed(detail) => {
                    self.stage = Stage::Stopped;
                    Some(Fault::IoFailure { operation: Operation::Read, detail })
                },
                _ => None,
            },
            Stage::Sending => self.written(event, Stage::Listening, false),
            Stage::Listening => match event {
                Event::Received(bytes) => match decode_concentration(bytes.as_slice()) {
                    Ok(ppm) => self.record(ppm, clock),
                    Err(reason) => self.fail(Fault::MalformedResponse { reason, raw: bytes }),
                },
                Event::TimedOut => self.fail(Fault::Timeout),
                Event::ReadFailed(detail) => self.fail(
                    Fault::IoFailure { operation: Operation::Read, detail },
                ),
                _ => None,
            },
            Stage::Recording(_) => self.appended(event),
            Stage::Resting => {
                if let Event::Woke = event {
                    match self.mode {
                        SensorMode::Live => {
                            self.stage = Stage::Sending;
                        },
                        SensorMode::Mock => {},
                    }
                }
                None
            },
            Stage::Stopped => None,
        }
    }

    /// One turn of the live loop, by the clock reading `clock`: takes in
    /// what the driver reports and says what it is to do next.
    ///
    /// A started sensor opens its port and probes it with one command and
    /// one read; where both come through it polls, and where either fails
    /// it stops for good. Each poll writes the command, reads the
    /// response, decodes it and hands the reading to the log; whatever
    /// fails in a poll is reported, and the sensor rests and polls again.
    /// An event that the sensor is not waiting for changes nothing. A
    /// sensor without a device only rests.
    pub fn step(&mut self, event: Event, clock: ClockReading) -> (turn: Turn)
        ensures
            final(self)@ == old(self)@.live_step(event@, clock).next,
            turn.report_view() == old(self)@.live_step(event@, clock).report,
            turn.action@ == final(self)@.pending(),
            final(self)@.wf(),
    {
        let report = self.advance(event, clock);
        let action = self.pending_action();
        Turn { report, action }
    }

    fn advance_mock(&mut self, event: Event, clock: ClockReading, draw: u8) -> (report: Option<
        Fault,
    >)
        ensures
            final(self)@ == old(self)@.mock_step(event@, clock, draw).next,
            reported(report) == old(self)@.mock_step(event@, clock, draw).report,
            final(self)@.wf(),
    {
        self.confirm_wf();
        if let Event::Stop = event {
            self.stage = Stage::Stopped;
            return None;
        }
        match self.stage {
            Stage::Idle => {
                if let Event::Start = event {
                    self.record(synthetic_ppm(draw), clock)
                } else {
                    None
                }
            },
            Stage::Resting => {
                if let Event::Woke = event {
                    self.record(synthetic_ppm(draw), clock)
                } else {
                    None
                }
            },
            Stage::Recording(_) => self.appended(event),
            _ => None,
        }
    }

    /// One turn of the mock loop, by the clock reading `clock` and the
    /// random byte `draw`: takes in what the driver reports and says what
    /// it is to do next.
    ///
    /// When started, and after each rest, the sensor makes up a reading:
    /// a concentration in the mock band, taken at the time on the clock.
    /// The reading is handed to the log and the sensor rests; the port is
    /// never asked for. An event that the sensor is not waiting for
    /// changes nothing.
    pub fn step_mock(&mut self, event: Event, clock: ClockReading, draw: u8) -> (turn: Turn)
        ensures
            final(self)@ == old(self)@.mock_step(event@, clock, draw).next,
            turn.report_view() == old(self)@.mock_step(event@, clock, draw).report,
            turn.action@ == final(self)@.pending(),
            final(self)@.wf(),
    {
        let report = self.advance_mock(event, clock, draw);
        let action = self.pending_action();
        Turn { report, action }
    }

    /// One turn of the live loop: `step`, by the system's local clock. The
    /// clock is read where a response has come in, to stamp its reading.
    pub fn read_ppm_loop(&mut self, event: Event) -> (turn: Turn)
        ensures
            exists|clock: ClockReading|
                clock.plausible() && #[trigger] live_turn(
                    old(self)@,
                    event@,
                    clock,
                    final(self)@,
                    turn,
                ),
            final(self)@.wf(),
    {
        let stamped = match (self.stage, &event) {
            (Stage::Listening, Event::Received(_)) => true,
            _ => false,
        };
        let clock = if stamped {
            local_now()
        } else {
            ClockReading::epoch()
        };
        let ghost before = self@;
        let ghost happened = event@;
        let turn = self.step(event, clock);
        assert(live_turn(before, happened, clock, self@, turn));
        turn
    }

    /// One turn of the mock loop: `step_mock`, by the system's local clock
    /// and a byte drawn at random. Both are taken where a reading is to
    /// be made up.
    pub fn read_ppm_loop_mock(&mut self, event: Event) -> (turn: Turn)
        ensures
            exists|clock: ClockReading, draw: u8|
                clock.plausible() && #[trigger] mock_turn(
                    old(self)@,
                    event@,
                    clock,
                    draw,
                    final(self)@,
                    turn,
                ),
            final(self)@.wf(),
    {
        let made_up = match (self.stage, &event) {
            (Stage::Idle, Event::Start) => true,
            (Stage::Resting, Event::Woke) => true,
            _ => false,
        };
        let clock = if made_up {
            local_now()
        } else {
            ClockReading::epoch()
        };
        let draw = if made_up {
            random_byte()
        } else {
            0
        };
        let ghost before = self@;
        let ghost happened = event@;
        let turn = self.step_mock(event, clock, draw);
        assert(mock_turn(before, happened, clock, draw, self@, turn));
        turn
    }

    /// The frame to send where the device is to be calibrated to its zero
    /// point, if the sensor has a device to send it to.
    pub fn calibrate_zero(&self) -> (frame: Option<[u8; 8]>)
        ensures
            match frame {
                Some(bytes) => self@.mode == SensorMode::Live && bytes@ == command_frame(
                    self@.device_number,
                    CALIBRATE_ZERO,
                ),
                None => self@.mode == SensorMode::Mock,
            },
    {
        match self.mode {
            SensorMode::Live => Some(encode_calibrate_zero(self.device_number)),
            SensorMode::Mock => None,
        }
    }
}

} // verus!
