use co2_sensor::config::SerialConfig;
use co2_sensor::event::{Action, Event, Fault, FaultKind, Operation};
use co2_sensor::frame::MalformedResponse;
use co2_sensor::machine::{Phase, SensorMode};
use co2_sensor::reading::Reading;
use co2_sensor::sensor::{check_port, Sensor, Turn};
use co2_sensor::timestamp::{ClockReading, Timestamp};

const READ_COMMAND: [u8; 8] = [0xFF, 0x01, 0x86, 0, 0, 0, 0, 0];

fn clock(second: u32) -> ClockReading {
    ClockReading { year: 2024, month: 3, day: 9, hour: 17, minute: 45, second }
}

fn response(ppm: u16) -> Vec<u8> {
    vec![0xFF, 0x86, (ppm >> 8) as u8, (ppm & 0xFF) as u8, 0, 0, 0, 0, 0]
}

/// A driver with a log in memory: does what the sensor asks and answers
/// from a script of what the port gives.
fn drive(sensor: &mut Sensor, port: Vec<Event>, clocks: Vec<ClockReading>) -> (Vec<u8>, Vec<Fault>) {
    let mut log = Vec::new();
    let mut faults = Vec::new();
    let mut port = port.into_iter();
    let mut clocks = clocks.into_iter();
    let mut event = Event::Start;
    loop {
        let now = match event {
            Event::Received(_) => clocks.next().unwrap_or(clock(0)),
            _ => clock(0),
        };
        let turn = sensor.step(event, now);
        if let Some(fault) = turn.report {
            faults.push(fault);
        }
        event = match turn.action {
            Action::Wait => Event::Start,
            Action::Open { .. } => Event::Opened,
            Action::Write(_) | Action::Read(_) => match port.next() {
                Some(e) => e,
                None => Event::Stop,
            },
            Action::Append(bytes) => {
                log.extend_from_slice(&bytes);
                Event::Appended
            },
            Action::Sleep(_) => Event::Woke,
            Action::Halt => break,
        };
    }
    (log, faults)
}

fn polling_sensor() -> Sensor {
    let mut s = Sensor::new("/dev/ttyUSB0".to_string());
    s.step(Event::Start, clock(0));
    s.step(Event::Opened, clock(0));
    s.step(Event::Written(8), clock(0));
    let turn = s.step(Event::Received(response(400)), clock(0));
    assert_eq!(turn.action, Action::Write(READ_COMMAND.to_vec()));
    assert_eq!(s.phase(), Phase::Polling);
    s
}

#[test]
fn new_sensor_is_idle_and_live() {
    let s = Sensor::new("/dev/ttyUSB0".to_string());
    assert_eq!(s.mode(), SensorMode::Live);
    assert_eq!(s.serial_device(), "/dev/ttyUSB0");
    assert_eq!(s.device_number(), 0x01);
    assert_eq!(s.poll_delay_ms(), 1000);
    assert_eq!(s.phase(), Phase::Idle);
    assert!(!s.is_running());
    assert_eq!(s.pending_action(), Action::Wait);
    assert_eq!(s.pending_reading(), None);
}

#[test]
fn new_mock_sensor_is_named_after_the_default_device() {
    let s = Sensor::new_mock("/dev/ttyUSB0".to_string());
    assert_eq!(s.mode(), SensorMode::Mock);
    assert_eq!(s.serial_device(), "/dev/ttyAMA0");
    assert_eq!(s.device_number(), 0x01);
    assert_eq!(s.phase(), Phase::Idle);
}

#[test]
fn builders_set_delay_and_device_number() {
    let s = Sensor::new("/dev/ttyUSB0".to_string()).with_poll_delay(250).with_device_number(7);
    assert_eq!(s.poll_delay_ms(), 250);
    assert_eq!(s.device_number(), 7);
    assert_eq!(s.serial_device(), "/dev/ttyUSB0");
}

#[test]
fn start_asks_for_the_port() {
    let mut s = Sensor::new("/dev/ttyUSB0".to_string());
    let turn = s.step(Event::Start, clock(0));
    assert_eq!(turn.report, None);
    assert_eq!(
        turn.action,
        Action::Open { path: "/dev/ttyUSB0".to_string(), config: SerialConfig::for_device() }
    );
    assert_eq!(s.phase(), Phase::Probing);
}

#[test]
fn probe_writes_reads_and_then_polls() {
    let mut s = Sensor::new("/dev/ttyUSB0".to_string());
    s.step(Event::Start, clock(0));
    let turn = s.step(Event::Opened, clock(0));
    assert_eq!(turn.action, Action::Write(READ_COMMAND.to_vec()));
    assert_eq!(s.phase(), Phase::Probing);
    let turn = s.step(Event::Written(8), clock(0));
    assert_eq!(turn.action, Action::Read(9));
    assert_eq!(s.phase(), Phase::Probing);
    let turn = s.step(Event::Received(response(400)), clock(0));
    assert_eq!(turn.report, None);
    assert_eq!(turn.action, Action::Write(READ_COMMAND.to_vec()));
    assert_eq!(s.phase(), Phase::Polling);
    assert!(s.is_running());
}

#[test]
fn probe_answer_is_not_logged() {
    let mut s = Sensor::new("/dev/ttyUSB0".to_string());
    let (log, faults) = drive(&mut s, vec![Event::Written(8), Event::Received(response(400))], vec![]);
    assert_eq!(log, Vec::<u8>::new());
    assert_eq!(faults, vec![]);
}

#[test]
fn command_carries_the_device_number() {
    let mut s = Sensor::new("/dev/ttyUSB0".to_string()).with_device_number(0x2A);
    s.step(Event::Start, clock(0));
    let turn = s.step(Event::Opened, clock(0));
    assert_eq!(turn.action, Action::Write(vec![0xFF, 0x2A, 0x86, 0, 0, 0, 0, 0]));
}

#[test]
fn three_polls_log_three_lines_in_order() {
    let mut s = Sensor::new("/dev/ttyUSB0".to_string());
    let port = vec![
        Event::Written(8),
        Event::Received(response(400)),
        Event::Written(8),
        Event::Received(response(410)),
        Event::Written(8),
        Event::Received(response(415)),
        Event::Written(8),
        Event::Received(response(420)),
    ];
    let (log, faults) = drive(&mut s, port, vec![clock(0), clock(1), clock(2), clock(3)]);
    assert_eq!(faults, vec![]);
    assert_eq!(
        String::from_utf8(log).unwrap(),
        "2024-03-09 17:45:01,410\n2024-03-09 17:45:02,415\n2024-03-09 17:45:03,420\n"
    );
}

#[test]
fn logged_lines_read_back() {
    let mut s = Sensor::new("/dev/ttyUSB0".to_string());
    let port = vec![
        Event::Written(8),
        Event::Received(response(400)),
        Event::Written(8),
        Event::Received(response(410)),
        Event::Written(8),
        Event::Received(response(65535)),
    ];
    let (log, _) = drive(&mut s, port, vec![clock(0), clock(1), clock(59)]);
    let lines: Vec<&[u8]> = log.split(|b| *b == b'\n').filter(|l| !l.is_empty()).collect();
    assert_eq!(lines.len(), 2);
    let first = Reading::parse_line(lines[0]).unwrap();
    let second = Reading::parse_line(lines[1]).unwrap();
    assert_eq!(first, Reading::new(Timestamp::from_clock(clock(1)).unwrap(), 410));
    assert_eq!(second, Reading::new(Timestamp::from_clock(clock(59)).unwrap(), 65535));
}

#[test]
fn poll_goes_write_read_append_sleep() {
    let mut s = polling_sensor();
    let turn = s.step(Event::Written(8), clock(1));
    assert_eq!(turn, Turn { report: None, action: Action::Read(9) });
    let turn = s.step(Event::Received(response(410)), clock(1));
    assert_eq!(turn.report, None);
    assert_eq!(turn.action, Action::Append(b"2024-03-09 17:45:01,410\n".to_vec()));
    assert_eq!(
        s.pending_reading(),
        Some(Reading::new(Timestamp::from_clock(clock(1)).unwrap(), 410))
    );
    let turn = s.step(Event::Appended, clock(2));
    assert_eq!(turn, Turn { report: None, action: Action::Sleep(1000) });
    assert_eq!(s.pending_reading(), None);
    let turn = s.step(Event::Woke, clock(3));
    assert_eq!(turn.action, Action::Write(READ_COMMAND.to_vec()));
    assert_eq!(s.phase(), Phase::Polling);
}

#[test]
fn rest_is_as_long_as_configured() {
    let mut s = Sensor::new("/dev/ttyUSB0".to_string()).with_poll_delay(250);
    s.step(Event::Start, clock(0));
    s.step(Event::Opened, clock(0));
    s.step(Event::Written(8), clock(0));
    s.step(Event::Received(response(400)), clock(0));
    s.step(Event::Written(8), clock(0));
    let turn = s.step(Event::TimedOut, clock(0));
    assert_eq!(turn.action, Action::Sleep(250));
}

#[test]
fn timeout_in_a_poll_is_reported_and_retried() {
    let mut s = polling_sensor();
    s.step(Event::Written(8), clock(1));
    let turn = s.step(Event::TimedOut, clock(1));
    assert_eq!(turn.report, Some(Fault::Timeout));
    assert_eq!(turn.action, Action::Sleep(1000));
    assert_eq!(s.phase(), Phase::Faulted);
    assert!(s.is_running());
    let turn = s.step(Event::Woke, clock(2));
    assert_eq!(turn.action, Action::Write(READ_COMMAND.to_vec()));
    s.step(Event::Written(8), clock(2));
    let turn = s.step(Event::Received(response(415)), clock(2));
    assert_eq!(turn.action, Action::Append(b"2024-03-09 17:45:02,415\n".to_vec()));
    s.step(Event::Appended, clock(2));
    assert_eq!(s.phase(), Phase::Polling);
}

#[test]
fn malformed_response_is_reported_with_its_bytes() {
    let mut s = polling_sensor();
    s.step(Event::Written(8), clock(1));
    let raw = vec![0xFF, 0x86, 0x01, 0x90, 0, 0, 0];
    let turn = s.step(Event::Received(raw.clone()), clock(1));
    assert_eq!(
        turn.report,
        Some(Fault::MalformedResponse {
            reason: MalformedResponse::WrongLength { length: 7 },
            raw,
        })
    );
    assert_eq!(turn.action, Action::Sleep(1000));
    assert!(s.is_running());
}

#[test]
fn wrong_start_byte_in_a_poll_is_malformed() {
    let mut s = polling_sensor();
    s.step(Event::Written(8), clock(1));
    let raw = vec![0x00, 0x86, 0x01, 0x90, 0, 0, 0, 0, 0];
    let turn = s.step(Event::Received(raw.clone()), clock(1));
    assert_eq!(
        turn.report,
        Some(Fault::MalformedResponse {
            reason: MalformedResponse::WrongStartByte { byte: 0 },
            raw,
        })
    );
}

#[test]
fn a_failure_on_one_poll_leaves_the_next_alone() {
    let mut s = Sensor::new("/dev/ttyUSB0".to_string());
    let port = vec![
        Event::Written(8),
        Event::Received(response(400)),
        Event::Written(8),
        Event::TimedOut,
        Event::Written(8),
        Event::Received(response(410)),
        Event::Written(8),
        Event::Received(vec![1, 2, 3]),
        Event::WriteFailed("broken pipe".to_string()),
        Event::Written(8),
        Event::ReadFailed("input/output error".to_string()),
        Event::Written(8),
        Event::Received(response(420)),
    ];
    let (log, faults) = drive(&mut s, port, vec![clock(0), clock(1), clock(2), clock(3)]);
    assert_eq!(
        String::from_utf8(log).unwrap(),
        "2024-03-09 17:45:01,410\n2024-03-09 17:45:03,420\n"
    );
    let kinds: Vec<FaultKind> = faults.iter().map(|f| f.kind()).collect();
    assert_eq!(
        kinds,
        vec![
            FaultKind::Timeout,
            FaultKind::MalformedResponse,
            FaultKind::IoFailure,
            FaultKind::IoFailure
        ]
    );
}

#[test]
fn write_failure_ends_the_poll() {
    let mut s = polling_sensor();
    let turn = s.step(Event::WriteFailed("broken pipe".to_string()), clock(1));
    assert_eq!(
        turn.report,
        Some(Fault::IoFailure { operation: Operation::Write, detail: "broken pipe".to_string() })
    );
    assert_eq!(turn.action, Action::Sleep(1000));
    assert_eq!(s.phase(), Phase::Faulted);
}

#[test]
fn short_write_ends_the_poll() {
    let mut s = polling_sensor();
    let turn = s.step(Event::Written(5), clock(1));
    assert_eq!(turn.report, Some(Fault::ShortWrite { written: 5, expected: 8 }));
    assert_eq!(turn.action, Action::Sleep(1000));
    assert!(s.is_running());
}

#[test]
fn read_failure_ends_the_poll() {
    let mut s = polling_sensor();
    s.step(Event::Written(8), clock(1));
    let turn = s.step(Event::ReadFailed("input/output error".to_string()), clock(1));
    assert_eq!(
        turn.report,
        Some(Fault::IoFailure {
            operation: Operation::Read,
            detail: "input/output error".to_string()
        })
    );
    assert_eq!(turn.action, Action::Sleep(1000));
}

#[test]
fn append_failure_loses_the_reading_and_not_the_loop() {
    let mut s = polling_sensor();
    s.step(Event::Written(8), clock(1));
    s.step(Event::Received(response(410)), clock(1));
    let turn = s.step(Event::AppendFailed("disk full".to_string()), clock(1));
    assert_eq!(
        turn.report,
        Some(Fault::IoFailure { operation: Operation::Append, detail: "disk full".to_string() })
    );
    assert_eq!(turn.action, Action::Sleep(1000));
    assert_eq!(s.pending_reading(), None);
    assert!(s.is_running());
    let turn = s.step(Event::Woke, clock(2));
    assert_eq!(turn.action, Action::Write(READ_COMMAND.to_vec()));
}

#[test]
fn clock_beyond_four_digit_years_fails_the_poll() {
    let mut s = polling_sensor();
    s.step(Event::Written(8), clock(1));
    let late = ClockReading { year: 10000, ..clock(1) };
    let turn = s.step(Event::Received(response(410)), late);
    assert_eq!(turn.report, Some(Fault::ClockOutOfRange { clock: late }));
    assert_eq!(turn.action, Action::Sleep(1000));
    assert!(s.is_running());
}

#[test]
fn open_failure_stops_the_sensor() {
    let mut s = Sensor::new("/dev/ttyUSB0".to_string());
    s.step(Event::Start, clock(0));
    let turn = s.step(Event::OpenFailed("no such device".to_string()), clock(0));
    assert_eq!(
        turn.report,
        Some(Fault::PortUnavailable { detail: "no such device".to_string() })
    );
    assert_eq!(turn.action, Action::Halt);
    assert_eq!(s.phase(), Phase::Stopped);
    assert!(!s.is_running());
}

#[test]
fn failed_probe_write_stops_the_sensor() {
    let mut s = Sensor::new("/dev/ttyUSB0".to_string());
    s.step(Event::Start, clock(0));
    s.step(Event::Opened, clock(0));
    let turn = s.step(Event::WriteFailed("broken pipe".to_string()), clock(0));
    assert_eq!(turn.report.map(|f| f.kind()), Some(FaultKind::IoFailure));
    assert_eq!(turn.action, Action::Halt);
    assert_eq!(s.phase(), Phase::Stopped);
}

#[test]
fn short_probe_write_stops_the_sensor() {
    let mut s = Sensor::new("/dev/ttyUSB0".to_string());
    s.step(Event::Start, clock(0));
    s.step(Event::Opened, clock(0));
    let turn = s.step(Event::Written(0), clock(0));
    assert_eq!(turn.report, Some(Fault::ShortWrite { written: 0, expected: 8 }));
    assert_eq!(s.phase(), Phase::Stopped);
}

#[test]
fn unanswered_probe_stops_the_sensor_and_logs_nothing() {
    let mut s = Sensor::new("/dev/ttyUSB0".to_string());
    let (log, faults) = drive(
        &mut s,
        vec![Event::Written(8), Event::TimedOut, Event::Written(8), Event::Received(response(410))],
        vec![clock(1)],
    );
    assert_eq!(log, Vec::<u8>::new());
    assert_eq!(faults, vec![Fault::Timeout]);
    assert_eq!(s.phase(), Phase::Stopped);
    assert!(!s.is_running());
}

#[test]
fn stopped_sensor_stays_stopped() {
    let mut s = Sensor::new("/dev/ttyUSB0".to_string());
    s.step(Event::Start, clock(0));
    s.step(Event::OpenFailed("no such device".to_string()), clock(0));
    for event in [
        Event::Start,
        Event::Opened,
        Event::Written(8),
        Event::Received(response(410)),
        Event::Appended,
        Event::Woke,
        Event::Stop,
    ] {
        let turn = s.step(event, clock(0));
        assert_eq!(turn.report, None);
        assert_eq!(turn.action, Action::Halt);
        assert_eq!(s.phase(), Phase::Stopped);
    }
}

#[test]
fn failed_probe_read_stops_the_sensor() {
    let mut s = Sensor::new("/dev/ttyUSB0".to_string());
    s.step(Event::Start, clock(0));
    s.step(Event::Opened, clock(0));
    s.step(Event::Written(8), clock(0));
    let turn = s.step(Event::ReadFailed("input/output error".to_string()), clock(0));
    assert_eq!(turn.report.map(|f| f.kind()), Some(FaultKind::IoFailure));
    assert_eq!(s.phase(), Phase::Stopped);
}

#[test]
fn stop_halts_from_any_stage() {
    let mut idle = Sensor::new("/dev/ttyUSB0".to_string());
    assert_eq!(idle.step(Event::Stop, clock(0)).action, Action::Halt);
    assert_eq!(idle.phase(), Phase::Stopped);
    let mut polling = polling_sensor();
    polling.step(Event::Written(8), clock(0));
    let turn = polling.step(Event::Stop, clock(0));
    assert_eq!(turn.report, None);
    assert_eq!(turn.action, Action::Halt);
    assert!(!polling.is_running());
}

#[test]
fn an_event_that_is_not_awaited_changes_nothing() {
    let mut s = polling_sensor();
    let before = s.clone();
    for event in [
        Event::Start,
        Event::Opened,
        Event::OpenFailed("x".to_string()),
        Event::Received(response(410)),
        Event::TimedOut,
        Event::Appended,
        Event::Woke,
    ] {
        let turn = s.step(event, clock(0));
        assert_eq!(turn.report, None);
        assert_eq!(turn.action, Action::Write(READ_COMMAND.to_vec()));
        assert_eq!(s, before);
    }
}

#[test]
fn live_loop_on_a_mock_sensor_only_rests() {
    let mut s = Sensor::new_mock("ignored".to_string());
    let turn = s.step(Event::Start, clock(0));
    assert_eq!(turn.action, Action::Sleep(1000));
    for _ in 0..5 {
        let turn = s.step(Event::Woke, clock(0));
        assert_eq!(turn.report, None);
        assert_eq!(turn.action, Action::Sleep(1000));
    }
}

#[test]
fn calibrate_zero_gives_the_frame_of_a_live_sensor() {
    let s = Sensor::new("/dev/ttyUSB0".to_string());
    assert_eq!(s.calibrate_zero(), Some([0xFF, 0x01, 0x87, 0, 0, 0, 0, 0]));
    let other = Sensor::new("/dev/ttyUSB0".to_string()).with_device_number(3);
    assert_eq!(other.calibrate_zero(), Some([0xFF, 0x03, 0x87, 0, 0, 0, 0, 0]));
}

#[test]
fn calibrate_zero_gives_nothing_for_a_mock_sensor() {
    assert_eq!(Sensor::new_mock(String::new()).calibrate_zero(), None);
}

#[test]
fn fault_kinds() {
    assert_eq!(Fault::PortUnavailable { detail: String::new() }.kind(), FaultKind::PortUnavailable);
    assert_eq!(Fault::Timeout.kind(), FaultKind::Timeout);
    assert_eq!(
        Fault::MalformedResponse {
            reason: MalformedResponse::WrongLength { length: 0 },
            raw: vec![]
        }
        .kind(),
        FaultKind::MalformedResponse
    );
    assert_eq!(
        Fault::IoFailure { operation: Operation::Read, detail: String::new() }.kind(),
        FaultKind::IoFailure
    );
    assert_eq!(Fault::ShortWrite { written: 1, expected: 8 }.kind(), FaultKind::IoFailure);
    assert_eq!(Fault::ClockOutOfRange { clock: clock(0) }.kind(), FaultKind::IoFailure);
}

#[test]
fn malformed_response_descriptions() {
    assert_eq!(
        MalformedResponse::WrongLength { length: 7 }.description(),
        "response is not nine bytes long"
    );
    assert_eq!(
        MalformedResponse::WrongStartByte { byte: 1 }.description(),
        "response does not begin with 0xFF"
    );
}

#[test]
fn check_port_passes_on_a_full_write_and_an_answer() {
    assert!(check_port(&Event::Written(8), &Event::Received(response(400))));
    assert!(check_port(&Event::Written(8), &Event::Received(vec![1, 2, 3])));
}

#[test]
fn check_port_fails_on_anything_else() {
    assert!(!check_port(&Event::Written(7), &Event::Received(response(400))));
    assert!(!check_port(&Event::WriteFailed("x".to_string()), &Event::Received(response(400))));
    assert!(!check_port(&Event::Written(8), &Event::TimedOut));
    assert!(!check_port(&Event::Written(8), &Event::ReadFailed("x".to_string())));
    assert!(!check_port(&Event::Stop, &Event::Received(response(400))));
}

#[test]
fn check_port_agrees_with_the_sensor() {
    let cases = [
        (Event::Written(8), Event::Received(response(400))),
        (Event::Written(8), Event::TimedOut),
        (Event::Written(3), Event::Received(response(400))),
        (Event::WriteFailed("x".to_string()), Event::Received(response(400))),
    ];
    for (written, answered) in cases {
        let mut s = Sensor::new("/dev/ttyUSB0".to_string());
        s.step(Event::Start, clock(0));
        s.step(Event::Opened, clock(0));
        let verdict = check_port(&written, &answered);
        s.step(written, clock(0));
        s.step(answered, clock(0));
        assert_eq!(s.is_running(), verdict);
    }
}
