//! What holds of every run of a sensor.
//!
//! A run is a sensor and the inputs that reach it, one after another. The
//! log is the driver's: it grows by the bytes that the sensor asked to
//! have appended, each time the driver reports that it appended them.

use vstd::prelude::*;
use crate::event::{ActionView, EventView};
use crate::frame::{concentration, COMMAND_LEN};
use crate::log::{
    all_valid, lemma_log_grows, lemma_records_in_parts, lemma_records_of_one, logged, records,
};
use crate::machine::{mock_ppm, probe_verdict, Phase, SensorMode, SensorView, StageView, MOCK_FLOOR_PPM, MOCK_SPAN_PPM};
use crate::reading::{lemma_line_round_trip, parsed, Measurement};
use crate::timestamp::ClockReading;

verus! {

/// What reaches a sensor in one turn: the event, and what the clock and
/// the random draw give in that turn.
pub struct Input {
    pub event: EventView,
    pub clock: ClockReading,
    pub draw: u8,
}

/// The sensor after one turn of the mock loop where `mock`, of the live
/// loop otherwise.
pub open spec fn turn(s: SensorView, input: Input, mock: bool) -> SensorView {
    if mock {
        s.mock_step(input.event, input.clock, input.draw).next
    } else {
        s.live_step(input.event, input.clock).next
    }
}

/// The sensor after all of `inputs`.
pub open spec fn run(s: SensorView, inputs: Seq<Input>, mock: bool) -> SensorView
    decreases inputs.len(),
{
    if inputs.len() == 0 {
        s
    } else {
        turn(run(s, inputs.drop_last(), mock), inputs.last(), mock)
    }
}

/// The measurements that `event` puts on record: the one that the sensor
/// was waiting to have recorded, where the event says that it was.
pub open spec fn stored(s: SensorView, event: EventView) -> Seq<Measurement> {
    match s.stage {
        StageView::Recording(m) => if event is Appended {
            seq![m]
        } else {
            Seq::empty()
        },
        _ => Seq::empty(),
    }
}

/// The measurements that a run puts on record, in the order of the run.
pub open spec fn recorded(s: SensorView, inputs: Seq<Input>, mock: bool) -> Seq<Measurement>
    decreases inputs.len(),
{
    if inputs.len() == 0 {
        Seq::empty()
    } else {
        recorded(s, inputs.drop_last(), mock) + stored(
            run(s, inputs.drop_last(), mock),
            inputs.last().event,
        )
    }
}

/// The log after a turn: it has grown by the bytes that the sensor asked
/// to have appended, where `event` says that they were appended.
pub open spec fn log_turn(log: Seq<u8>, s: SensorView, event: EventView) -> Seq<u8> {
    match s.pending() {
        ActionView::Append(bytes) => if event is Appended {
            log + bytes
        } else {
            log
        },
        _ => log,
    }
}

/// The log after a run that found it holding `log`.
pub open spec fn log_after(log: Seq<u8>, s: SensorView, inputs: Seq<Input>, mock: bool) -> Seq<u8>
    decreases inputs.len(),
{
    if inputs.len() == 0 {
        log
    } else {
        log_turn(
            log_after(log, s, inputs.drop_last(), mock),
            run(s, inputs.drop_last(), mock),
            inputs.last().event,
        )
    }
}

/// A run in two parts is the run of the second part on what the first
/// part left.
pub proof fn lemma_run_in_parts(s: SensorView, first: Seq<Input>, second: Seq<Input>, mock: bool)
    ensures
        run(s, first + second, mock) == run(run(s, first, mock), second, mock),
        recorded(s, first + second, mock) == recorded(s, first, mock) + recorded(
            run(s, first, mock),
            second,
            mock,
        ),
    decreases second.len(),
{
    if second.len() == 0 {
        assert(first + second =~= first);
        assert(recorded(s, first, mock) + Seq::<Measurement>::empty() =~= recorded(s, first, mock));
    } else {
        let whole = first + second;
        assert(whole.drop_last() =~= first + second.drop_last());
        assert(whole.last() == second.last());
        lemma_run_in_parts(s, first, second.drop_last(), mock);
        let middle = run(s, first, mock);
        assert(recorded(s, whole, mock) =~= recorded(s, first, mock) + recorded(
            middle,
            second,
            mock,
        ));
    }
}

/// The log only grows, and only by readings: whatever reaches the sensor,
/// the log after the run is the log before it, followed by the records of
/// the measurements that the run put on record, in the order of the run.
pub proof fn law_log_is_append_only(log: Seq<u8>, s: SensorView, inputs: Seq<Input>, mock: bool)
    ensures
        log_after(log, s, inputs, mock) == log + records(recorded(s, inputs, mock)),
        log_after(log, s, inputs, mock).len() >= log.len(),
        log_after(log, s, inputs, mock).take(log.len() as int) == log,
    decreases inputs.len(),
{
    if inputs.len() == 0 {
        assert(log + Seq::<u8>::empty() =~= log);
    } else {
        let head = inputs.drop_last();
        let before = run(s, head, mock);
        let event = inputs.last().event;
        law_log_is_append_only(log, s, head, mock);
        let gained = stored(before, event);
        lemma_records_in_parts(recorded(s, head, mock), gained);
        if gained.len() == 0 {
            assert(log + records(recorded(s, head, mock)) + Seq::<u8>::empty() =~= log + records(
                recorded(s, head, mock),
            ));
        } else {
            let m = gained[0];
            assert(gained =~= seq![m]);
            lemma_records_of_one(m);
        }
        assert(log_after(log, s, inputs, mock) =~= log + records(recorded(s, inputs, mock)));
    }
    assert(log_after(log, s, inputs, mock).take(log.len() as int) =~= log);
}

/// A turn keeps a sensor well formed.
pub proof fn lemma_turn_keeps_wf(s: SensorView, input: Input, mock: bool)
    requires
        s.wf(),
    ensures
        turn(s, input, mock).wf(),
{
}

/// What was written can be read back: every measurement that a run puts
/// on record is valid, and its log line says that measurement.
pub proof fn law_records_read_back(s: SensorView, inputs: Seq<Input>, mock: bool)
    requires
        s.wf(),
    ensures
        run(s, inputs, mock).wf(),
        forall|k: int|
            0 <= k < recorded(s, inputs, mock).len() ==> {
                let m = #[trigger] recorded(s, inputs, mock)[k];
                m.valid() && parsed(m.line()) == Some(m)
            },
    decreases inputs.len(),
{
    if inputs.len() > 0 {
        let head = inputs.drop_last();
        law_records_read_back(s, head, mock);
        let before = run(s, head, mock);
        lemma_turn_keeps_wf(before, inputs.last(), mock);
        let earlier = recorded(s, head, mock);
        let all = recorded(s, inputs, mock);
        assert forall|k: int| 0 <= k < all.len() implies {
            let m = #[trigger] all[k];
            m.valid() && parsed(m.line()) == Some(m)
        } by {
            if k < earlier.len() {
                assert(all[k] == earlier[k]);
            } else {
                lemma_line_round_trip(all[k]);
            }
        }
    }
}

/// The log stays a log: where the log held `before` when the run found
/// it, after the run it holds `before` followed by the measurements that
/// the run put on record, and nothing else.
pub proof fn law_log_stays_readable(
    log: Seq<u8>,
    before: Seq<Measurement>,
    s: SensorView,
    inputs: Seq<Input>,
    mock: bool,
)
    requires
        s.wf(),
        logged(log) == Some(before),
    ensures
        logged(log_after(log, s, inputs, mock)) == Some(before + recorded(s, inputs, mock)),
{
    law_log_is_append_only(log, s, inputs, mock);
    law_records_read_back(s, inputs, mock);
    let added = recorded(s, inputs, mock);
    assert(all_valid(added)) by {
        assert forall|k: int| 0 <= k < added.len() implies (#[trigger] added[k]).valid() by {}
    }
    lemma_log_grows(log, before, added);
}

/// Whether none of `inputs` tells the sensor to stop.
pub open spec fn never_stopped(inputs: Seq<Input>) -> bool {
    forall|k: int| 0 <= k < inputs.len() ==> !((#[trigger] inputs[k]).event is Stop)
}

/// No failure ends the loop: a sensor that polls goes on polling through
/// whatever reaches it, until it is told to stop.
pub proof fn law_only_stop_ends_polling(s: SensorView, inputs: Seq<Input>, mock: bool)
    requires
        s.running(),
        never_stopped(inputs),
    ensures
        run(s, inputs, mock).running(),
    decreases inputs.len(),
{
    if inputs.len() > 0 {
        let head = inputs.drop_last();
        assert forall|k: int| 0 <= k < head.len() implies !((#[trigger] head[k]).event is Stop) by {
            assert(head[k] == inputs[k]);
        }
        law_only_stop_ends_polling(s, head, mock);
        assert(!(inputs[inputs.len() - 1].event is Stop));
    }
}

/// A stopped sensor stays stopped and records nothing more.
pub proof fn law_stopped_is_final(s: SensorView, inputs: Seq<Input>, mock: bool)
    requires
        s.stage is Stopped,
    ensures
        run(s, inputs, mock) == s,
        recorded(s, inputs, mock) == Seq::<Measurement>::empty(),
    decreases inputs.len(),
{
    if inputs.len() > 0 {
        law_stopped_is_final(s, inputs.drop_last(), mock);
        assert(recorded(s, inputs, mock) =~= Seq::<Measurement>::empty());
    }
}

/// A run of one more input is one more turn.
pub proof fn lemma_run_one_more(s: SensorView, inputs: Seq<Input>, input: Input, mock: bool)
    ensures
        run(s, inputs.push(input), mock) == turn(run(s, inputs, mock), input, mock),
        recorded(s, inputs.push(input), mock) == recorded(s, inputs, mock) + stored(
            run(s, inputs, mock),
            input.event,
        ),
{
    assert(inputs.push(input).drop_last() =~= inputs);
}

/// Whether `poll` is a poll of a live sensor that comes through: the
/// command is written in full, a response arrives that holds the
/// concentration of `m` while the clock shows the time of `m`, the record
/// is appended, and the rest ends.
pub open spec fn poll_succeeds(poll: Seq<Input>, m: Measurement) -> bool {
    &&& poll.len() == 4
    &&& poll[0].event == EventView::Written(COMMAND_LEN as nat)
    &&& poll[1].event matches EventView::Received(bytes)
    &&& concentration(bytes) matches Ok(ppm)
    &&& ppm == m.ppm
    &&& poll[1].clock.calendar() == m.time
    &&& m.time.valid()
    &&& poll[2].event is Appended
    &&& poll[3].event is Woke
}

/// Whether `event` is a write of the command that did not come through.
pub open spec fn write_fails(event: EventView) -> bool {
    match event {
        EventView::Written(count) => count != COMMAND_LEN,
        EventView::WriteFailed(_) => true,
        _ => false,
    }
}

/// Whether `input` is a read that gives no reading: it times out or
/// breaks down, or what it brings is malformed, or the clock shows a time
/// that cannot be written.
pub open spec fn read_fails(input: Input) -> bool {
    match input.event {
        EventView::TimedOut => true,
        EventView::ReadFailed(_) => true,
        EventView::Received(bytes) => concentration(bytes) is Err || !input.clock.calendar().valid(),
        _ => false,
    }
}

/// Whether `poll` is a poll of a live sensor that fails: in the write, or
/// in the read, or when the record is appended.
pub open spec fn poll_fails(poll: Seq<Input>) -> bool {
    ||| {
        &&& poll.len() == 2
        &&& write_fails(poll[0].event)
        &&& poll[1].event is Woke
    }
    ||| {
        &&& poll.len() == 3
        &&& poll[0].event == EventView::Written(COMMAND_LEN as nat)
        &&& read_fails(poll[1])
        &&& poll[2].event is Woke
    }
    ||| {
        &&& poll.len() == 4
        &&& poll[0].event == EventView::Written(COMMAND_LEN as nat)
        &&& poll[1].event is Received
        &&& !read_fails(poll[1])
        &&& poll[2].event is AppendFailed
        &&& poll[3].event is Woke
    }
}

/// Whether `poll` is a poll that ends as `outcome` says: with that
/// measurement on record, or failed.
pub open spec fn poll_gives(poll: Seq<Input>, outcome: Option<Measurement>) -> bool {
    match outcome {
        Some(m) => poll_succeeds(poll, m),
        None => poll_fails(poll),
    }
}

/// The inputs of `polls`, one poll after another.
pub open spec fn joined(polls: Seq<Seq<Input>>) -> Seq<Input>
    decreases polls.len(),
{
    if polls.len() == 0 {
        Seq::empty()
    } else {
        joined(polls.drop_last()) + polls.last()
    }
}

/// The measurements among `outcomes`, in their order.
pub open spec fn kept(outcomes: Seq<Option<Measurement>>) -> Seq<Measurement>
    decreases outcomes.len(),
{
    if outcomes.len() == 0 {
        Seq::empty()
    } else {
        match outcomes.last() {
            Some(m) => kept(outcomes.drop_last()).push(m),
            None => kept(outcomes.drop_last()),
        }
    }
}

/// What is kept of one outcome.
pub open spec fn kept_of(outcome: Option<Measurement>) -> Seq<Measurement> {
    match outcome {
        Some(m) => seq![m],
        None => Seq::empty(),
    }
}

proof fn lemma_kept_one_more(outcomes: Seq<Option<Measurement>>, outcome: Option<Measurement>)
    ensures
        kept(outcomes.push(outcome)) == kept(outcomes) + kept_of(outcome),
{
    assert(outcomes.push(outcome).drop_last() =~= outcomes);
    match outcome {
        Some(m) => {
            assert(kept(outcomes).push(m) =~= kept(outcomes) + seq![m]);
        },
        None => {
            assert(kept(outcomes) + Seq::<Measurement>::empty() =~= kept(outcomes));
        },
    }
}

/// Whether the sensor is a live one about to send the command of a poll.
pub open spec fn ready_to_poll(s: SensorView) -> bool {
    s.mode == SensorMode::Live && s.stage is Sending
}

/// One poll, from its first input to its last: it leaves the sensor ready
/// for the next poll, with its measurement on record if it came through
/// and nothing on record if it failed.
pub proof fn lemma_one_poll(s: SensorView, poll: Seq<Input>, outcome: Option<Measurement>)
    requires
        ready_to_poll(s),
        poll_gives(poll, outcome),
    ensures
        ready_to_poll(run(s, poll, false)),
        run(s, poll, false).faulted == (outcome is None),
        recorded(s, poll, false) == kept_of(outcome),
{
    let none = Seq::<Input>::empty();
    let one = none.push(poll[0]);
    lemma_run_one_more(s, none, poll[0], false);
    let two = one.push(poll[1]);
    lemma_run_one_more(s, one, poll[1], false);
    if poll.len() == 2 {
        assert(poll =~= two);
        assert(recorded(s, poll, false) =~= Seq::<Measurement>::empty());
    } else {
        let three = two.push(poll[2]);
        lemma_run_one_more(s, two, poll[2], false);
        if poll.len() == 3 {
            assert(poll =~= three);
            assert(recorded(s, poll, false) =~= Seq::<Measurement>::empty());
        } else {
            let four = three.push(poll[3]);
            lemma_run_one_more(s, three, poll[3], false);
            assert(poll =~= four);
            match outcome {
                Some(m) => {
                    assert(run(s, two, false).stage == StageView::Recording(m));
                    assert(recorded(s, poll, false) =~= seq![m]);
                },
                None => {
                    assert(recorded(s, poll, false) =~= Seq::<Measurement>::empty());
                },
            }
        }
    }
}

/// Polls do not disturb one another: after any number of polls, each come
/// through or failed, exactly the measurements of the polls that came
/// through are on record, in the order of the polls, and the sensor is
/// ready for the next poll.
pub proof fn law_polls_are_independent(
    s: SensorView,
    polls: Seq<Seq<Input>>,
    outcomes: Seq<Option<Measurement>>,
)
    requires
        ready_to_poll(s),
        polls.len() == outcomes.len(),
        forall|k: int| 0 <= k < polls.len() ==> poll_gives(#[trigger] polls[k], outcomes[k]),
    ensures
        recorded(s, joined(polls), false) == kept(outcomes),
        ready_to_poll(run(s, joined(polls), false)),
        run(s, joined(polls), false).running(),
        polls.len() > 0 ==> run(s, joined(polls), false).faulted == (outcomes.last() is None),
    decreases polls.len(),
{
    if polls.len() > 0 {
        let earlier = polls.drop_last();
        let earlier_outcomes = outcomes.drop_last();
        assert forall|k: int| 0 <= k < earlier.len() implies poll_gives(
            #[trigger] earlier[k],
            earlier_outcomes[k],
        ) by {
            assert(earlier[k] == polls[k]);
            assert(earlier_outcomes[k] == outcomes[k]);
        }
        law_polls_are_independent(s, earlier, earlier_outcomes);
        let middle = run(s, joined(earlier), false);
        assert(poll_gives(polls[polls.len() - 1], outcomes[polls.len() - 1]));
        lemma_one_poll(middle, polls.last(), outcomes.last());
        lemma_run_in_parts(s, joined(earlier), polls.last(), false);
        lemma_kept_one_more(earlier_outcomes, outcomes.last());
        assert(earlier_outcomes.push(outcomes.last()) =~= outcomes);
    }
}

/// Every one of `measurements`, as the outcome of a poll that came through.
pub open spec fn all_kept(measurements: Seq<Measurement>) -> Seq<Option<Measurement>> {
    Seq::new(measurements.len(), |k: int| Some(measurements[k]))
}

proof fn lemma_all_kept(measurements: Seq<Measurement>)
    ensures
        kept(all_kept(measurements)) == measurements,
    decreases measurements.len(),
{
    if measurements.len() == 0 {
        assert(kept(all_kept(measurements)) =~= measurements);
    } else {
        let earlier = measurements.drop_last();
        lemma_all_kept(earlier);
        assert(all_kept(measurements).drop_last() =~= all_kept(earlier));
        assert(kept(all_kept(measurements)) =~= measurements);
    }
}

/// Polls that come through are logged in their order: after N polls that
/// each came through, the log is what it was, followed by exactly the N
/// records of the measurements of those polls, in the order of the polls;
/// and the line of each says its measurement.
pub proof fn law_successful_polls_append_in_order(
    log: Seq<u8>,
    s: SensorView,
    polls: Seq<Seq<Input>>,
    measurements: Seq<Measurement>,
)
    requires
        ready_to_poll(s),
        polls.len() == measurements.len(),
        forall|k: int| 0 <= k < polls.len() ==> poll_succeeds(#[trigger] polls[k], measurements[k]),
    ensures
        recorded(s, joined(polls), false) == measurements,
        log_after(log, s, joined(polls), false) == log + records(measurements),
        forall|k: int|
            0 <= k < measurements.len() ==> parsed((#[trigger] measurements[k]).line()) == Some(
                measurements[k],
            ),
        ready_to_poll(run(s, joined(polls), false)),
{
    let outcomes = all_kept(measurements);
    assert forall|k: int| 0 <= k < polls.len() implies poll_gives(
        #[trigger] polls[k],
        outcomes[k],
    ) by {
        assert(poll_succeeds(polls[k], measurements[k]));
    }
    law_polls_are_independent(s, polls, outcomes);
    lemma_all_kept(measurements);
    law_log_is_append_only(log, s, joined(polls), false);
    assert forall|k: int| 0 <= k < measurements.len() implies parsed(
        (#[trigger] measurements[k]).line(),
    ) == Some(measurements[k]) by {
        assert(poll_succeeds(polls[k], measurements[k]));
        assert(concentration(polls[k][1].event->Received_0) is Ok);
        lemma_line_round_trip(measurements[k]);
    }
}

/// A failed poll costs only its own reading: where one poll fails and the
/// next comes through, the measurement of the second is recorded, and the
/// sensor polls on.
pub proof fn law_failure_is_isolated(
    s: SensorView,
    failed: Seq<Input>,
    next: Seq<Input>,
    m: Measurement,
)
    requires
        ready_to_poll(s),
        poll_fails(failed),
        poll_succeeds(next, m),
    ensures
        recorded(s, failed, false) == Seq::<Measurement>::empty(),
        run(s, failed, false).running(),
        recorded(s, failed + next, false) == seq![m],
        run(s, failed + next, false).running(),
        !run(s, failed + next, false).faulted,
{
    lemma_one_poll(s, failed, None);
    let middle = run(s, failed, false);
    lemma_one_poll(middle, next, Some(m));
    lemma_run_in_parts(s, failed, next, false);
    assert(Seq::<Measurement>::empty() + seq![m] =~= seq![m]);
}

/// Whether the probe passes at turn `k` of the run: the sensor is
/// listening for the answer to its probe, and an answer comes.
pub open spec fn probe_passes_at(s: SensorView, inputs: Seq<Input>, k: int) -> bool {
    &&& 0 <= k < inputs.len()
    &&& run(s, inputs.take(k), false).stage is ProbeListening
    &&& inputs[k].event is Received
}

/// Whether the probe passes in the course of the run.
pub open spec fn probe_passes(s: SensorView, inputs: Seq<Input>) -> bool {
    exists|k: int| probe_passes_at(s, inputs, k)
}

/// Whether a live sensor has yet to pass its probe.
pub open spec fn before_polling(s: SensorView) -> bool {
    s.mode == SensorMode::Live && (s.phase() == Phase::Idle || s.phase() == Phase::Probing)
}

/// Nothing is logged before the probe passes: as long as no answer has
/// come to the probe of a live sensor, the sensor is not polling, no
/// measurement is on record, and the log is as it was.
pub proof fn law_probe_gates_polling(log: Seq<u8>, s: SensorView, inputs: Seq<Input>)
    requires
        before_polling(s),
        !probe_passes(s, inputs),
    ensures
        !run(s, inputs, false).running(),
        before_polling(run(s, inputs, false)) || run(s, inputs, false).stage is Stopped,
        recorded(s, inputs, false) == Seq::<Measurement>::empty(),
        log_after(log, s, inputs, false) == log,
    decreases inputs.len(),
{
    if inputs.len() > 0 {
        let head = inputs.drop_last();
        assert forall|k: int| !probe_passes_at(s, head, k) by {
            if probe_passes_at(s, head, k) {
                assert(head.take(k) =~= inputs.take(k));
                assert(head[k] == inputs[k]);
                assert(probe_passes_at(s, inputs, k));
            }
        }
        law_probe_gates_polling(log, s, head);
        let before = run(s, head, false);
        assert(inputs.take(inputs.len() - 1) =~= head);
        assert(!probe_passes_at(s, inputs, inputs.len() - 1));
        assert(recorded(s, inputs, false) =~= Seq::<Measurement>::empty());
    }
    law_log_is_append_only(log, s, inputs, false);
    assert(log + Seq::<u8>::empty() =~= log);
}

/// The probe decides: a live sensor that has its port open and meets the
/// write and the read of its probe polls afterwards exactly where the
/// probe shows the port responsive.
pub proof fn law_probe_decides(s: SensorView, written: Input, answered: Input)
    requires
        s.mode == SensorMode::Live,
        s.stage is ProbeSending,
    ensures
        run(s, seq![written, answered], false).running() == probe_verdict(
            written.event,
            answered.event,
        ),
        recorded(s, seq![written, answered], false) == Seq::<Measurement>::empty(),
{
    let none = Seq::<Input>::empty();
    lemma_run_one_more(s, none, written, false);
    lemma_run_one_more(s, none.push(written), answered, false);
    assert(seq![written, answered] =~= none.push(written).push(answered));
    assert(recorded(s, seq![written, answered], false) =~= Seq::<Measurement>::empty());
}

/// A failed probe is the end: where anything goes wrong while a sensor
/// probes its port, the sensor stops, and whatever reaches it afterwards
/// it stays stopped and records nothing.
pub proof fn law_failed_probe_is_final(s: SensorView, failure: Input, later: Seq<Input>)
    requires
        s.phase() == Phase::Probing,
        s.live_step(failure.event, failure.clock).report is Some,
    ensures
        s.live_step(failure.event, failure.clock).next.stage is Stopped,
        run(s, seq![failure] + later, false).stage is Stopped,
        !run(s, seq![failure] + later, false).running(),
        recorded(s, seq![failure] + later, false) == Seq::<Measurement>::empty(),
{
    let first = seq![failure];
    assert(first =~= Seq::<Input>::empty().push(failure));
    lemma_run_one_more(s, Seq::<Input>::empty(), failure, false);
    let stopped = run(s, first, false);
    law_stopped_is_final(stopped, later, false);
    lemma_run_in_parts(s, first, later, false);
    assert(recorded(s, first + later, false) =~= Seq::<Measurement>::empty());
}

/// Whether the sensor is at a stage that the mock loop passes through:
/// none in which the port is asked for.
pub open spec fn off_port(s: SensorView) -> bool {
    s.stage is Idle || s.stage is Recording || s.stage is Resting || s.stage is Stopped
}

/// Whether `m` holds a concentration of the mock band.
pub open spec fn in_mock_band(m: Measurement) -> bool {
    MOCK_FLOOR_PPM <= m.ppm < MOCK_FLOOR_PPM + MOCK_SPAN_PPM
}

/// The mock loop keeps to itself: it never asks for the port, and every
/// measurement that it puts on record lies in the mock band.
pub proof fn law_mock_keeps_off_port(s: SensorView, inputs: Seq<Input>)
    requires
        off_port(s),
        s.stage matches StageView::Recording(m) ==> in_mock_band(m),
    ensures
        off_port(run(s, inputs, true)),
        !run(s, inputs, true).pending().uses_port(),
        run(s, inputs, true).stage matches StageView::Recording(m) ==> in_mock_band(m),
        forall|k: int|
            0 <= k < recorded(s, inputs, true).len() ==> in_mock_band(
                #[trigger] recorded(s, inputs, true)[k],
            ),
    decreases inputs.len(),
{
    if inputs.len() > 0 {
        let head = inputs.drop_last();
        law_mock_keeps_off_port(s, head);
        let earlier = recorded(s, head, true);
        let all = recorded(s, inputs, true);
        assert forall|k: int| 0 <= k < all.len() implies in_mock_band(#[trigger] all[k]) by {
            if k < earlier.len() {
                assert(all[k] == earlier[k]);
            }
        }
    }
}

/// Whether `poll` is a poll of the mock loop that comes through with the
/// measurement `m`: the sensor wakes while the clock shows the time of
/// `m` and the draw gives its concentration, and the record is appended.
pub open spec fn mock_poll_succeeds(poll: Seq<Input>, m: Measurement) -> bool {
    &&& poll.len() == 2
    &&& poll[0].event is Woke
    &&& poll[0].clock.calendar() == m.time
    &&& m.time.valid()
    &&& mock_ppm(poll[0].draw) == m.ppm
    &&& poll[1].event is Appended
}

/// The mock loop gives a reading a poll: after M polls of a resting
/// sensor, each woken by a clock that can be written, exactly M
/// measurements are on record, in the order of the polls, each in the
/// mock band; and the sensor rests again.
pub proof fn law_mock_polls_each_record(
    s: SensorView,
    polls: Seq<Seq<Input>>,
    measurements: Seq<Measurement>,
)
    requires
        s.stage is Resting,
        polls.len() == measurements.len(),
        forall|k: int|
            0 <= k < polls.len() ==> mock_poll_succeeds(#[trigger] polls[k], measurements[k]),
    ensures
        recorded(s, joined(polls), true) == measurements,
        run(s, joined(polls), true).stage is Resting,
        forall|k: int| 0 <= k < measurements.len() ==> in_mock_band(#[trigger] measurements[k]),
    decreases polls.len(),
{
    if polls.len() == 0 {
        assert(recorded(s, joined(polls), true) =~= measurements);
    } else {
        let earlier = polls.drop_last();
        let earlier_measurements = measurements.drop_last();
        assert forall|k: int| 0 <= k < earlier.len() implies mock_poll_succeeds(
            #[trigger] earlier[k],
            earlier_measurements[k],
        ) by {
            assert(earlier[k] == polls[k]);
            assert(earlier_measurements[k] == measurements[k]);
        }
        law_mock_polls_each_record(s, earlier, earlier_measurements);
        let middle = run(s, joined(earlier), true);
        let poll = polls.last();
        let m = measurements.last();
        assert(mock_poll_succeeds(polls[polls.len() - 1], measurements[polls.len() - 1]));
        let none = Seq::<Input>::empty();
        lemma_run_one_more(middle, none, poll[0], true);
        lemma_run_one_more(middle, none.push(poll[0]), poll[1], true);
        assert(poll =~= none.push(poll[0]).push(poll[1]));
        assert(recorded(middle, poll, true) =~= seq![m]);
        lemma_run_in_parts(s, joined(earlier), poll, true);
        assert(earlier_measurements + seq![m] =~= measurements);
        assert forall|k: int| 0 <= k < measurements.len() implies in_mock_band(
            #[trigger] measurements[k],
        ) by {
            if k < earlier_measurements.len() {
                assert(measurements[k] == earlier_measurements[k]);
            }
        }
    }
}

} // verus!
