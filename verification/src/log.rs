//! The log as a whole: the records of readings, one after another.

use vstd::prelude::*;
use crate::reading::{
    lemma_line_has_no_line_end, lemma_line_round_trip, lemma_parsed_is_line, parsed, Measurement,
    Reading, LINE_END,
};

verus! {

/// The records of `measurements`, one after another.
pub open spec fn records(measurements: Seq<Measurement>) -> Seq<u8>
    decreases measurements.len(),
{
    if measurements.len() == 0 {
        Seq::empty()
    } else {
        records(measurements.drop_last()) + measurements.last().record()
    }
}

/// Whether every one of `measurements` is valid.
pub open spec fn all_valid(measurements: Seq<Measurement>) -> bool {
    forall|k: int| 0 <= k < measurements.len() ==> (#[trigger] measurements[k]).valid()
}

/// Whether `bytes` is the log that holds exactly `measurements`.
pub open spec fn is_log_of(bytes: Seq<u8>, measurements: Seq<Measurement>) -> bool {
    all_valid(measurements) && records(measurements) == bytes
}

/// What the log `bytes` holds: the measurements whose records it is made
/// of, if it is made of records.
pub open spec fn logged(bytes: Seq<u8>) -> Option<Seq<Measurement>> {
    if exists|measurements: Seq<Measurement>| is_log_of(bytes, measurements) {
        Some(choose|measurements: Seq<Measurement>| is_log_of(bytes, measurements))
    } else {
        None
    }
}

/// What `readings` hold, as mathematics.
pub open spec fn measurements_of(readings: Seq<Reading>) -> Seq<Measurement> {
    Seq::new(readings.len(), |k: int| readings[k]@)
}

/// The records of two sequences of measurements, put together.
pub proof fn lemma_records_in_parts(first: Seq<Measurement>, second: Seq<Measurement>)
    ensures
        records(first + second) == records(first) + records(second),
    decreases second.len(),
{
    if second.len() == 0 {
        assert(first + second =~= first);
        assert(records(first) + Seq::<u8>::empty() =~= records(first));
    } else {
        let whole = first + second;
        assert(whole.drop_last() =~= first + second.drop_last());
        assert(whole.last() == second.last());
        lemma_records_in_parts(first, second.drop_last());
        assert(records(whole) =~= records(first) + records(second));
    }
}

/// The records of one measurement are its record.
pub proof fn lemma_records_of_one(m: Measurement)
    ensures
        records(seq![m]) == m.record(),
{
    let one = seq![m];
    assert(one.drop_last() =~= Seq::<Measurement>::empty());
    assert(records(one.drop_last()) =~= Seq::<u8>::empty());
    assert(records(one) =~= m.record());
}

spec fn line_len(bytes: Seq<u8>) -> nat
    decreases bytes.len(),
{
    if bytes.len() == 0 || bytes[0] == LINE_END {
        0
    } else {
        1 + line_len(bytes.skip(1))
    }
}

spec fn scanned(bytes: Seq<u8>) -> Option<Seq<Measurement>>
    decreases bytes.len(),
{
    let n = line_len(bytes) as int;
    if bytes.len() == 0 {
        Some(Seq::empty())
    } else if n >= bytes.len() {
        None
    } else {
        match parsed(bytes.take(n)) {
            None => None,
            Some(m) => match scanned(bytes.skip(n + 1)) {
                None => None,
                Some(rest) => Some(seq![m] + rest),
            },
        }
    }
}

proof fn lemma_line_len(bytes: Seq<u8>, n: int)
    requires
        0 <= n <= bytes.len(),
        forall|i: int| 0 <= i < n ==> bytes[i] != LINE_END,
        n < bytes.len() ==> bytes[n] == LINE_END,
    ensures
        line_len(bytes) == n,
    decreases n,
{
    if n > 0 {
        let rest = bytes.skip(1);
        assert forall|i: int| 0 <= i < n - 1 implies rest[i] != LINE_END by {
            assert(rest[i] == bytes[i + 1]);
        }
        lemma_line_len(rest, n - 1);
    }
}

proof fn lemma_scanned_first(m: Measurement, tail: Seq<u8>)
    requires
        m.valid(),
    ensures
        scanned(m.record() + tail) == match scanned(tail) {
            Some(rest) => Some(seq![m] + rest),
            None => None,
        },
{
    let bytes = m.record() + tail;
    let n = m.line().len() as int;
    lemma_line_has_no_line_end(m);
    assert forall|i: int| 0 <= i < n implies bytes[i] != LINE_END by {
        assert(bytes[i] == m.line()[i]);
    }
    assert(bytes[n] == LINE_END);
    lemma_line_len(bytes, n);
    assert(bytes.take(n) =~= m.line());
    assert(bytes.skip(n + 1) =~= tail);
    lemma_line_round_trip(m);
}

proof fn lemma_scanned_complete(measurements: Seq<Measurement>)
    requires
        all_valid(measurements),
    ensures
        scanned(records(measurements)) == Some(measurements),
    decreases measurements.len(),
{
    if measurements.len() == 0 {
        assert(scanned(records(measurements)) =~= Some(measurements));
    } else {
        let m = measurements[0];
        let rest = measurements.skip(1);
        assert(measurements =~= seq![m] + rest);
        assert forall|k: int| 0 <= k < rest.len() implies (#[trigger] rest[k]).valid() by {
            assert(rest[k] == measurements[k + 1]);
        }
        lemma_scanned_complete(rest);
        lemma_records_in_parts(seq![m], rest);
        lemma_records_of_one(m);
        lemma_scanned_first(m, records(rest));
    }
}

proof fn lemma_scanned_sound(bytes: Seq<u8>)
    requires
        scanned(bytes) is Some,
    ensures
        is_log_of(bytes, scanned(bytes)->0),
    decreases bytes.len(),
{
    if bytes.len() == 0 {
        assert(records(Seq::<Measurement>::empty()) =~= bytes);
    } else {
        let n = line_len(bytes) as int;
        lemma_line_len_marks(bytes);
        let line = bytes.take(n);
        let tail = bytes.skip(n + 1);
        let m = parsed(line)->0;
        let rest = scanned(tail)->0;
        assert(scanned(bytes) == Some(seq![m] + rest));
        lemma_scanned_sound(tail);
        lemma_parsed_is_line(line);
        lemma_rebuilt(bytes, n, m, rest);
    }
}

proof fn lemma_rebuilt(bytes: Seq<u8>, n: int, m: Measurement, rest: Seq<Measurement>)
    requires
        0 <= n < bytes.len(),
        bytes[n] == LINE_END,
        m.valid(),
        m.line() == bytes.take(n),
        is_log_of(bytes.skip(n + 1), rest),
    ensures
        is_log_of(bytes, seq![m] + rest),
{
    let tail = bytes.skip(n + 1);
    let record = bytes.take(n).push(LINE_END);
    assert(m.record() == record);
    assert(record + tail =~= bytes);
    lemma_records_in_parts(seq![m], rest);
    lemma_records_of_one(m);
    let all = seq![m] + rest;
    assert forall|k: int| 0 <= k < all.len() implies (#[trigger] all[k]).valid() by {
        if k > 0 {
            assert(all[k] == rest[k - 1]);
        }
    }
}

proof fn lemma_line_len_marks(bytes: Seq<u8>)
    ensures
        line_len(bytes) <= bytes.len(),
        line_len(bytes) < bytes.len() ==> bytes[line_len(bytes) as int] == LINE_END,
    decreases bytes.len(),
{
    if bytes.len() > 0 && bytes[0] != LINE_END {
        lemma_line_len_marks(bytes.skip(1));
    }
}

/// A log holds what scanning it line by line finds, and a text that
/// cannot be scanned so is no log.
proof fn lemma_logged(bytes: Seq<u8>)
    ensures
        logged(bytes) == scanned(bytes),
{
    if exists|measurements: Seq<Measurement>| is_log_of(bytes, measurements) {
        let measurements = choose|measurements: Seq<Measurement>| is_log_of(bytes, measurements);
        lemma_scanned_complete(measurements);
    } else {
        if scanned(bytes) is Some {
            lemma_scanned_sound(bytes);
        }
    }
}

/// A log that was written is read back as it was: the records of valid
/// measurements are a log that holds exactly those measurements.
pub proof fn lemma_log_round_trip(measurements: Seq<Measurement>)
    requires
        all_valid(measurements),
    ensures
        logged(records(measurements)) == Some(measurements),
{
    lemma_scanned_complete(measurements);
    lemma_logged(records(measurements));
}

/// Appending to a log gives a log: where `bytes` holds `before`, `bytes`
/// followed by the records of valid measurements holds `before` followed
/// by those measurements.
pub proof fn lemma_log_grows(bytes: Seq<u8>, before: Seq<Measurement>, added: Seq<Measurement>)
    requires
        logged(bytes) == Some(before),
        all_valid(added),
    ensures
        logged(bytes + records(added)) == Some(before + added),
{
    lemma_logged(bytes);
    lemma_scanned_sound(bytes);
    lemma_records_in_parts(before, added);
    let all = before + added;
    assert forall|k: int| 0 <= k < all.len() implies (#[trigger] all[k]).valid() by {
        if k < before.len() {
            assert(all[k] == before[k]);
        } else {
            assert(all[k] == added[k - before.len()]);
        }
    }
    lemma_log_round_trip(all);
}

/// Reads a whole log. The readings come back, in the order of the log,
/// exactly where `bytes` is made of records: lines of readings, each
/// ended by a line end. Any other text is refused.
pub fn parse_log(bytes: &[u8]) -> (result: Option<Vec<Reading>>)
    ensures
        match result {
            Some(readings) => logged(bytes@) == Some(measurements_of(readings@)),
            None => logged(bytes@) is None,
        },
{
    let len = bytes.len();
    let mut readings: Vec<Reading> = Vec::new();
    let mut pos: usize = 0;
    proof {
        lemma_logged(bytes@);
        assert(bytes@.skip(0) =~= bytes@);
        assert(measurements_of(readings@) + scanned(bytes@)->0 =~= scanned(bytes@)->0);
    }
    while pos < len
        invariant
            pos <= len,
            len == bytes@.len(),
            logged(bytes@) == scanned(bytes@),
            scanned(bytes@) == match scanned(bytes@.skip(pos as int)) {
                Some(rest) => Some(measurements_of(readings@) + rest),
                None => None,
            },
        decreases len - pos,
    {
        let ghost tail = bytes@.skip(pos as int);
        let mut end: usize = pos;
        while end < len && bytes[end] != LINE_END
            invariant
                pos <= end <= len,
                len == bytes@.len(),
                forall|i: int| pos <= i < end ==> bytes@[i] != LINE_END,
            decreases len - end,
        {
            end = end + 1;
        }
        proof {
            assert forall|i: int| 0 <= i < end - pos implies tail[i] != LINE_END by {
                assert(tail[i] == bytes@[pos + i]);
            }
            lemma_line_len(tail, end - pos);
        }
        if end == len {
            return None;
        }
        let line = vstd::slice::slice_subrange(bytes, pos, end);
        proof {
            assert(line@ =~= tail.take(end - pos));
            assert(tail.skip(end - pos + 1) =~= bytes@.skip(end + 1));
        }
        match Reading::parse_line(line) {
            None => {
                return None;
            },
            Some(reading) => {
                let ghost before = measurements_of(readings@);
                readings.push(reading);
                proof {
                    let after = measurements_of(readings@);
                    assert(after =~= before + seq![reading@]);
                    match scanned(bytes@.skip(end + 1)) {
                        Some(rest) => {
                            assert(before + (seq![reading@] + rest) =~= after + rest);
                        },
                        None => {},
                    }
                }
                pos = end + 1;
            },
        }
    }
    proof {
        assert(bytes@.skip(pos as int) =~= Seq::<u8>::empty());
        assert(measurements_of(readings@) + Seq::<Measurement>::empty() =~= measurements_of(
            readings@,
        ));
    }
    Some(readings)
}

} // verus!
