//! Readings, and the lines that the log keeps of them.

use vstd::prelude::*;
use crate::text::{
    canonical, decimal, digit, digit_value, digits_value, is_digit, lemma_canonical_is_decimal,
    lemma_decimal_spells, push_decimal, read_decimal, read_two_digits,
};
use crate::timestamp::{lemma_text_bytes, CalendarTime, Timestamp};

verus! {

/// The byte that separates the timestamp of a line from its concentration.
pub const FIELD_SEPARATOR: u8 = 0x2C;

/// The byte that ends a line in the log.
pub const LINE_END: u8 = 0x0A;

/// What a reading holds, as mathematics: a time and a concentration.
pub struct Measurement {
    pub time: CalendarTime,
    pub ppm: nat,
}

impl Measurement {
    /// Whether the time is valid and the concentration a 32-bit number.
    pub open spec fn valid(self) -> bool {
        self.time.valid() && self.ppm <= u32::MAX
    }

    /// The log line of the measurement: `YYYY-MM-DD HH:MM:SS,ppm`,
    /// without the line end.
    pub open spec fn line(self) -> Seq<u8> {
        self.time.text() + seq![FIELD_SEPARATOR] + decimal(self.ppm)
    }

    /// What the log gains when the measurement is appended: its line and
    /// the line end.
    pub open spec fn record(self) -> Seq<u8> {
        self.line().push(LINE_END)
    }
}

/// Whether `line` is the log line of the valid measurement `m`.
pub open spec fn is_line_of(line: Seq<u8>, m: Measurement) -> bool {
    m.valid() && m.line() == line
}

/// What `line` says: the measurement whose log line it is, if it is the
/// line of any.
pub open spec fn parsed(line: Seq<u8>) -> Option<Measurement> {
    if exists|m: Measurement| is_line_of(line, m) {
        Some(choose|m: Measurement| is_line_of(line, m))
    } else {
        None
    }
}

/// One measurement: when it was taken and the concentration found.
#[derive(Clone, Copy, Debug, PartialEq, Eq, Structural)]
pub struct Reading {
    pub timestamp: Timestamp,
    pub ppm: u32,
}

impl View for Reading {
    type V = Measurement;

    open spec fn view(&self) -> Measurement {
        Measurement { time: self.timestamp@, ppm: self.ppm as nat }
    }
}

spec fn field2(line: Seq<u8>, at: int) -> int {
    digit_value(line[at]) * 10 + digit_value(line[at + 1])
}

spec fn field4(line: Seq<u8>, at: int) -> int {
    digit_value(line[at]) * 1000 + digit_value(line[at + 1]) * 100 + digit_value(line[at + 2]) * 10
        + digit_value(line[at + 3])
}

spec fn fields(line: Seq<u8>) -> Measurement {
    Measurement {
        time: CalendarTime {
            year: field4(line, 0),
            month: field2(line, 5),
            day: field2(line, 8),
            hour: field2(line, 11),
            minute: field2(line, 14),
            second: field2(line, 17),
        },
        ppm: digits_value(line.skip(20)),
    }
}

spec fn digits_at(line: Seq<u8>, at: int) -> bool {
    is_digit(line[at]) && is_digit(line[at + 1])
}

spec fn shaped(line: Seq<u8>) -> bool {
    &&& line.len() >= 21
    &&& line[4] == 0x2D
    &&& line[7] == 0x2D
    &&& line[10] == 0x20
    &&& line[13] == 0x3A
    &&& line[16] == 0x3A
    &&& line[19] == FIELD_SEPARATOR
    &&& digits_at(line, 0)
    &&& digits_at(line, 2)
    &&& digits_at(line, 5)
    &&& digits_at(line, 8)
    &&& digits_at(line, 11)
    &&& digits_at(line, 14)
    &&& digits_at(line, 17)
    &&& canonical(line.skip(20))
    &&& digits_value(line.skip(20)) <= u32::MAX
    &&& fields(line).time.valid()
}

proof fn lemma_pair_spells(high: u8, low: u8)
    requires
        is_digit(high),
        is_digit(low),
    ensures
        ({
            let n = digit_value(high) * 10 + digit_value(low);
            &&& 0 <= n <= 99
            &&& digit(n / 10) == high
            &&& digit(n % 10) == low
        }),
{
}

proof fn lemma_quad_spells(a: u8, b: u8, c: u8, d: u8)
    requires
        is_digit(a),
        is_digit(b),
        is_digit(c),
        is_digit(d),
    ensures
        ({
            let n = digit_value(a) * 1000 + digit_value(b) * 100 + digit_value(c) * 10
                + digit_value(d);
            &&& 0 <= n <= 9999
            &&& digit(n / 1000) == a
            &&& digit((n / 100) % 10) == b
            &&& digit((n / 10) % 10) == c
            &&& digit(n % 10) == d
        }),
{
    let high = digit_value(a) * 10 + digit_value(b);
    let low = digit_value(c) * 10 + digit_value(d);
    let n = high * 100 + low;
    assert(n / 100 == high && n % 100 == low);
    assert(high / 10 == digit_value(a) && high % 10 == digit_value(b));
    assert(low / 10 == digit_value(c) && low % 10 == digit_value(d));
    assert(n / 1000 == high / 10);
    assert(n / 10 == high * 10 + low / 10);
    assert((n / 10) % 10 == low / 10);
    assert(n % 10 == low % 10);
}

proof fn lemma_two_digits_spell(n: int)
    requires
        0 <= n <= 99,
    ensures
        is_digit(digit(n / 10)),
        is_digit(digit(n % 10)),
        digit_value(digit(n / 10)) * 10 + digit_value(digit(n % 10)) == n,
{
}

proof fn lemma_four_digits_spell(n: int)
    requires
        0 <= n <= 9999,
    ensures
        is_digit(digit(n / 1000)),
        is_digit(digit((n / 100) % 10)),
        is_digit(digit((n / 10) % 10)),
        is_digit(digit(n % 10)),
        digit_value(digit(n / 1000)) * 1000 + digit_value(digit((n / 100) % 10)) * 100
            + digit_value(digit((n / 10) % 10)) * 10 + digit_value(digit(n % 10)) == n,
{
    let high = n / 100;
    let low = n % 100;
    assert(n == high * 100 + low);
    assert(0 <= high <= 99 && 0 <= low <= 99);
    assert(n / 1000 == high / 10);
    assert(n / 10 == high * 10 + low / 10);
    assert((n / 10) % 10 == low / 10);
    assert(n % 10 == low % 10);
    assert(high == (high / 10) * 10 + high % 10);
    assert(low == (low / 10) * 10 + low % 10);
}

proof fn lemma_shaped_is_line(line: Seq<u8>)
    requires
        shaped(line),
    ensures
        is_line_of(line, fields(line)),
{
    let time = fields(line).time;
    let ppm = fields(line).ppm;
    let tail = line.skip(20);
    lemma_canonical_is_decimal(tail);
    lemma_text_bytes(time);
    lemma_quad_spells(line[0], line[1], line[2], line[3]);
    lemma_pair_spells(line[5], line[6]);
    lemma_pair_spells(line[8], line[9]);
    lemma_pair_spells(line[11], line[12]);
    lemma_pair_spells(line[14], line[15]);
    lemma_pair_spells(line[17], line[18]);
    let stamp = time.text();
    assert(stamp =~= line.take(19));
    let text = fields(line).line();
    assert(text.len() == line.len());
    assert forall|i: int| 0 <= i < line.len() implies text[i] == line[i] by {
        if i < 19 {
            assert(text[i] == stamp[i]);
        } else if i == 19 {
        } else {
            assert(text[i] == decimal(ppm)[i - 20]);
            assert(tail[i - 20] == line[i]);
        }
    }
    assert(text =~= line);
}

proof fn lemma_line_is_shaped(line: Seq<u8>, m: Measurement)
    requires
        is_line_of(line, m),
    ensures
        shaped(line),
        fields(line) == m,
{
    let time = m.time;
    let ppm = m.ppm;
    lemma_decimal_spells(ppm);
    lemma_text_bytes(time);
    let stamp = time.text();
    assert(line.take(19) =~= stamp);
    assert forall|i: int| 0 <= i < 19 implies line[i] == stamp[i] by {
        assert(line.take(19)[i] == line[i]);
    }
    assert(line.skip(20) =~= decimal(ppm));
    assert(line[19] == FIELD_SEPARATOR);
    lemma_four_digits_spell(time.year);
    lemma_two_digits_spell(time.month);
    lemma_two_digits_spell(time.day);
    lemma_two_digits_spell(time.hour);
    lemma_two_digits_spell(time.minute);
    lemma_two_digits_spell(time.second);
    assert(line[0] == digit(time.year / 1000));
    assert(line[1] == digit((time.year / 100) % 10));
    assert(line[2] == digit((time.year / 10) % 10));
    assert(line[3] == digit(time.year % 10));
    assert(field4(line, 0) == time.year);
    assert(field2(line, 5) == time.month);
    assert(field2(line, 8) == time.day);
    assert(field2(line, 11) == time.hour);
    assert(field2(line, 14) == time.minute);
    assert(field2(line, 17) == time.second);
}

/// A line says what its shape holds, and a line of another shape says nothing.
proof fn lemma_parsed(line: Seq<u8>)
    ensures
        parsed(line) == if shaped(line) {
            Some(fields(line))
        } else {
            None
        },
{
    if shaped(line) {
        lemma_shaped_is_line(line);
        let m = choose|m: Measurement| is_line_of(line, m);
        lemma_line_is_shaped(line, m);
    } else {
        if exists|m: Measurement| is_line_of(line, m) {
            let m = choose|m: Measurement| is_line_of(line, m);
            lemma_line_is_shaped(line, m);
        }
    }
}

/// What a line says is a measurement of which it is the line.
pub proof fn lemma_parsed_is_line(line: Seq<u8>)
    requires
        parsed(line) is Some,
    ensures
        is_line_of(line, parsed(line)->0),
{
}

/// A line that was written is read back as it was: the line of a valid
/// measurement says that measurement.
pub proof fn lemma_line_round_trip(m: Measurement)
    requires
        m.valid(),
    ensures
        parsed(m.line()) == Some(m),
{
    lemma_line_is_shaped(m.line(), m);
    lemma_parsed(m.line());
}

/// No two valid measurements share a line.
pub proof fn lemma_line_injective(m: Measurement, other: Measurement)
    requires
        m.valid(),
        other.valid(),
        m.line() == other.line(),
    ensures
        m == other,
{
    lemma_line_is_shaped(m.line(), m);
    lemma_line_is_shaped(m.line(), other);
}

/// A log line is at least 21 bytes long and holds no line end, so the
/// lines of a log can be told apart.
pub proof fn lemma_line_has_no_line_end(m: Measurement)
    requires
        m.time.valid(),
    ensures
        forall|i: int| 0 <= i < m.line().len() ==> m.line()[i] != LINE_END,
        m.line().len() >= 21,
{
    let line = m.line();
    lemma_decimal_spells(m.ppm);
    lemma_text_bytes(m.time);
    let stamp = m.time.text();
    assert forall|i: int| 0 <= i < line.len() implies line[i] != LINE_END by {
        if i < 19 {
            assert(line[i] == stamp[i]);
        } else if i == 19 {
        } else {
            assert(line[i] == decimal(m.ppm)[i - 20]);
            assert(is_digit(decimal(m.ppm)[i - 20]));
        }
    }
}

impl Reading {
    pub fn new(timestamp: Timestamp, ppm: u32) -> (reading: Reading)
        ensures
            reading.timestamp == timestamp,
            reading.ppm == ppm,
    {
        Reading { timestamp, ppm }
    }

    /// Writes the log line of this reading, without the line end.
    pub fn to_line(&self) -> (line: Vec<u8>)
        ensures
            line@ == self@.line(),
            self@.valid(),
    {
        let mut line: Vec<u8> = Vec::new();
        self.timestamp.write_text(&mut line);
        line.push(FIELD_SEPARATOR);
        push_decimal(&mut line, self.ppm);
        assert(line@ =~= self@.line());
        line
    }

    /// Writes what the log gains when this reading is appended: its line
    /// and the line end.
    pub fn to_record(&self) -> (bytes: Vec<u8>)
        ensures
            bytes@ == self@.record(),
            self@.valid(),
    {
        let mut bytes = self.to_line();
        bytes.push(LINE_END);
        bytes
    }

    /// Reads a log line, without its line end. The reading comes back
    /// exactly where `line` is the line of one; any other text is refused.
    pub fn parse_line(line: &[u8]) -> (result: Option<Reading>)
        ensures
            match result {
                Some(reading) => parsed(line@) == Some(reading@),
                None => parsed(line@) is None,
            },
    {
        proof {
            lemma_parsed(line@);
        }
        if line.len() < 21 {
            return None;
        }
        if line[4] != 0x2D || line[7] != 0x2D || line[10] != 0x20 || line[13] != 0x3A || line[16]
            != 0x3A || line[19] != FIELD_SEPARATOR {
            return None;
        }
        let century = read_two_digits(line, 0);
        let year = read_two_digits(line, 2);
        let month = read_two_digits(line, 5);
        let day = read_two_digits(line, 8);
        let hour = read_two_digits(line, 11);
        let minute = read_two_digits(line, 14);
        let second = read_two_digits(line, 17);
        let ppm = read_decimal(line, 20);
        match (century, year, month, day, hour, minute, second, ppm) {
            (Some(c), Some(y), Some(mo), Some(d), Some(h), Some(mi), Some(s), Some(ppm)) => {
                let full_year: i32 = c as i32 * 100 + y as i32;
                match Timestamp::new(
                    full_year,
                    mo as u32,
                    d as u32,
                    h as u32,
                    mi as u32,
                    s as u32,
                ) {
                    Some(timestamp) => Some(Reading { timestamp, ppm }),
                    None => None,
                }
            },
            _ => None,
        }
    }
}

} // verus!
