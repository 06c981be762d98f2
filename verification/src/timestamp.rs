//! Points in local time, to the second, as a log line writes them.

use vstd::prelude::*;
use crate::text::{digit, four_digits, push_four_digits, push_two_digits, two_digits};

verus! {

/// The calendar fields of a point in time, as mathematical integers.
pub struct CalendarTime {
    pub year: int,
    pub month: int,
    pub day: int,
    pub hour: int,
    pub minute: int,
    pub second: int,
}

impl CalendarTime {
    /// Whether the fields can be written as `YYYY-MM-DD HH:MM:SS`: a year
    /// of four digits, and each other field within its range on the
    /// calendar or the clock.
    pub open spec fn valid(self) -> bool {
        &&& 0 <= self.year <= 9999
        &&& 1 <= self.month <= 12
        &&& 1 <= self.day <= 31
        &&& 0 <= self.hour <= 23
        &&& 0 <= self.minute <= 59
        &&& 0 <= self.second <= 59
    }

    /// The nineteen bytes `YYYY-MM-DD HH:MM:SS`.
    pub open spec fn text(self) -> Seq<u8> {
        four_digits(self.year) + seq![0x2Du8] + two_digits(self.month) + seq![0x2Du8]
            + two_digits(self.day) + seq![0x20u8] + two_digits(self.hour) + seq![0x3Au8]
            + two_digits(self.minute) + seq![0x3Au8] + two_digits(self.second)
    }
}

/// The text of a time, byte by byte.
pub proof fn lemma_text_bytes(time: CalendarTime)
    ensures
        time.text() == seq![
            digit(time.year / 1000),
            digit((time.year / 100) % 10),
            digit((time.year / 10) % 10),
            digit(time.year % 10),
            0x2Du8,
            digit(time.month / 10),
            digit(time.month % 10),
            0x2Du8,
            digit(time.day / 10),
            digit(time.day % 10),
            0x20u8,
            digit(time.hour / 10),
            digit(time.hour % 10),
            0x3Au8,
            digit(time.minute / 10),
            digit(time.minute % 10),
            0x3Au8,
            digit(time.second / 10),
            digit(time.second % 10),
        ],
        time.text().len() == 19,
{
    let date = four_digits(time.year) + seq![0x2Du8] + two_digits(time.month) + seq![0x2Du8]
        + two_digits(time.day);
    assert(date =~= seq![
        digit(time.year / 1000),
        digit((time.year / 100) % 10),
        digit((time.year / 10) % 10),
        digit(time.year % 10),
        0x2Du8,
        digit(time.month / 10),
        digit(time.month % 10),
        0x2Du8,
        digit(time.day / 10),
        digit(time.day % 10),
    ]);
    let clock = seq![0x20u8] + two_digits(time.hour) + seq![0x3Au8] + two_digits(time.minute)
        + seq![0x3Au8] + two_digits(time.second);
    assert(clock =~= seq![
        0x20u8,
        digit(time.hour / 10),
        digit(time.hour % 10),
        0x3Au8,
        digit(time.minute / 10),
        digit(time.minute % 10),
        0x3Au8,
        digit(time.second / 10),
        digit(time.second % 10),
    ]);
    assert(time.text() =~= date + clock);
    assert(date + clock =~= seq![
        digit(time.year / 1000),
        digit((time.year / 100) % 10),
        digit((time.year / 10) % 10),
        digit(time.year % 10),
        0x2Du8,
        digit(time.month / 10),
        digit(time.month % 10),
        0x2Du8,
        digit(time.day / 10),
        digit(time.day % 10),
        0x20u8,
        digit(time.hour / 10),
        digit(time.hour % 10),
        0x3Au8,
        digit(time.minute / 10),
        digit(time.minute % 10),
        0x3Au8,
        digit(time.second / 10),
        digit(time.second % 10),
    ]);
}

/// What a clock reports: calendar fields that nothing has looked at yet.
#[derive(Clone, Copy, Debug, PartialEq, Eq, Structural)]
pub struct ClockReading {
    pub year: i32,
    pub month: u32,
    pub day: u32,
    pub hour: u32,
    pub minute: u32,
    pub second: u32,
}

impl ClockReading {
    /// The first second of 1970.
    pub fn epoch() -> (clock: ClockReading)
        ensures
            clock == (ClockReading { year: 1970, month: 1, day: 1, hour: 0, minute: 0, second: 0 }),
    {
        ClockReading { year: 1970, month: 1, day: 1, hour: 0, minute: 0, second: 0 }
    }

    /// The fields as mathematical integers.
    pub open spec fn calendar(self) -> CalendarTime {
        CalendarTime {
            year: self.year as int,
            month: self.month as int,
            day: self.day as int,
            hour: self.hour as int,
            minute: self.minute as int,
            second: self.second as int,
        }
    }
}

/// A point in local time with second precision. Every value is valid in
/// the sense of `CalendarTime::valid`.
#[derive(Clone, Copy, Debug, PartialEq, Eq, Structural)]
pub struct Timestamp {
    year: u16,
    month: u8,
    day: u8,
    hour: u8,
    minute: u8,
    second: u8,
}

impl View for Timestamp {
    type V = CalendarTime;

    closed spec fn view(&self) -> CalendarTime {
        CalendarTime {
            year: self.year as int,
            month: self.month as int,
            day: self.day as int,
            hour: self.hour as int,
            minute: self.minute as int,
            second: self.second as int,
        }
    }
}

impl Timestamp {
    #[verifier::type_invariant]
    spec fn well_formed(self) -> bool {
        self@.valid()
    }

    /// Makes a timestamp of the six fields, where they are valid.
    pub fn new(year: i32, month: u32, day: u32, hour: u32, minute: u32, second: u32) -> (result:
        Option<Timestamp>)
        ensures
            result is Some <==> (ClockReading { year, month, day, hour, minute, second })
                .calendar().valid(),
            result matches Some(t) ==> t@ == (ClockReading {
                year,
                month,
                day,
                hour,
                minute,
                second,
            }).calendar(),
    {
        if 0 <= year && year <= 9999 && 1 <= month && month <= 12 && 1 <= day && day <= 31 && hour
            <= 23 && minute <= 59 && second <= 59 {
            Some(
                Timestamp {
                    year: year as u16,
                    month: month as u8,
                    day: day as u8,
                    hour: hour as u8,
                    minute: minute as u8,
                    second: second as u8,
                },
            )
        } else {
            None
        }
    }

    /// Makes a timestamp of what a clock reported, where that is valid.
    pub fn from_clock(clock: ClockReading) -> (result: Option<Timestamp>)
        ensures
            result is Some <==> clock.calendar().valid(),
            result matches Some(t) ==> t@ == clock.calendar(),
    {
        Timestamp::new(clock.year, clock.month, clock.day, clock.hour, clock.minute, clock.second)
    }

    /// Two timestamps with the same fields are the same timestamp.
    pub proof fn lemma_view_injective(self, other: Timestamp)
        requires
            self@ == other@,
        ensures
            self == other,
    {
    }

    /// Shows that this timestamp is valid, as every timestamp is.
    pub fn confirm_valid(&self)
        ensures
            self@.valid(),
    {
        proof {
            use_type_invariant(self);
        }
    }

    pub fn year(&self) -> (year: u16)
        ensures
            year == self@.year,
    {
        self.year
    }

    pub fn month(&self) -> (month: u8)
        ensures
            month == self@.month,
    {
        self.month
    }

    pub fn day(&self) -> (day: u8)
        ensures
            day == self@.day,
    {
        self.day
    }

    pub fn hour(&self) -> (hour: u8)
        ensures
            hour == self@.hour,
    {
        self.hour
    }

    pub fn minute(&self) -> (minute: u8)
        ensures
            minute == self@.minute,
    {
        self.minute
    }

    pub fn second(&self) -> (second: u8)
        ensures
            second == self@.second,
    {
        self.second
    }

    /// Appends `YYYY-MM-DD HH:MM:SS` to `out`.
    pub fn write_text(&self, out: &mut Vec<u8>)
        ensures
            final(out)@ == old(out)@ + self@.text(),
            self@.valid(),
    {
        proof {
            use_type_invariant(self);
        }
        push_four_digits(out, self.year);
        out.push(0x2D);
        push_two_digits(out, self.month);
        out.push(0x2D);
        push_two_digits(out, self.day);
        out.push(0x20);
        push_two_digits(out, self.hour);
        out.push(0x3A);
        push_two_digits(out, self.minute);
        out.push(0x3A);
        push_two_digits(out, self.second);
        assert(out@ =~= old(out)@ + self@.text());
    }
}

} // verus!
