//! Timestamps, and the codec of the timestamp columns.
//!
//! A timestamp in a dump names no time zone and means UTC. Some dumps end
//! each timestamp in the marker `+00`, which is dropped.

use vstd::prelude::*;
use crate::date::{naive_day, Date};
use crate::error::{Expected, Invalid};
use crate::text::{
    all_digits, bytes_of, decimal, digit_group, lemma_decimal_bound, lemma_pow10_monotone, pow10,
};

verus! {

#[verifier::external_type_specification]
#[verifier::external_body]
pub struct ExNaiveTime(chrono::NaiveTime);

#[verifier::external_type_specification]
#[verifier::external_body]
pub struct ExNaiveDateTime(chrono::NaiveDateTime);

/// The hour, minute, second and microsecond of a time of day as chrono
/// holds it.
pub uninterp spec fn naive_time_of_day(time: chrono::NaiveTime) -> (int, int, int, int);

/// The day and the time of day of an instant as chrono holds it.
pub uninterp spec fn naive_instant(instant: chrono::NaiveDateTime) -> (
    (int, int, int),
    (int, int, int, int),
);

/// `chrono::NaiveTime::from_hms_micro_opt`: the time of day of that hour,
/// minute, second and microsecond, for an hour below 24, a minute and a
/// second below 60, and a microsecond below one million, or below two
/// million in the second 59, where chrono keeps leap seconds; `None` for
/// everything else.
#[verifier::external_body]
fn naive_time(hour: u32, minute: u32, second: u32, micro: u32) -> (r: Option<chrono::NaiveTime>)
    ensures
        r is Some <==> (hour < 24 && minute < 60 && second < 60 && (micro < 1_000_000 || (second
            == 59 && micro < 2_000_000))),
        r matches Some(time) ==> naive_time_of_day(time) == (
            hour as int,
            minute as int,
            second as int,
            micro as int,
        ),
{
    chrono::NaiveTime::from_hms_micro_opt(hour, minute, second, micro)
}

/// `chrono::NaiveDateTime::new`: the instant of that day and time of day.
#[verifier::external_body]
fn naive_date_time(date: chrono::NaiveDate, time: chrono::NaiveTime) -> (r: chrono::NaiveDateTime)
    ensures
        naive_instant(r) == (naive_day(date), naive_time_of_day(time)),
{
    chrono::NaiveDateTime::new(date, time)
}

/// An instant as calendar fields.
pub struct Moment {
    pub year: int,
    pub month: int,
    pub day: int,
    pub hour: int,
    pub minute: int,
    pub second: int,
    pub microsecond: int,
}

/// Whether the clock shows such a time of day.
pub open spec fn is_time_of_day(hour: int, minute: int, second: int, microsecond: int) -> bool {
    0 <= hour < 24 && 0 <= minute < 60 && 0 <= second < 60 && 0 <= microsecond < 1_000_000
}

/// An instant in UTC, to the microsecond.
#[derive(Copy, Clone, Debug, PartialEq, Eq, Structural, PartialOrd, Ord, Hash)]
pub struct DateTime {
    date: Date,
    hour: u32,
    minute: u32,
    second: u32,
    microsecond: u32,
}

impl DateTime {
    #[verifier::type_invariant]
    spec fn valid(self) -> bool {
        is_time_of_day(
            self.hour as int,
            self.minute as int,
            self.second as int,
            self.microsecond as int,
        )
    }

    pub closed spec fn spec_date(self) -> Date {
        self.date
    }

    /// The calendar fields of the instant.
    pub closed spec fn moment(self) -> Moment {
        Moment {
            year: self.date.spec_year(),
            month: self.date.spec_month(),
            day: self.date.spec_day(),
            hour: self.hour as int,
            minute: self.minute as int,
            second: self.second as int,
            microsecond: self.microsecond as int,
        }
    }

    /// Two instants with the same calendar fields are the same instant.
    pub proof fn lemma_same_moment(self, other: DateTime)
        requires
            self.moment() == other.moment(),
        ensures
            self == other,
    {
        self.date.lemma_same_day(other.date);
    }

    /// The instant of a day and a time of day, if the clock shows that time.
    pub fn new(date: Date, hour: u32, minute: u32, second: u32, microsecond: u32) -> (r: Option<
        DateTime,
    >)
        ensures
            match r {
                Some(t) => is_time_of_day(
                    hour as int,
                    minute as int,
                    second as int,
                    microsecond as int,
                ) && t.spec_date() == date && t.moment() == (Moment {
                    year: date.spec_year(),
                    month: date.spec_month(),
                    day: date.spec_day(),
                    hour: hour as int,
                    minute: minute as int,
                    second: second as int,
                    microsecond: microsecond as int,
                }),
                None => !is_time_of_day(
                    hour as int,
                    minute as int,
                    second as int,
                    microsecond as int,
                ),
            },
    {
        if microsecond < 1_000_000 && naive_time(hour, minute, second, microsecond).is_some() {
            Some(DateTime { date, hour, minute, second, microsecond })
        } else {
            None
        }
    }

    pub fn date(&self) -> (r: Date)
        ensures
            r == self.spec_date(),
    {
        self.date
    }

    pub fn hour(&self) -> (r: u32)
        ensures
            r == self.moment().hour,
            r < 24,
    {
        proof {
            use_type_invariant(self);
        }
        self.hour
    }

    pub fn minute(&self) -> (r: u32)
        ensures
            r == self.moment().minute,
            r < 60,
    {
        proof {
            use_type_invariant(self);
        }
        self.minute
    }

    pub fn second(&self) -> (r: u32)
        ensures
            r == self.moment().second,
            r < 60,
    {
        proof {
            use_type_invariant(self);
        }
        self.second
    }

    pub fn microsecond(&self) -> (r: u32)
        ensures
            r == self.moment().microsecond,
            r < 1_000_000,
    {
        proof {
            use_type_invariant(self);
        }
        self.microsecond
    }

    /// The same instant as a value of chrono, without a time zone: the
    /// time of day of the instant on its day.
    pub fn naive_utc(&self) -> (r: chrono::NaiveDateTime)
        ensures
            naive_instant(r) == (
                (self.moment().year, self.moment().month, self.moment().day),
                (
                    self.moment().hour,
                    self.moment().minute,
                    self.moment().second,
                    self.moment().microsecond,
                ),
            ),
    {
        proof {
            use_type_invariant(self);
        }
        let time = naive_time(self.hour, self.minute, self.second, self.microsecond).unwrap();
        naive_date_time(self.date.naive_utc(), time)
    }
}

/// The bytes of a cell without the zone marker `+00` at its end, if it has one.
pub open spec fn strip_zone(b: Seq<u8>) -> Seq<u8> {
    if b.len() >= 3 && b[b.len() - 3] == 0x2b && b[b.len() - 2] == 0x30 && b[b.len() - 1] == 0x30 {
        b.subrange(0, b.len() - 3)
    } else {
        b
    }
}

/// The microseconds that the tail of a timestamp writes. No tail means
/// zero. Otherwise the tail is a period and one to six digits, which count
/// from the tenths down: `.99` is 990000 microseconds.
pub open spec fn spec_fraction(tail: Seq<u8>) -> Option<int> {
    if tail.len() == 0 {
        Some(0)
    } else if 2 <= tail.len() <= 7 && tail[0] == 0x2e && all_digits(
        tail.subrange(1, tail.len() as int),
    ) {
        Some(
            decimal(tail.subrange(1, tail.len() as int)) * pow10((7 - tail.len()) as nat) as int,
        )
    } else {
        None
    }
}

/// The instant that the bytes of a cell write: `YYYY-MM-DD HH:MM:SS`, then an
/// optional fraction of a second, then an optional `+00`.
pub open spec fn spec_de(cell: Seq<u8>) -> Option<Moment> {
    let b = strip_zone(cell);
    if b.len() >= 19 && crate::date::spec_de(b.subrange(0, 10)) is Some && b[10] == 0x20
        && all_digits(b.subrange(11, 13)) && b[13] == 0x3a && all_digits(b.subrange(14, 16))
        && b[16] == 0x3a && all_digits(b.subrange(17, 19)) && spec_fraction(
        b.subrange(19, b.len() as int),
    ) is Some && is_time_of_day(
        decimal(b.subrange(11, 13)) as int,
        decimal(b.subrange(14, 16)) as int,
        decimal(b.subrange(17, 19)) as int,
        spec_fraction(b.subrange(19, b.len() as int))->0,
    ) {
        let (year, month, day) = crate::date::spec_de(b.subrange(0, 10))->0;
        Some(
            Moment {
                year,
                month,
                day,
                hour: decimal(b.subrange(11, 13)) as int,
                minute: decimal(b.subrange(14, 16)) as int,
                second: decimal(b.subrange(17, 19)) as int,
                microsecond: spec_fraction(b.subrange(19, b.len() as int))->0,
            },
        )
    } else {
        None
    }
}

/// Ten to the power of `n`, for the six powers that a fraction needs.
fn scale(n: usize) -> (r: u32)
    requires
        n <= 5,
    ensures
        r == pow10(n as nat),
{
    proof {
        reveal_with_fuel(pow10, 6);
    }
    match n {
        0 => 1,
        1 => 10,
        2 => 100,
        3 => 1000,
        4 => 10000,
        _ => 100000,
    }
}

/// Reads the fraction of a second in `b[from..to]`.
fn fraction(b: &[u8], from: usize, to: usize) -> (r: Option<u32>)
    requires
        from <= to <= b.len(),
    ensures
        match r {
            Some(micro) => spec_fraction(b@.subrange(from as int, to as int)) == Some(
                micro as int,
            ) && micro < 1_000_000,
            None => spec_fraction(b@.subrange(from as int, to as int)) is None,
        },
{
    let ghost tail = b@.subrange(from as int, to as int);
    if from == to {
        return Some(0);
    }
    if to - from < 2 || to - from > 7 || b[from] != 0x2e {
        return None;
    }
    let ghost digits = tail.subrange(1, tail.len() as int);
    assert(digits =~= b@.subrange(from + 1, to as int));
    match digit_group(b, from + 1, to) {
        Some(value) => {
            let width = to - from - 1;
            proof {
                lemma_decimal_bound(digits);
                reveal_with_fuel(pow10, 7);
                lemma_pow10_scale(value as nat, width as nat);
            }
            Some(value * scale(6 - width))
        },
        None => None,
    }
}

/// A number below ten to the `width`, scaled up to six digits, stays below
/// one million.
proof fn lemma_pow10_scale(value: nat, width: nat)
    requires
        1 <= width <= 6,
        value < pow10(width),
    ensures
        value * pow10((6 - width) as nat) < 1_000_000,
{
    reveal_with_fuel(pow10, 7);
    if width == 1 {
        assert(value * 100000 < 1_000_000);
    } else if width == 2 {
        assert(value * 10000 < 1_000_000);
    } else if width == 3 {
        assert(value * 1000 < 1_000_000);
    } else if width == 4 {
        assert(value * 100 < 1_000_000);
    } else if width == 5 {
        assert(value * 10 < 1_000_000);
    } else {
        assert(value * 1 < 1_000_000);
    }
}

/// Decodes a timestamp cell.
pub fn de(text: &str) -> (r: Result<DateTime, Invalid>)
    ensures
        match r {
            Ok(t) => spec_de(bytes_of(text@)) == Some(t.moment()),
            Err(e) => spec_de(bytes_of(text@)) is None && e.expected == Expected::DateTime
                && e.detail@ == text@,
        },
{
    let cell = text.as_bytes();
    let len = cell.len();
    let n = if len >= 3 && cell[len - 3] == 0x2b && cell[len - 2] == 0x30 && cell[len - 1]
        == 0x30 {
        len - 3
    } else {
        len
    };
    let ghost b = strip_zone(cell@);
    assert(b =~= cell@.subrange(0, n as int));
    if n >= 19 {
        proof {
            assert(b.subrange(0, 10) =~= cell@.subrange(0, 10));
            assert(b.subrange(11, 13) =~= cell@.subrange(11, 13));
            assert(b.subrange(14, 16) =~= cell@.subrange(14, 16));
            assert(b.subrange(17, 19) =~= cell@.subrange(17, 19));
            assert(b.subrange(19, b.len() as int) =~= cell@.subrange(19, n as int));
        }
        if let Some(date) = crate::date::day_at(cell, 0) {
            if cell[10] == 0x20 && cell[13] == 0x3a && cell[16] == 0x3a {
                if let Some(hour) = digit_group(cell, 11, 13) {
                    if let Some(minute) = digit_group(cell, 14, 16) {
                        if let Some(second) = digit_group(cell, 17, 19) {
                            if let Some(micro) = fraction(cell, 19, n) {
                                if let Some(t) = DateTime::new(date, hour, minute, second, micro) {
                                    return Ok(t);
                                }
                            }
                        }
                    }
                }
            }
        }
    }
    Err(Invalid { expected: Expected::DateTime, detail: text.to_owned() })
}

} // verus!
