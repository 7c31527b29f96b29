//! Calendar days, and the codec of the `YYYY-MM-DD` columns.

use vstd::prelude::*;
use vstd::string::StringExecFns;
use crate::error::{ErrorKind, Expected, Invalid};
use crate::record::invalid_if;
use crate::text::{all_digits, bytes_of, decimal, digit_group, is_digit, lemma_bytes_of_injective};

verus! {

broadcast use vstd::utf8::group_utf8_lib;

#[verifier::external_type_specification]
#[verifier::external_body]
pub struct ExNaiveDate(chrono::NaiveDate);

/// Whether `year` has a 29th of February in the proleptic Gregorian calendar.
pub open spec fn is_leap_year(year: int) -> bool {
    year % 4 == 0 && (year % 100 != 0 || year % 400 == 0)
}

/// The number of days of month `month` of `year`.
pub open spec fn days_in_month(year: int, month: int) -> int {
    if month == 2 {
        if is_leap_year(year) { 29 } else { 28 }
    } else if month == 4 || month == 6 || month == 9 || month == 11 {
        30
    } else {
        31
    }
}

/// Whether the calendar has such a day, in the range of years that a date
/// can hold.
pub open spec fn is_calendar_day(year: int, month: int, day: int) -> bool {
    &&& -262143 <= year <= 262142
    &&& 1 <= month <= 12
    &&& 1 <= day <= days_in_month(year, month)
}

/// The year, month and day of a day as chrono holds it.
pub uninterp spec fn naive_day(date: chrono::NaiveDate) -> (int, int, int);

/// `chrono::NaiveDate::from_ymd_opt`: the day of that year, month and day,
/// when the calendar has it and the year is one that chrono can hold;
/// `None` for every other triple.
#[verifier::external_body]
fn naive_date(year: i32, month: u32, day: u32) -> (r: Option<chrono::NaiveDate>)
    ensures
        r is Some <==> is_calendar_day(year as int, month as int, day as int),
        r matches Some(date) ==> naive_day(date) == (year as int, month as int, day as int),
{
    chrono::NaiveDate::from_ymd_opt(year, month, day)
}

/// A calendar day. Dates in a dump carry no time zone and mean UTC.
#[derive(Copy, Clone, Debug, PartialEq, Eq, Structural, PartialOrd, Ord, Hash)]
pub struct Date {
    year: i32,
    month: u32,
    day: u32,
}

impl Date {
    #[verifier::type_invariant]
    spec fn valid(self) -> bool {
        is_calendar_day(self.year as int, self.month as int, self.day as int)
    }

    pub closed spec fn spec_year(self) -> int {
        self.year as int
    }

    pub closed spec fn spec_month(self) -> int {
        self.month as int
    }

    pub closed spec fn spec_day(self) -> int {
        self.day as int
    }

    /// Two dates of the same year, month and day are the same date.
    pub proof fn lemma_same_day(self, other: Date)
        requires
            self.spec_year() == other.spec_year(),
            self.spec_month() == other.spec_month(),
            self.spec_day() == other.spec_day(),
        ensures
            self == other,
    {
    }

    /// The date of a year, month and day, if the calendar has such a day.
    pub fn from_ymd_opt(year: i32, month: u32, day: u32) -> (r: Option<Date>)
        ensures
            match r {
                Some(date) => {
                    &&& is_calendar_day(year as int, month as int, day as int)
                    &&& date.spec_year() == year
                    &&& date.spec_month() == month
                    &&& date.spec_day() == day
                },
                None => !is_calendar_day(year as int, month as int, day as int),
            },
    {
        if naive_date(year, month, day).is_some() {
            Some(Date { year, month, day })
        } else {
            None
        }
    }

    /// The date of a year, month and day that the calendar has.
    pub fn from_ymd(year: i32, month: u32, day: u32) -> (r: Date)
        requires
            is_calendar_day(year as int, month as int, day as int),
        ensures
            r.spec_year() == year,
            r.spec_month() == month,
            r.spec_day() == day,
    {
        Date { year, month, day }
    }

    pub fn year(&self) -> (r: i32)
        ensures
            r == self.spec_year(),
            -262143 <= r <= 262142,
    {
        proof {
            use_type_invariant(self);
        }
        self.year
    }

    pub fn month(&self) -> (r: u32)
        ensures
            r == self.spec_month(),
            1 <= r <= 12,
    {
        proof {
            use_type_invariant(self);
        }
        self.month
    }

    pub fn day(&self) -> (r: u32)
        ensures
            r == self.spec_day(),
            1 <= r <= 31,
    {
        proof {
            use_type_invariant(self);
        }
        self.day
    }

    /// The same day as a value of chrono.
    pub fn naive_utc(&self) -> (r: chrono::NaiveDate)
        ensures
            naive_day(r) == (self.spec_year(), self.spec_month(), self.spec_day()),
    {
        proof {
            use_type_invariant(self);
        }
        naive_date(self.year, self.month, self.day).unwrap()
    }

    /// The date as text: `YYYY-MM-DD` for the years 0 to 9999, and the year
    /// with its sign and at least four digits for every other year.
    pub fn to_string(&self) -> (r: String)
        ensures
            r@ == spec_format(self.spec_year(), self.spec_month(), self.spec_day()),
    {
        proof {
            use_type_invariant(self);
        }
        let mut s = year_text(self.year);
        s.append("-");
        push_two_digits(&mut s, self.month);
        s.append("-");
        push_two_digits(&mut s, self.day);
        proof {
            reveal_strlit("-");
            assert(s@ =~= spec_format(self.spec_year(), self.spec_month(), self.spec_day()));
        }
        s
    }
}

/// The character of the digit `d`.
pub open spec fn digit_char(d: int) -> char {
    (0x30 + d) as u8 as char
}

/// `v` below one hundred as two digits.
pub open spec fn two_digits(v: int) -> Seq<char> {
    seq![digit_char(v / 10), digit_char(v % 10)]
}

/// `v` below ten thousand as four digits.
pub open spec fn four_digits(v: int) -> Seq<char> {
    two_digits(v / 100) + two_digits(v % 100)
}

/// A year outside 0 to 9999 with its sign and all of its digits.
pub open spec fn signed_year(year: int) -> Seq<char> {
    let magnitude = if year < 0 { -year } else { year };
    let sign = if year < 0 { seq!['-'] } else { seq!['+'] };
    let high = if magnitude >= 100000 {
        two_digits(magnitude / 10000)
    } else if magnitude >= 10000 {
        seq![digit_char(magnitude / 10000)]
    } else {
        Seq::<char>::empty()
    };
    sign + high + four_digits(magnitude % 10000)
}

/// The text of the day `year`-`month`-`day`.
pub open spec fn spec_format(year: int, month: int, day: int) -> Seq<char> {
    let y = if 0 <= year <= 9999 { four_digits(year) } else { signed_year(year) };
    y + seq!['-'] + two_digits(month) + seq!['-'] + two_digits(day)
}

/// The text of a year.
fn year_text(year: i32) -> (r: String)
    requires
        -262143 <= year <= 262142,
    ensures
        r@ == (if 0 <= year <= 9999 { four_digits(year as int) } else { signed_year(year as int) }),
{
    let mut s = String::new();
    if 0 <= year && year <= 9999 {
        push_four_digits(&mut s, year as u32);
        assert(s@ =~= four_digits(year as int));
        return s;
    }
    proof {
        reveal_strlit("-");
        reveal_strlit("+");
    }
    let magnitude: u32 = if year < 0 {
        s.append("-");
        (-year) as u32
    } else {
        s.append("+");
        year as u32
    };
    let high = magnitude / 10000;
    let low = magnitude % 10000;
    assert(high < 100 && low < 10000);
    assert(high >= 10 <==> magnitude >= 100000);
    assert(high >= 1 <==> magnitude >= 10000);
    if high >= 10 {
        push_two_digits(&mut s, high);
    } else if high >= 1 {
        push_digit(&mut s, high);
    }
    push_four_digits(&mut s, low);
    assert(s@ =~= signed_year(year as int));
    s
}

fn push_four_digits(s: &mut String, v: u32)
    requires
        v < 10000,
    ensures
        final(s)@ == old(s)@ + four_digits(v as int),
{
    push_two_digits(s, v / 100);
    push_two_digits(s, v % 100);
    assert(s@ =~= old(s)@ + four_digits(v as int));
}

fn digit_str(d: u32) -> (r: &'static str)
    requires
        d < 10,
    ensures
        r@ == seq![digit_char(d as int)],
{
    proof {
        reveal_strlit("0");
        reveal_strlit("1");
        reveal_strlit("2");
        reveal_strlit("3");
        reveal_strlit("4");
        reveal_strlit("5");
        reveal_strlit("6");
        reveal_strlit("7");
        reveal_strlit("8");
        reveal_strlit("9");
    }
    let r = match d {
        0 => "0",
        1 => "1",
        2 => "2",
        3 => "3",
        4 => "4",
        5 => "5",
        6 => "6",
        7 => "7",
        8 => "8",
        _ => "9",
    };
    assert(r@ =~= seq![digit_char(d as int)]);
    r
}

fn push_digit(s: &mut String, d: u32)
    requires
        d < 10,
    ensures
        final(s)@ == old(s)@ + seq![digit_char(d as int)],
{
    s.append(digit_str(d));
}

fn push_two_digits(s: &mut String, v: u32)
    requires
        v < 100,
    ensures
        final(s)@ == old(s)@ + two_digits(v as int),
{
    s.append(digit_str(v / 10));
    s.append(digit_str(v % 10));
    assert(s@ =~= old(s)@ + two_digits(v as int));
}

/// The day that the bytes of a cell write, if they are exactly four digits,
/// a hyphen, two digits, a hyphen and two digits, and the calendar has the
/// day.
pub open spec fn spec_de(b: Seq<u8>) -> Option<(int, int, int)> {
    if b.len() == 10 && all_digits(b.subrange(0, 4)) && b[4] == 0x2d && all_digits(
        b.subrange(5, 7),
    ) && b[7] == 0x2d && all_digits(b.subrange(8, 10)) && is_calendar_day(
        decimal(b.subrange(0, 4)) as int,
        decimal(b.subrange(5, 7)) as int,
        decimal(b.subrange(8, 10)) as int,
    ) {
        Some(
            (
                decimal(b.subrange(0, 4)) as int,
                decimal(b.subrange(5, 7)) as int,
                decimal(b.subrange(8, 10)) as int,
            ),
        )
    } else {
        None
    }
}

/// Reads the ten bytes of `b` from `at` on as a date.
pub fn day_at(b: &[u8], at: usize) -> (r: Option<Date>)
    requires
        at + 10 <= b.len(),
    ensures
        match r {
            Some(date) => spec_de(b@.subrange(at as int, at + 10)) == Some(
                (date.spec_year(), date.spec_month(), date.spec_day()),
            ),
            None => spec_de(b@.subrange(at as int, at + 10)) is None,
        },
{
    let ghost cell = b@.subrange(at as int, at + 10);
    proof {
        assert(cell.subrange(0, 4) =~= b@.subrange(at as int, at + 4));
        assert(cell.subrange(5, 7) =~= b@.subrange(at + 5, at + 7));
        assert(cell.subrange(8, 10) =~= b@.subrange(at + 8, at + 10));
    }
    if b[at + 4] == 0x2d && b[at + 7] == 0x2d {
        if let Some(year) = digit_group(b, at, at + 4) {
            if let Some(month) = digit_group(b, at + 5, at + 7) {
                if let Some(day) = digit_group(b, at + 8, at + 10) {
                    proof {
                        crate::text::lemma_decimal_bound(cell.subrange(0, 4));
                        assert(crate::text::pow10(4) == 10000) by {
                            reveal_with_fuel(crate::text::pow10, 5);
                        }
                    }
                    return Date::from_ymd_opt(year as i32, month, day);
                }
            }
        }
    }
    None
}

/// Decodes a date cell.
pub fn de(text: &str) -> (r: Result<Date, Invalid>)
    ensures
        match r {
            Ok(date) => spec_de(bytes_of(text@)) == Some(
                (date.spec_year(), date.spec_month(), date.spec_day()),
            ),
            Err(e) => spec_de(bytes_of(text@)) is None && e.expected == Expected::Date
                && e.detail@ == text@,
        },
{
    let b = text.as_bytes();
    if b.len() == 10 {
        assert(b@.subrange(0, 10) =~= b@);
        if let Some(date) = day_at(b, 0) {
            return Ok(date);
        }
    }
    Err(Invalid { expected: Expected::Date, detail: text.to_owned() })
}

/// Two digits write the number that `two_digits` turns back into them.
pub proof fn lemma_two_digits(s: Seq<u8>)
    requires
        s.len() == 2,
        all_digits(s),
    ensures
        decimal(s) < 100,
        bytes_of(two_digits(decimal(s) as int)) == s,
        vstd::utf8::is_ascii_chars(two_digits(decimal(s) as int)),
        two_digits(decimal(s) as int)[0] as u8 == s[0],
        two_digits(decimal(s) as int)[1] as u8 == s[1],
{
    assert(is_digit(s[0]) && is_digit(s[1]));
    let one = s.drop_last();
    assert(one.drop_last() =~= Seq::<u8>::empty());
    assert(decimal(one) == s[0] - 0x30) by {
        reveal_with_fuel(decimal, 2);
    }
    assert(decimal(s) == (s[0] - 0x30) * 10 + (s[1] - 0x30)) by {
        reveal_with_fuel(decimal, 3);
    }
    let t = two_digits(decimal(s) as int);
    assert(vstd::utf8::is_ascii_chars(t));
    vstd::utf8::is_ascii_chars_encode_utf8(t);
    assert(bytes_of(t) =~= s);
}

/// Four digits write the number that `four_digits` turns back into them.
pub proof fn lemma_four_digits(s: Seq<u8>)
    requires
        s.len() == 4,
        all_digits(s),
    ensures
        decimal(s) < 10000,
        bytes_of(four_digits(decimal(s) as int)) == s,
        vstd::utf8::is_ascii_chars(four_digits(decimal(s) as int)),
        forall|i: int| 0 <= i < 4 ==> (#[trigger] four_digits(decimal(s) as int)[i]) as u8 == s[i],
{
    assert(is_digit(s[0]) && is_digit(s[1]) && is_digit(s[2]) && is_digit(s[3]));
    let three = s.drop_last();
    let two = three.drop_last();
    let one = two.drop_last();
    assert(one.drop_last() =~= Seq::<u8>::empty());
    assert(decimal(one) == s[0] - 0x30) by {
        reveal_with_fuel(decimal, 2);
    }
    assert(decimal(two) == decimal(one) * 10 + (s[1] - 0x30));
    assert(decimal(three) == decimal(two) * 10 + (s[2] - 0x30));
    assert(decimal(s) == decimal(three) * 10 + (s[3] - 0x30));
    let v = decimal(s) as int;
    assert(v == (s[0] - 0x30) * 1000 + (s[1] - 0x30) * 100 + (s[2] - 0x30) * 10 + (s[3] - 0x30));
    assert(v / 100 == (s[0] - 0x30) * 10 + (s[1] - 0x30));
    assert(v % 100 == (s[2] - 0x30) * 10 + (s[3] - 0x30));
    let t = four_digits(v);
    assert(vstd::utf8::is_ascii_chars(t));
    vstd::utf8::is_ascii_chars_encode_utf8(t);
    assert(bytes_of(t) =~= s);
}

/// Decoding a date cell and writing the date out again gives back the cell,
/// character for character.
pub proof fn lemma_de_then_to_string(text: Seq<char>)
    requires
        spec_de(bytes_of(text)) is Some,
    ensures
        ({
            let (year, month, day) = spec_de(bytes_of(text))->0;
            spec_format(year, month, day) == text
        }),
{
    let b = bytes_of(text);
    let (year, month, day) = spec_de(b)->0;
    let y = b.subrange(0, 4);
    let m = b.subrange(5, 7);
    let d = b.subrange(8, 10);
    lemma_four_digits(y);
    lemma_two_digits(m);
    lemma_two_digits(d);
    let t = spec_format(year, month, day);
    let yy = four_digits(year);
    let mm = two_digits(month);
    let dd = two_digits(day);
    assert(yy.len() == 4 && mm.len() == 2 && dd.len() == 2);
    assert(t =~= yy + seq!['-'] + mm + seq!['-'] + dd);
    assert(t.len() == 10);
    assert forall|i: int| 0 <= i < 10 implies (#[trigger] t[i]) as u8 == b[i] && '\0' <= t[i]
        <= '\u{7f}' by {
        if i < 4 {
            assert(t[i] == yy[i]);
            assert(b[i] == y[i]);
        } else if i == 4 {
            assert(t[i] == '-');
        } else if i < 7 {
            assert(t[i] == mm[i - 5]);
            assert(b[i] == m[i - 5]);
        } else if i == 7 {
            assert(t[i] == '-');
        } else {
            assert(t[i] == dd[i - 8]);
            assert(b[i] == d[i - 8]);
        }
    }
    assert(vstd::utf8::is_ascii_chars(t));
    vstd::utf8::is_ascii_chars_encode_utf8(t);
    assert(bytes_of(t) =~= b);
    lemma_bytes_of_injective(t, text);
}

/// The fault of the date cell `cell` of column `k`.
pub open spec fn fault(cell: Seq<char>, k: int) -> Option<ErrorKind> {
    invalid_if(spec_de(bytes_of(cell)) is None, k, Expected::Date)
}

} // verus!
