//! The codec of the integer columns.
//!
//! An integer cell is an optional sign and decimal digits, or `0x`, an
//! optional sign and hexadecimal digits. An unsigned column takes only the
//! sign `+`. The csv crate reads the cells; what it makes of a cell is
//! written out here, and the columns' own limits are held to that.

use vstd::prelude::*;
use crate::error::{Expected, Invalid};
use crate::text::bytes_of;

verus! {

/// The value of the byte `b` as a digit in base `radix`, which is 10 or 16.
pub open spec fn digit_value(b: u8, radix: int) -> Option<int> {
    if 0x30 <= b <= 0x39 {
        Some(b - 0x30)
    } else if radix == 16 && 0x61 <= b <= 0x66 {
        Some(b - 0x61 + 10)
    } else if radix == 16 && 0x41 <= b <= 0x46 {
        Some(b - 0x41 + 10)
    } else {
        None
    }
}

/// Every byte of `s` is a digit in base `radix`.
pub open spec fn all_digits(s: Seq<u8>, radix: int) -> bool {
    forall|i: int| 0 <= i < s.len() ==> digit_value(#[trigger] s[i], radix) is Some
}

/// The number that the digits `s` write in base `radix`.
pub open spec fn number(s: Seq<u8>, radix: int) -> int
    decreases s.len(),
{
    if s.len() == 0 {
        0
    } else {
        number(s.drop_last(), radix) * radix + digit_value(s.last(), radix)->0
    }
}

/// The number that a sign and digits write. A `-` is taken only where
/// `signed` allows it; at least one digit must follow the sign.
pub open spec fn spec_signed(b: Seq<u8>, radix: int, signed: bool) -> Option<int> {
    let negative = signed && b.len() > 0 && b[0] == 0x2d;
    let digits = if b.len() > 0 && (b[0] == 0x2b || negative) {
        b.drop_first()
    } else {
        b
    };
    if digits.len() > 0 && all_digits(digits, radix) {
        Some(if negative { -number(digits, radix) } else { number(digits, radix) })
    } else {
        None
    }
}

/// The number that the bytes of an integer cell write.
pub open spec fn spec_integer(b: Seq<u8>, signed: bool) -> Option<int> {
    if b.len() >= 2 && b[0] == 0x30 && b[1] == 0x78 {
        spec_signed(b.subrange(2, b.len() as int), 16, signed)
    } else {
        spec_signed(b, 10, signed)
    }
}

/// The number that the bytes of an integer cell write, if it lies between
/// `min` and `max`.
pub open spec fn spec_bounded(b: Seq<u8>, min: int, max: int) -> Option<int> {
    match spec_integer(b, min < 0) {
        Some(v) => if min <= v <= max { Some(v) } else { None },
        None => None,
    }
}

/// `csv::StringRecord::deserialize` of a record of the one cell `text`
/// into a `u64`, which is how csv reads the cell of an integer column:
/// after `0x` it reads with `u64::from_str_radix` in base 16, and without
/// it with `str::parse`. Both take an optional `+` and then digits, one at
/// least, and report an error for anything else and for a number that a
/// `u64` cannot hold.
#[verifier::external_body]
fn csv_u64(text: &str) -> (r: Option<u64>)
    ensures
        r is Some <==> spec_bounded(bytes_of(text@), 0, u64::MAX as int) is Some,
        r matches Some(v) ==> spec_bounded(bytes_of(text@), 0, u64::MAX as int) == Some(v as int),
{
    let record = ::csv::StringRecord::from(vec![text]);
    record.deserialize::<(u64,)>(None).ok().map(|cell| cell.0)
}

/// `csv::StringRecord::deserialize` of a record of the one cell `text`
/// into an `i32`: as for a `u64`, but that the sign may be `-` too, and
/// that the number must be one that an `i32` holds.
#[verifier::external_body]
fn csv_i32(text: &str) -> (r: Option<i32>)
    ensures
        r is Some <==> spec_bounded(bytes_of(text@), i32::MIN as int, i32::MAX as int) is Some,
        r matches Some(v) ==> spec_bounded(bytes_of(text@), i32::MIN as int, i32::MAX as int)
            == Some(v as int),
{
    let record = ::csv::StringRecord::from(vec![text]);
    record.deserialize::<(i32,)>(None).ok().map(|cell| cell.0)
}

/// Decodes the cell of an unsigned column whose values go up to `max`.
pub fn unsigned(text: &str, max: u64) -> (r: Result<u64, Invalid>)
    ensures
        match r {
            Ok(v) => spec_bounded(bytes_of(text@), 0, max as int) == Some(v as int),
            Err(e) => spec_bounded(bytes_of(text@), 0, max as int) is None && e.expected
                == Expected::Integer && e.detail@ == text@,
        },
{
    match csv_u64(text) {
        Some(v) => if v <= max {
            Ok(v)
        } else {
            Err(Invalid { expected: Expected::Integer, detail: text.to_owned() })
        },
        None => Err(Invalid { expected: Expected::Integer, detail: text.to_owned() }),
    }
}

/// Decodes the cell of a signed 32-bit column.
pub fn signed32(text: &str) -> (r: Result<i32, Invalid>)
    ensures
        match r {
            Ok(v) => spec_bounded(bytes_of(text@), i32::MIN as int, i32::MAX as int) == Some(
                v as int,
            ),
            Err(e) => spec_bounded(bytes_of(text@), i32::MIN as int, i32::MAX as int) is None
                && e.expected == Expected::Integer && e.detail@ == text@,
        },
{
    match csv_i32(text) {
        Some(v) => Ok(v),
        None => Err(Invalid { expected: Expected::Integer, detail: text.to_owned() }),
    }
}

} // verus!
