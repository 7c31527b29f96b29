//! The cells that most tables have: integers, texts, booleans and
//! timestamps, each as the cell of a required column or of one that may be
//! absent or empty.

use vstd::prelude::*;
use crate::datetime::{DateTime, Moment};
use crate::error::{Error, ErrorKind, Expected};
use crate::integer::spec_bounded;
use crate::record::{at, invalid_if, texts, Layout, LayoutView};
use crate::text::bytes_of;

verus! {

/// The fault of the integer cell of the required column `k`.
pub open spec fn integer_fault(
    layout: LayoutView,
    row: Seq<Seq<char>>,
    k: int,
    min: int,
    max: int,
) -> Option<ErrorKind> {
    invalid_if(
        spec_bounded(bytes_of(layout.required(row, k)), min, max) is None,
        k,
        Expected::Integer,
    )
}

/// The number in the integer cell of the required column `k`.
pub open spec fn integer_value(
    layout: LayoutView,
    row: Seq<Seq<char>>,
    k: int,
    min: int,
    max: int,
) -> int {
    spec_bounded(bytes_of(layout.required(row, k)), min, max)->0
}

/// The fault of the integer cell of column `k`, which may be absent or empty.
pub open spec fn opt_integer_fault(
    layout: LayoutView,
    row: Seq<Seq<char>>,
    k: int,
    max: int,
) -> Option<ErrorKind> {
    match layout.optional(row, k) {
        Some(cell) => invalid_if(
            spec_bounded(bytes_of(cell), 0, max) is None, k, Expected::Integer,
        ),
        None => None,
    }
}

/// The number in the integer cell of column `k`, if the cell is there and
/// not empty.
pub open spec fn opt_integer_value(
    layout: LayoutView,
    row: Seq<Seq<char>>,
    k: int,
    max: int,
) -> Option<int> {
    match layout.optional(row, k) {
        Some(cell) => Some(spec_bounded(bytes_of(cell), 0, max)->0),
        None => None,
    }
}

/// The fault of the boolean cell of the required column `k`.
pub open spec fn boolean_fault(
    layout: LayoutView,
    row: Seq<Seq<char>>,
    k: int,
) -> Option<ErrorKind> {
    invalid_if(crate::boolean::spec_de(layout.required(row, k)) is None, k, Expected::Bool)
}

/// The truth value in the boolean cell of the required column `k`.
pub open spec fn boolean_value(layout: LayoutView, row: Seq<Seq<char>>, k: int) -> bool {
    crate::boolean::spec_de(layout.required(row, k))->0
}

/// The fault of the timestamp cell of the required column `k`.
pub open spec fn timestamp_fault(
    layout: LayoutView,
    row: Seq<Seq<char>>,
    k: int,
) -> Option<ErrorKind> {
    invalid_if(
        crate::datetime::spec_de(bytes_of(layout.required(row, k))) is None,
        k,
        Expected::DateTime,
    )
}

/// The instant in the timestamp cell of the required column `k`.
pub open spec fn timestamp_value(layout: LayoutView, row: Seq<Seq<char>>, k: int) -> Moment {
    crate::datetime::spec_de(bytes_of(layout.required(row, k)))->0
}

/// The text of the cell of column `k`, if the cell is there and not empty.
pub open spec fn same_text(text: Option<String>, cell: Option<Seq<char>>) -> bool {
    match (text, cell) {
        (Some(t), Some(c)) => t@ == c,
        (None, None) => true,
        _ => false,
    }
}

/// An optional 64-bit field as a number.
pub open spec fn number64(field: Option<u64>) -> Option<int> {
    match field {
        Some(v) => Some(v as int),
        None => None,
    }
}

/// An optional 32-bit field as a number.
pub open spec fn number32(field: Option<u32>) -> Option<int> {
    match field {
        Some(v) => Some(v as int),
        None => None,
    }
}

/// An optional 16-bit field as a number.
pub open spec fn number16(field: Option<u16>) -> Option<int> {
    match field {
        Some(v) => Some(v as int),
        None => None,
    }
}

impl Layout {
    /// Decodes the unsigned cell of the required column `k`.
    pub fn unsigned(&self, row: &Vec<String>, k: usize, max: u64) -> (r: Result<u64, Error>)
        requires
            k < self@.table.spec_columns(),
            self@.table.spec_required(k as int),
            row.len() == self@.width,
        ensures
            match r {
                Ok(v) => integer_fault(self@, texts(row@), k as int, 0, max as int) is None && v
                    == integer_value(self@, texts(row@), k as int, 0, max as int) && v <= max,
                Err(e) => integer_fault(self@, texts(row@), k as int, 0, max as int) == Some(e.kind)
                    && e.table is None,
            },
    {
        at(k, crate::integer::unsigned(self.required(row, k), max))
    }

    /// Decodes the signed cell of the required column `k`.
    pub fn signed32(&self, row: &Vec<String>, k: usize) -> (r: Result<i32, Error>)
        requires
            k < self@.table.spec_columns(),
            self@.table.spec_required(k as int),
            row.len() == self@.width,
        ensures
            match r {
                Ok(v) => integer_fault(
                    self@,
                    texts(row@),
                    k as int,
                    i32::MIN as int,
                    i32::MAX as int,
                ) is None && v == integer_value(
                    self@,
                    texts(row@),
                    k as int,
                    i32::MIN as int,
                    i32::MAX as int,
                ),
                Err(e) => integer_fault(
                    self@,
                    texts(row@),
                    k as int,
                    i32::MIN as int,
                    i32::MAX as int,
                ) == Some(e.kind) && e.table is None,
            },
    {
        at(k, crate::integer::signed32(self.required(row, k)))
    }

    /// Decodes the unsigned cell of column `k`, which may be absent or empty.
    pub fn opt_unsigned(&self, row: &Vec<String>, k: usize, max: u64) -> (r: Result<
        Option<u64>,
        Error,
    >)
        requires
            k < self@.table.spec_columns(),
            row.len() == self@.width,
        ensures
            match r {
                Ok(Some(v)) => opt_integer_fault(self@, texts(row@), k as int, max as int) is None
                    && opt_integer_value(self@, texts(row@), k as int, max as int) == Some(
                    v as int,
                ) && v <= max,
                Ok(None) => opt_integer_fault(self@, texts(row@), k as int, max as int) is None
                    && opt_integer_value(self@, texts(row@), k as int, max as int) is None,
                Err(e) => opt_integer_fault(self@, texts(row@), k as int, max as int) == Some(
                    e.kind,
                ) && e.table is None,
            },
    {
        match self.optional(row, k) {
            Some(cell) => match at(k, crate::integer::unsigned(cell, max)) {
                Ok(v) => Ok(Some(v)),
                Err(e) => Err(e),
            },
            None => Ok(None),
        }
    }

    /// The text of the required column `k`.
    pub fn text(&self, row: &Vec<String>, k: usize) -> (r: String)
        requires
            k < self@.table.spec_columns(),
            self@.table.spec_required(k as int),
            row.len() == self@.width,
        ensures
            r@ == self@.required(texts(row@), k as int),
    {
        self.required(row, k).to_owned()
    }

    /// The text of column `k`, if the cell is there and not empty.
    pub fn opt_text(&self, row: &Vec<String>, k: usize) -> (r: Option<String>)
        requires
            k < self@.table.spec_columns(),
            row.len() == self@.width,
        ensures
            same_text(r, self@.optional(texts(row@), k as int)),
    {
        match self.optional(row, k) {
            Some(cell) => Some(cell.to_owned()),
            None => None,
        }
    }

    /// Decodes the boolean cell of the required column `k`.
    pub fn boolean(&self, row: &Vec<String>, k: usize) -> (r: Result<bool, Error>)
        requires
            k < self@.table.spec_columns(),
            self@.table.spec_required(k as int),
            row.len() == self@.width,
        ensures
            match r {
                Ok(v) => boolean_fault(self@, texts(row@), k as int) is None && v == boolean_value(
                    self@,
                    texts(row@),
                    k as int,
                ),
                Err(e) => boolean_fault(self@, texts(row@), k as int) == Some(e.kind)
                    && e.table is None,
            },
    {
        at(k, crate::boolean::de(self.required(row, k)))
    }

    /// Decodes the timestamp cell of the required column `k`.
    pub fn timestamp(&self, row: &Vec<String>, k: usize) -> (r: Result<DateTime, Error>)
        requires
            k < self@.table.spec_columns(),
            self@.table.spec_required(k as int),
            row.len() == self@.width,
        ensures
            match r {
                Ok(v) => timestamp_fault(self@, texts(row@), k as int) is None && v.moment()
                    == timestamp_value(self@, texts(row@), k as int),
                Err(e) => timestamp_fault(self@, texts(row@), k as int) == Some(e.kind)
                    && e.table is None,
            },
    {
        at(k, crate::datetime::de(self.required(row, k)))
    }
}

} // verus!
