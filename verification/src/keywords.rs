//! `keywords.csv`

use vstd::prelude::*;
use crate::cells::{integer_fault, integer_value, timestamp_fault, timestamp_value};
use crate::datetime::DateTime;
use crate::error::{Error, ErrorKind};
use crate::index::Keyed;
use crate::record::{Faults, FromRecord, Layout, LayoutView};
use crate::table::Table;
use std::cmp::Ordering;
use vstd::std_specs::cmp::{PartialEqSpecImpl, PartialOrdSpecImpl};

verus! {

/// Primary key of `keywords.csv`.
#[derive(Copy, Clone, Debug, PartialEq, Eq, Structural, PartialOrd, Ord, Hash)]
pub struct KeywordId(pub u32);

// Where each column stands in the schema of the table.
pub const ID: usize = 0;
pub const KEYWORD: usize = 1;
pub const CRATES_CNT: usize = 2;
pub const CREATED_AT: usize = 3;

/// One row of `keywords.csv`.
#[derive(Clone, Debug)]
#[non_exhaustive]
pub struct Row {
    /// PRIMARY KEY
    pub id: KeywordId,
    /// UNIQUE
    pub keyword: String,
    pub crates_cnt: u32,
    pub created_at: DateTime,
}

impl FromRecord for Row {
    open spec fn table() -> Table {
        Table::Keywords
    }

    open spec fn fault(layout: LayoutView, row: Seq<Seq<char>>) -> Option<ErrorKind> {
        integer_fault(layout, row, ID as int, 0, u32::MAX as int)
            .otherwise(integer_fault(layout, row, CRATES_CNT as int, 0, u32::MAX as int))
            .otherwise(timestamp_fault(layout, row, CREATED_AT as int))
    }

    open spec fn holds(&self, layout: LayoutView, row: Seq<Seq<char>>) -> bool {
        &&& self.id.0 == integer_value(layout, row, ID as int, 0, u32::MAX as int)
        &&& self.keyword@ == layout.required(row, KEYWORD as int)
        &&& self.crates_cnt == integer_value(layout, row, CRATES_CNT as int, 0, u32::MAX as int)
        &&& self.created_at.moment() == timestamp_value(layout, row, CREATED_AT as int)
    }

    fn source() -> (r: Table) {
        Table::Keywords
    }

    #[verifier::rlimit(60)]
    fn decode(layout: &Layout, row: &Vec<String>) -> (r: Result<Self, Error>) {
        let id = KeywordId(layout.unsigned(row, ID, 0xffff_ffff)? as u32);
        let keyword = layout.text(row, KEYWORD);
        let crates_cnt = layout.unsigned(row, CRATES_CNT, 0xffff_ffff)? as u32;
        let created_at = layout.timestamp(row, CREATED_AT)?;
        Ok(Row { id, keyword, crates_cnt, created_at })
    }
}

impl Keyed for Row {
    open spec fn key(&self) -> u32 {
        self.id.0
    }

    fn key_number(&self) -> (r: u32) {
        self.id.0
    }
}

/// Rows are told apart by their primary key.
impl PartialEq for Row {
    fn eq(&self, other: &Self) -> (r: bool) {
        self.id.0 == other.id.0
    }
}

impl PartialEqSpecImpl for Row {
    open spec fn obeys_eq_spec() -> bool {
        true
    }

    open spec fn eq_spec(&self, other: &Self) -> bool {
        self.id.0 == other.id.0
    }
}

impl Eq for Row {
}

/// Rows are ordered by their primary key.
impl PartialOrd for Row {
    fn partial_cmp(&self, other: &Self) -> (r: Option<Ordering>) {
        if self.id.0 < other.id.0 {
            Some(Ordering::Less)
        } else if self.id.0 == other.id.0 {
            Some(Ordering::Equal)
        } else {
            Some(Ordering::Greater)
        }
    }
}

impl PartialOrdSpecImpl for Row {
    open spec fn obeys_partial_cmp_spec() -> bool {
        true
    }

    open spec fn partial_cmp_spec(&self, other: &Self) -> Option<Ordering> {
        if self.id.0 < other.id.0 {
            Some(Ordering::Less)
        } else if self.id.0 == other.id.0 {
            Some(Ordering::Equal)
        } else {
            Some(Ordering::Greater)
        }
    }
}

} // verus!
