//! `categories.csv`

use vstd::prelude::*;
use crate::cells::{integer_fault, integer_value, timestamp_fault, timestamp_value};
use crate::datetime::DateTime;
use crate::error::{Error, ErrorKind};
use crate::index::Keyed;
use crate::record::{Faults, FromRecord, Layout, LayoutView};
use crate::table::Table;
use std::cmp::Ordering;
use vstd::std_specs::cmp::{PartialEqSpecImpl, PartialOrdSpecImpl};

verus! {

/// Primary key of `categories.csv`.
#[derive(Copy, Clone, Debug, PartialEq, Eq, Structural, PartialOrd, Ord, Hash)]
pub struct CategoryId(pub u32);

// Where each column stands in the schema of the table.
pub const ID: usize = 0;
pub const CATEGORY: usize = 1;
pub const SLUG: usize = 2;
pub const DESCRIPTION: usize = 3;
pub const CRATES_CNT: usize = 4;
pub const CREATED_AT: usize = 5;
pub const PATH: usize = 6;

/// One row of `categories.csv`.
#[derive(Clone, Debug)]
#[non_exhaustive]
pub struct Row {
    /// PRIMARY KEY
    pub id: CategoryId,
    /// UNIQUE
    pub category: String,
    /// UNIQUE
    pub slug: String,
    pub description: String,
    pub crates_cnt: u32,
    pub created_at: DateTime,
    pub path: String,
}

impl FromRecord for Row {
    open spec fn table() -> Table {
        Table::Categories
    }

    open spec fn fault(layout: LayoutView, row: Seq<Seq<char>>) -> Option<ErrorKind> {
        integer_fault(layout, row, ID as int, 0, u32::MAX as int)
            .otherwise(integer_fault(layout, row, CRATES_CNT as int, 0, u32::MAX as int))
            .otherwise(timestamp_fault(layout, row, CREATED_AT as int))
    }

    open spec fn holds(&self, layout: LayoutView, row: Seq<Seq<char>>) -> bool {
        &&& self.id.0 == integer_value(layout, row, ID as int, 0, u32::MAX as int)
        &&& self.category@ == layout.required(row, CATEGORY as int)
        &&& self.slug@ == layout.required(row, SLUG as int)
        &&& self.description@ == layout.required(row, DESCRIPTION as int)
        &&& self.crates_cnt == integer_value(layout, row, CRATES_CNT as int, 0, u32::MAX as int)
        &&& self.created_at.moment() == timestamp_value(layout, row, CREATED_AT as int)
        &&& self.path@ == layout.required(row, PATH as int)
    }

    fn source() -> (r: Table) {
        Table::Categories
    }

    #[verifier::rlimit(60)]
    fn decode(layout: &Layout, row: &Vec<String>) -> (r: Result<Self, Error>) {
        let id = CategoryId(layout.unsigned(row, ID, 0xffff_ffff)? as u32);
        let category = layout.text(row, CATEGORY);
        let slug = layout.text(row, SLUG);
        let description = layout.text(row, DESCRIPTION);
        let crates_cnt = layout.unsigned(row, CRATES_CNT, 0xffff_ffff)? as u32;
        let created_at = layout.timestamp(row, CREATED_AT)?;
        let path = layout.text(row, PATH);
        Ok(Row { id, category, slug, description, crates_cnt, created_at, path })
    }
}

impl Keyed for Row {
    open spec fn key(&self) -> u32 {
        self.id.0
    }

    fn key_number(&self) -> (r: u32) {
        self.id.0
    }
}

/// Rows are told apart by their primary key.
impl PartialEq for Row {
    fn eq(&self, other: &Self) -> (r: bool) {
        self.id.0 == other.id.0
    }
}

impl PartialEqSpecImpl for Row {
    open spec fn obeys_eq_spec() -> bool {
        true
    }

    open spec fn eq_spec(&self, other: &Self) -> bool {
        self.id.0 == other.id.0
    }
}

impl Eq for Row {
}

/// Rows are ordered by their primary key.
impl PartialOrd for Row {
    fn partial_cmp(&self, other: &Self) -> (r: Option<Ordering>) {
        if self.id.0 < other.id.0 {
            Some(Ordering::Less)
        } else if self.id.0 == other.id.0 {
            Some(Ordering::Equal)
        } else {
            Some(Ordering::Greater)
        }
    }
}

impl PartialOrdSpecImpl for Row {
    open spec fn obeys_partial_cmp_spec() -> bool {
        true
    }

    open spec fn partial_cmp_spec(&self, other: &Self) -> Option<Ordering> {
        if self.id.0 < other.id.0 {
            Some(Ordering::Less)
        } else if self.id.0 == other.id.0 {
            Some(Ordering::Equal)
        } else {
            Some(Ordering::Greater)
        }
    }
}

} // verus!
