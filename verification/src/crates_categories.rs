//! `crates_categories.csv`

use vstd::prelude::*;
use crate::categories::CategoryId;
use crate::cells::{integer_fault, integer_value};
use crate::crates::CrateId;
use crate::error::{Error, ErrorKind};
use crate::record::{Faults, FromRecord, Layout, LayoutView};
use crate::table::Table;

verus! {

// Where each column stands in the schema of the table.
pub const CRATE_ID: usize = 0;
pub const CATEGORY_ID: usize = 1;

/// One row of `crates_categories.csv`.
#[derive(Clone, Debug)]
#[non_exhaustive]
pub struct Row {
    pub crate_id: CrateId,
    pub category_id: CategoryId,
}

impl FromRecord for Row {
    open spec fn table() -> Table {
        Table::CratesCategories
    }

    open spec fn fault(layout: LayoutView, row: Seq<Seq<char>>) -> Option<ErrorKind> {
        integer_fault(layout, row, CRATE_ID as int, 0, u32::MAX as int)
            .otherwise(integer_fault(layout, row, CATEGORY_ID as int, 0, u32::MAX as int))
    }

    open spec fn holds(&self, layout: LayoutView, row: Seq<Seq<char>>) -> bool {
        &&& self.crate_id.0 == integer_value(layout, row, CRATE_ID as int, 0, u32::MAX as int)
        &&& self.category_id.0 == integer_value(layout, row, CATEGORY_ID as int, 0, u32::MAX as int)
    }

    fn source() -> (r: Table) {
        Table::CratesCategories
    }

    fn decode(layout: &Layout, row: &Vec<String>) -> (r: Result<Self, Error>) {
        let crate_id = CrateId(layout.unsigned(row, CRATE_ID, 0xffff_ffff)? as u32);
        let category_id = CategoryId(layout.unsigned(row, CATEGORY_ID, 0xffff_ffff)? as u32);
        Ok(Row { crate_id, category_id })
    }
}

} // verus!
