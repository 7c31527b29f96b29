//! `metadata.csv`

use vstd::prelude::*;
use crate::cells::{integer_fault, integer_value};
use crate::error::{Error, ErrorKind};
use crate::record::{FromRecord, Layout, LayoutView};
use crate::table::Table;

verus! {

// Where each column stands in the schema of the table.
pub const TOTAL_DOWNLOADS: usize = 0;

/// One row of `metadata.csv`.
#[derive(Clone, Debug, Default)]
#[non_exhaustive]
pub struct Row {
    pub total_downloads: u64,
}

impl FromRecord for Row {
    open spec fn table() -> Table {
        Table::Metadata
    }

    open spec fn fault(layout: LayoutView, row: Seq<Seq<char>>) -> Option<ErrorKind> {
        integer_fault(layout, row, TOTAL_DOWNLOADS as int, 0, u64::MAX as int)
    }

    open spec fn holds(&self, layout: LayoutView, row: Seq<Seq<char>>) -> bool {
        &&& self.total_downloads == integer_value(
            layout, row, TOTAL_DOWNLOADS as int, 0, u64::MAX as int,
        )
    }

    fn source() -> (r: Table) {
        Table::Metadata
    }

    fn decode(layout: &Layout, row: &Vec<String>) -> (r: Result<Self, Error>) {
        let total_downloads = layout.unsigned(row, TOTAL_DOWNLOADS, 0xffff_ffff_ffff_ffff)?;
        Ok(Row { total_downloads })
    }
}

} // verus!
