//! `crate_downloads.csv`

use vstd::prelude::*;
use crate::cells::{integer_fault, integer_value};
use crate::crates::CrateId;
use crate::error::{Error, ErrorKind};
use crate::record::{Faults, FromRecord, Layout, LayoutView};
use crate::table::Table;

verus! {

// Where each column stands in the schema of the table.
pub const CRATE_ID: usize = 0;
pub const DOWNLOADS: usize = 1;

/// One row of `crate_downloads.csv`.
#[derive(Clone, Debug)]
#[non_exhaustive]
pub struct Row {
    pub crate_id: CrateId,
    pub downloads: u64,
}

impl FromRecord for Row {
    open spec fn table() -> Table {
        Table::CrateDownloads
    }

    open spec fn fault(layout: LayoutView, row: Seq<Seq<char>>) -> Option<ErrorKind> {
        integer_fault(layout, row, CRATE_ID as int, 0, u32::MAX as int)
            .otherwise(integer_fault(layout, row, DOWNLOADS as int, 0, u64::MAX as int))
    }

    open spec fn holds(&self, layout: LayoutView, row: Seq<Seq<char>>) -> bool {
        &&& self.crate_id.0 == integer_value(layout, row, CRATE_ID as int, 0, u32::MAX as int)
        &&& self.downloads == integer_value(layout, row, DOWNLOADS as int, 0, u64::MAX as int)
    }

    fn source() -> (r: Table) {
        Table::CrateDownloads
    }

    fn decode(layout: &Layout, row: &Vec<String>) -> (r: Result<Self, Error>) {
        let crate_id = CrateId(layout.unsigned(row, CRATE_ID, 0xffff_ffff)? as u32);
        let downloads = layout.unsigned(row, DOWNLOADS, 0xffff_ffff_ffff_ffff)?;
        Ok(Row { crate_id, downloads })
    }
}

} // verus!
