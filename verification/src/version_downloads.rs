//! `version_downloads.csv`

use vstd::prelude::*;
use crate::cells::{integer_fault, integer_value};
use crate::date::Date;
use crate::error::{Error, ErrorKind};
use crate::record::{at, Faults, FromRecord, Layout, LayoutView};
use crate::table::Table;
use crate::text::bytes_of;
use crate::versions::VersionId;

verus! {

// Where each column stands in the schema of the table.
pub const VERSION_ID: usize = 0;
pub const DOWNLOADS: usize = 1;
pub const DATE: usize = 2;

/// One row of `version_downloads.csv`.
#[derive(Clone, Debug)]
#[non_exhaustive]
pub struct Row {
    pub version_id: VersionId,
    pub downloads: u64,
    pub date: Date,
}

impl FromRecord for Row {
    open spec fn table() -> Table {
        Table::VersionDownloads
    }

    open spec fn fault(layout: LayoutView, row: Seq<Seq<char>>) -> Option<ErrorKind> {
        integer_fault(layout, row, VERSION_ID as int, 0, u32::MAX as int)
            .otherwise(integer_fault(layout, row, DOWNLOADS as int, 0, u64::MAX as int))
            .otherwise(crate::date::fault(layout.required(row, DATE as int), DATE as int))
    }

    open spec fn holds(&self, layout: LayoutView, row: Seq<Seq<char>>) -> bool {
        &&& self.version_id.0 == integer_value(layout, row, VERSION_ID as int, 0, u32::MAX as int)
        &&& self.downloads == integer_value(layout, row, DOWNLOADS as int, 0, u64::MAX as int)
        &&& crate::date::spec_de(bytes_of(layout.required(row, DATE as int))) == Some(
            (self.date.spec_year(), self.date.spec_month(), self.date.spec_day()),
        )
    }

    fn source() -> (r: Table) {
        Table::VersionDownloads
    }

    #[verifier::rlimit(60)]
    fn decode(layout: &Layout, row: &Vec<String>) -> (r: Result<Self, Error>) {
        let version_id = VersionId(layout.unsigned(row, VERSION_ID, 0xffff_ffff)? as u32);
        let downloads = layout.unsigned(row, DOWNLOADS, 0xffff_ffff_ffff_ffff)?;
        let date = at(DATE, crate::date::de(layout.required(row, DATE)))?;
        Ok(Row { version_id, downloads, date })
    }
}

} // verus!
