//! `default_versions.csv`

use vstd::prelude::*;
use crate::cells::{integer_fault, integer_value};
use crate::crates::CrateId;
use crate::error::{Error, ErrorKind};
use crate::record::{Faults, FromRecord, Layout, LayoutView};
use crate::table::Table;
use crate::versions::VersionId;

verus! {

// Where each column stands in the schema of the table.
pub const CRATE_ID: usize = 0;
pub const VERSION_ID: usize = 1;

/// One row of `default_versions.csv`.
#[derive(Clone, Debug)]
#[non_exhaustive]
pub struct Row {
    pub crate_id: CrateId,
    pub version_id: VersionId,
}

impl FromRecord for Row {
    open spec fn table() -> Table {
        Table::DefaultVersions
    }

    open spec fn fault(layout: LayoutView, row: Seq<Seq<char>>) -> Option<ErrorKind> {
        integer_fault(layout, row, CRATE_ID as int, 0, u32::MAX as int)
            .otherwise(integer_fault(layout, row, VERSION_ID as int, 0, u32::MAX as int))
    }

    open spec fn holds(&self, layout: LayoutView, row: Seq<Seq<char>>) -> bool {
        &&& self.crate_id.0 == integer_value(layout, row, CRATE_ID as int, 0, u32::MAX as int)
        &&& self.version_id.0 == integer_value(layout, row, VERSION_ID as int, 0, u32::MAX as int)
    }

    fn source() -> (r: Table) {
        Table::DefaultVersions
    }

    fn decode(layout: &Layout, row: &Vec<String>) -> (r: Result<Self, Error>) {
        let crate_id = CrateId(layout.unsigned(row, CRATE_ID, 0xffff_ffff)? as u32);
        let version_id = VersionId(layout.unsigned(row, VERSION_ID, 0xffff_ffff)? as u32);
        Ok(Row { crate_id, version_id })
    }
}

} // verus!
