//! `version_authors.csv`

use vstd::prelude::*;
use crate::cells::{integer_fault, integer_value};
use crate::error::{Error, ErrorKind};
use crate::record::{Faults, FromRecord, Layout, LayoutView};
use crate::table::Table;
use crate::versions::VersionId;

verus! {

// Where each column stands in the schema of the table.
pub const ID: usize = 0;
pub const VERSION_ID: usize = 1;
pub const NAME: usize = 2;

/// One row of `version_authors.csv`.
#[derive(Clone, Debug)]
#[non_exhaustive]
pub struct Row {
    /// PRIMARY KEY
    pub id: u32,
    pub version_id: VersionId,
    pub name: String,
}

impl FromRecord for Row {
    open spec fn table() -> Table {
        Table::VersionAuthors
    }

    open spec fn fault(layout: LayoutView, row: Seq<Seq<char>>) -> Option<ErrorKind> {
        integer_fault(layout, row, ID as int, 0, u32::MAX as int)
            .otherwise(integer_fault(layout, row, VERSION_ID as int, 0, u32::MAX as int))
    }

    open spec fn holds(&self, layout: LayoutView, row: Seq<Seq<char>>) -> bool {
        &&& self.id == integer_value(layout, row, ID as int, 0, u32::MAX as int)
        &&& self.version_id.0 == integer_value(layout, row, VERSION_ID as int, 0, u32::MAX as int)
        &&& self.name@ == layout.required(row, NAME as int)
    }

    fn source() -> (r: Table) {
        Table::VersionAuthors
    }

    fn decode(layout: &Layout, row: &Vec<String>) -> (r: Result<Self, Error>) {
        let id = layout.unsigned(row, ID, 0xffff_ffff)? as u32;
        let version_id = VersionId(layout.unsigned(row, VERSION_ID, 0xffff_ffff)? as u32);
        let name = layout.text(row, NAME);
        Ok(Row { id, version_id, name })
    }
}

} // verus!
