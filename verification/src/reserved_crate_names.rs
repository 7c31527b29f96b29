//! `reserved_crate_names.csv`

use vstd::prelude::*;
use crate::error::{Error, ErrorKind};
use crate::record::{FromRecord, Layout, LayoutView};
use crate::table::Table;

verus! {

// Where each column stands in the schema of the table.
pub const NAME: usize = 0;

/// One row of `reserved_crate_names.csv`.
#[derive(Clone, Debug)]
#[non_exhaustive]
pub struct Row {
    /// PRIMARY KEY
    pub name: String,
}

impl FromRecord for Row {
    open spec fn table() -> Table {
        Table::ReservedCrateNames
    }

    open spec fn fault(layout: LayoutView, row: Seq<Seq<char>>) -> Option<ErrorKind> {
        None
    }

    open spec fn holds(&self, layout: LayoutView, row: Seq<Seq<char>>) -> bool {
        &&& self.name@ == layout.required(row, NAME as int)
    }

    fn source() -> (r: Table) {
        Table::ReservedCrateNames
    }

    fn decode(layout: &Layout, row: &Vec<String>) -> (r: Result<Self, Error>) {
        let name = layout.text(row, NAME);
        Ok(Row { name })
    }
}

} // verus!
