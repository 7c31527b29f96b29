//! `crates_keywords.csv`

use vstd::prelude::*;
use crate::cells::{integer_fault, integer_value};
use crate::crates::CrateId;
use crate::error::{Error, ErrorKind};
use crate::keywords::KeywordId;
use crate::record::{Faults, FromRecord, Layout, LayoutView};
use crate::table::Table;

verus! {

// Where each column stands in the schema of the table.
pub const CRATE_ID: usize = 0;
pub const KEYWORD_ID: usize = 1;

/// One row of `crates_keywords.csv`.
#[derive(Clone, Debug)]
#[non_exhaustive]
pub struct Row {
    pub crate_id: CrateId,
    pub keyword_id: KeywordId,
}

impl FromRecord for Row {
    open spec fn table() -> Table {
        Table::CratesKeywords
    }

    open spec fn fault(layout: LayoutView, row: Seq<Seq<char>>) -> Option<ErrorKind> {
        integer_fault(layout, row, CRATE_ID as int, 0, u32::MAX as int)
            .otherwise(integer_fault(layout, row, KEYWORD_ID as int, 0, u32::MAX as int))
    }

    open spec fn holds(&self, layout: LayoutView, row: Seq<Seq<char>>) -> bool {
        &&& self.crate_id.0 == integer_value(layout, row, CRATE_ID as int, 0, u32::MAX as int)
        &&& self.keyword_id.0 == integer_value(layout, row, KEYWORD_ID as int, 0, u32::MAX as int)
    }

    fn source() -> (r: Table) {
        Table::CratesKeywords
    }

    fn decode(layout: &Layout, row: &Vec<String>) -> (r: Result<Self, Error>) {
        let crate_id = CrateId(layout.unsigned(row, CRATE_ID, 0xffff_ffff)? as u32);
        let keyword_id = KeywordId(layout.unsigned(row, KEYWORD_ID, 0xffff_ffff)? as u32);
        Ok(Row { crate_id, keyword_id })
    }
}

} // verus!
