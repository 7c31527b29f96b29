//! `deleted_crates.csv`

use vstd::prelude::*;
use crate::cells::{
    integer_fault, integer_value, opt_integer_fault, opt_integer_value, timestamp_fault,
    timestamp_value,
};
use crate::datetime::DateTime;
use crate::error::{Error, ErrorKind};
use crate::record::{Faults, FromRecord, Layout, LayoutView};
use crate::table::Table;
use crate::users::UserId;

verus! {

/// Primary key of `deleted_crates.csv`.
#[derive(Copy, Clone, Debug, PartialEq, Eq, Structural, PartialOrd, Ord, Hash)]
pub struct DeletedCrateId(pub u32);

// Where each column stands in the schema of the table.
pub const ID: usize = 0;
pub const NAME: usize = 1;
pub const CREATED_AT: usize = 2;
pub const DELETED_AT: usize = 3;
pub const DELETED_BY: usize = 4;
pub const MESSAGE: usize = 5;
pub const AVAILABLE_AT: usize = 6;

/// One row of `deleted_crates.csv`.
#[derive(Clone, Debug)]
#[non_exhaustive]
pub struct Row {
    /// PRIMARY KEY
    pub id: DeletedCrateId,
    pub name: String,
    pub created_at: DateTime,
    pub deleted_at: DateTime,
    pub deleted_by: Option<UserId>,
    pub message: String,
    pub available_at: DateTime,
}

impl FromRecord for Row {
    open spec fn table() -> Table {
        Table::DeletedCrates
    }

    open spec fn fault(layout: LayoutView, row: Seq<Seq<char>>) -> Option<ErrorKind> {
        integer_fault(layout, row, ID as int, 0, u32::MAX as int)
            .otherwise(timestamp_fault(layout, row, CREATED_AT as int))
            .otherwise(timestamp_fault(layout, row, DELETED_AT as int))
            .otherwise(opt_integer_fault(layout, row, DELETED_BY as int, u32::MAX as int))
            .otherwise(timestamp_fault(layout, row, AVAILABLE_AT as int))
    }

    open spec fn holds(&self, layout: LayoutView, row: Seq<Seq<char>>) -> bool {
        &&& self.id.0 == integer_value(layout, row, ID as int, 0, u32::MAX as int)
        &&& self.name@ == layout.required(row, NAME as int)
        &&& self.created_at.moment() == timestamp_value(layout, row, CREATED_AT as int)
        &&& self.deleted_at.moment() == timestamp_value(layout, row, DELETED_AT as int)
        &&& (match self.deleted_by {
                Some(id) => Some(id.0 as int),
                None => None,
            }) == opt_integer_value(layout, row, DELETED_BY as int, u32::MAX as int)
        &&& self.message@ == layout.required(row, MESSAGE as int)
        &&& self.available_at.moment() == timestamp_value(layout, row, AVAILABLE_AT as int)
    }

    fn source() -> (r: Table) {
        Table::DeletedCrates
    }

    #[verifier::rlimit(60)]
    fn decode(layout: &Layout, row: &Vec<String>) -> (r: Result<Self, Error>) {
        let id = DeletedCrateId(layout.unsigned(row, ID, 0xffff_ffff)? as u32);
        let name = layout.text(row, NAME);
        let created_at = layout.timestamp(row, CREATED_AT)?;
        let deleted_at = layout.timestamp(row, DELETED_AT)?;
        let deleted_by = match layout.opt_unsigned(row, DELETED_BY, 0xffff_ffff)? {
            Some(v) => Some(UserId(v as u32)),
            None => None,
        };
        let message = layout.text(row, MESSAGE);
        let available_at = layout.timestamp(row, AVAILABLE_AT)?;
        Ok(Row { id, name, created_at, deleted_at, deleted_by, message, available_at })
    }
}

} // verus!
