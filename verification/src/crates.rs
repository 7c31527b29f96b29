//! `crates.csv`

use vstd::prelude::*;
use crate::cells::{
    integer_fault, integer_value, number16, number64, opt_integer_fault, opt_integer_value,
    same_text, timestamp_fault, timestamp_value,
};
use crate::datetime::DateTime;
use crate::error::{Error, ErrorKind};
use crate::index::Keyed;
use crate::record::{Faults, FromRecord, Layout, LayoutView};
use crate::table::Table;
use std::cmp::Ordering;
use vstd::std_specs::cmp::{PartialEqSpecImpl, PartialOrdSpecImpl};

verus! {

/// Primary key of `crates.csv`.
#[derive(Copy, Clone, Debug, PartialEq, Eq, Structural, PartialOrd, Ord, Hash)]
pub struct CrateId(pub u32);

// Where each column stands in the schema of the table.
pub const ID: usize = 0;
pub const NAME: usize = 1;
pub const UPDATED_AT: usize = 2;
pub const CREATED_AT: usize = 3;
pub const DESCRIPTION: usize = 4;
pub const HOMEPAGE: usize = 5;
pub const DOCUMENTATION: usize = 6;
pub const README: usize = 7;
pub const REPOSITORY: usize = 8;
pub const MAX_UPLOAD_SIZE: usize = 9;
pub const MAX_FEATURES: usize = 10;

/// One row of `crates.csv`.
#[derive(Clone, Debug)]
#[non_exhaustive]
pub struct Row {
    /// PRIMARY KEY
    pub id: CrateId,
    pub name: String,
    pub updated_at: DateTime,
    pub created_at: DateTime,
    pub description: String,
    pub homepage: Option<String>,
    pub documentation: Option<String>,
    pub readme: Option<String>,
    pub repository: Option<String>,
    pub max_upload_size: Option<u64>,
    pub max_features: Option<u16>,
}

impl FromRecord for Row {
    open spec fn table() -> Table {
        Table::Crates
    }

    open spec fn fault(layout: LayoutView, row: Seq<Seq<char>>) -> Option<ErrorKind> {
        integer_fault(layout, row, ID as int, 0, u32::MAX as int)
            .otherwise(timestamp_fault(layout, row, UPDATED_AT as int))
            .otherwise(timestamp_fault(layout, row, CREATED_AT as int))
            .otherwise(opt_integer_fault(layout, row, MAX_UPLOAD_SIZE as int, u64::MAX as int))
            .otherwise(opt_integer_fault(layout, row, MAX_FEATURES as int, u16::MAX as int))
    }

    open spec fn holds(&self, layout: LayoutView, row: Seq<Seq<char>>) -> bool {
        &&& self.id.0 == integer_value(layout, row, ID as int, 0, u32::MAX as int)
        &&& self.name@ == layout.required(row, NAME as int)
        &&& self.updated_at.moment() == timestamp_value(layout, row, UPDATED_AT as int)
        &&& self.created_at.moment() == timestamp_value(layout, row, CREATED_AT as int)
        &&& self.description@ == layout.required(row, DESCRIPTION as int)
        &&& same_text(self.homepage, layout.optional(row, HOMEPAGE as int))
        &&& same_text(self.documentation, layout.optional(row, DOCUMENTATION as int))
        &&& same_text(self.readme, layout.optional(row, README as int))
        &&& same_text(self.repository, layout.optional(row, REPOSITORY as int))
        &&& number64(self.max_upload_size) == opt_integer_value(
            layout, row, MAX_UPLOAD_SIZE as int, u64::MAX as int,
        )
        &&& number16(self.max_features) == opt_integer_value(
            layout, row, MAX_FEATURES as int, u16::MAX as int,
        )
    }

    fn source() -> (r: Table) {
        Table::Crates
    }

    #[verifier::rlimit(60)]
    fn decode(layout: &Layout, row: &Vec<String>) -> (r: Result<Self, Error>) {
        let id = CrateId(layout.unsigned(row, ID, 0xffff_ffff)? as u32);
        let name = layout.text(row, NAME);
        let updated_at = layout.timestamp(row, UPDATED_AT)?;
        let created_at = layout.timestamp(row, CREATED_AT)?;
        let description = layout.text(row, DESCRIPTION);
        let homepage = layout.opt_text(row, HOMEPAGE);
        let documentation = layout.opt_text(row, DOCUMENTATION);
        let readme = layout.opt_text(row, README);
        let repository = layout.opt_text(row, REPOSITORY);
        let max_upload_size = layout.opt_unsigned(row, MAX_UPLOAD_SIZE, 0xffff_ffff_ffff_ffff)?;
        let max_features = match layout.opt_unsigned(row, MAX_FEATURES, 0xffff)? {
            Some(v) => Some(v as u16),
            None => None,
        };
        Ok(
            Row {
                id,
                name,
                updated_at,
                created_at,
                description,
                homepage,
                documentation,
                readme,
                repository,
                max_upload_size,
                max_features,
            }
        )
    }
}

impl Keyed for Row {
    open spec fn key(&self) -> u32 {
        self.id.0
    }

    fn key_number(&self) -> (r: u32) {
        self.id.0
    }
}

/// Rows are told apart by their primary key.
impl PartialEq for Row {
    fn eq(&self, other: &Self) -> (r: bool) {
        self.id.0 == other.id.0
    }
}

impl PartialEqSpecImpl for Row {
    open spec fn obeys_eq_spec() -> bool {
        true
    }

    open spec fn eq_spec(&self, other: &Self) -> bool {
        self.id.0 == other.id.0
    }
}

impl Eq for Row {
}

/// Rows are ordered by their primary key.
impl PartialOrd for Row {
    fn partial_cmp(&self, other: &Self) -> (r: Option<Ordering>) {
        if self.id.0 < other.id.0 {
            Some(Ordering::Less)
        } else if self.id.0 == other.id.0 {
            Some(Ordering::Equal)
        } else {
            Some(Ordering::Greater)
        }
    }
}

impl PartialOrdSpecImpl for Row {
    open spec fn obeys_partial_cmp_spec() -> bool {
        true
    }

    open spec fn partial_cmp_spec(&self, other: &Self) -> Option<Ordering> {
        if self.id.0 < other.id.0 {
            Some(Ordering::Less)
        } else if self.id.0 == other.id.0 {
            Some(Ordering::Equal)
        } else {
            Some(Ordering::Greater)
        }
    }
}

} // verus!
