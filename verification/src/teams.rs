//! `teams.csv`

use vstd::prelude::*;
use crate::cells::{integer_fault, integer_value, number32, opt_integer_fault, opt_integer_value};
use crate::error::{Error, ErrorKind};
use crate::index::Keyed;
use crate::record::{Faults, FromRecord, Layout, LayoutView};
use crate::table::Table;
use std::cmp::Ordering;
use vstd::std_specs::cmp::{PartialEqSpecImpl, PartialOrdSpecImpl};

verus! {

/// Primary key of `teams.csv`.
#[derive(Copy, Clone, Debug, PartialEq, Eq, Structural, PartialOrd, Ord, Hash)]
pub struct TeamId(pub u32);

// Where each column stands in the schema of the table.
pub const ID: usize = 0;
pub const LOGIN: usize = 1;
pub const GITHUB_ID: usize = 2;
pub const NAME: usize = 3;
pub const AVATAR: usize = 4;
pub const ORG_ID: usize = 5;

/// One row of `teams.csv`.
#[derive(Clone, Debug)]
#[non_exhaustive]
pub struct Row {
    /// PRIMARY KEY
    pub id: TeamId,
    /// UNIQUE
    pub login: String,
    /// UNIQUE
    pub github_id: u32,
    pub name: String,
    pub avatar: String,
    pub org_id: Option<u32>,
}

impl FromRecord for Row {
    open spec fn table() -> Table {
        Table::Teams
    }

    open spec fn fault(layout: LayoutView, row: Seq<Seq<char>>) -> Option<ErrorKind> {
        integer_fault(layout, row, ID as int, 0, u32::MAX as int)
            .otherwise(integer_fault(layout, row, GITHUB_ID as int, 0, u32::MAX as int))
            .otherwise(opt_integer_fault(layout, row, ORG_ID as int, u32::MAX as int))
    }

    open spec fn holds(&self, layout: LayoutView, row: Seq<Seq<char>>) -> bool {
        &&& self.id.0 == integer_value(layout, row, ID as int, 0, u32::MAX as int)
        &&& self.login@ == layout.required(row, LOGIN as int)
        &&& self.github_id == integer_value(layout, row, GITHUB_ID as int, 0, u32::MAX as int)
        &&& self.name@ == layout.required(row, NAME as int)
        &&& self.avatar@ == layout.required(row, AVATAR as int)
        &&& number32(self.org_id) == opt_integer_value(layout, row, ORG_ID as int, u32::MAX as int)
    }

    fn source() -> (r: Table) {
        Table::Teams
    }

    #[verifier::rlimit(60)]
    fn decode(layout: &Layout, row: &Vec<String>) -> (r: Result<Self, Error>) {
        let id = TeamId(layout.unsigned(row, ID, 0xffff_ffff)? as u32);
        let login = layout.text(row, LOGIN);
        let github_id = layout.unsigned(row, GITHUB_ID, 0xffff_ffff)? as u32;
        let name = layout.text(row, NAME);
        let avatar = layout.text(row, AVATAR);
        let org_id = match layout.opt_unsigned(row, ORG_ID, 0xffff_ffff)? {
            Some(v) => Some(v as u32),
            None => None,
        };
        Ok(Row { id, login, github_id, name, avatar, org_id })
    }
}

impl Keyed for Row {
    open spec fn key(&self) -> u32 {
        self.id.0
    }

    fn key_number(&self) -> (r: u32) {
        self.id.0
    }
}

/// Rows are told apart by their primary key.
impl PartialEq for Row {
    fn eq(&self, other: &Self) -> (r: bool) {
        self.id.0 == other.id.0
    }
}

impl PartialEqSpecImpl for Row {
    open spec fn obeys_eq_spec() -> bool {
        true
    }

    open spec fn eq_spec(&self, other: &Self) -> bool {
        self.id.0 == other.id.0
    }
}

impl Eq for Row {
}

/// Rows are ordered by their primary key.
impl PartialOrd for Row {
    fn partial_cmp(&self, other: &Self) -> (r: Option<Ordering>) {
        if self.id.0 < other.id.0 {
            Some(Ordering::Less)
        } else if self.id.0 == other.id.0 {
            Some(Ordering::Equal)
        } else {
            Some(Ordering::Greater)
        }
    }
}

impl PartialOrdSpecImpl for Row {
    open spec fn obeys_partial_cmp_spec() -> bool {
        true
    }

    open spec fn partial_cmp_spec(&self, other: &Self) -> Option<Ordering> {
        if self.id.0 < other.id.0 {
            Some(Ordering::Less)
        } else if self.id.0 == other.id.0 {
            Some(Ordering::Equal)
        } else {
            Some(Ordering::Greater)
        }
    }
}

} // verus!
