//! `users.csv`

use vstd::prelude::*;
use crate::cells::{integer_fault, integer_value, same_text};
use crate::error::{Error, ErrorKind};
use crate::index::Keyed;
use crate::record::{Faults, FromRecord, Layout, LayoutView};
use crate::table::Table;
use std::cmp::Ordering;
use vstd::std_specs::cmp::{PartialEqSpecImpl, PartialOrdSpecImpl};

verus! {

/// Primary key of `users.csv`.
#[derive(Copy, Clone, Debug, PartialEq, Eq, Structural, PartialOrd, Ord, Hash)]
pub struct UserId(pub u32);

// Where each column stands in the schema of the table.
pub const ID: usize = 0;
pub const GH_LOGIN: usize = 1;
pub const NAME: usize = 2;
pub const GH_AVATAR: usize = 3;
pub const GH_ID: usize = 4;

/// One row of `users.csv`.
#[derive(Clone, Debug)]
#[non_exhaustive]
pub struct Row {
    /// PRIMARY KEY
    pub id: UserId,
    pub gh_login: String,
    pub name: Option<String>,
    pub gh_avatar: String,
    pub gh_id: i32,
}

impl FromRecord for Row {
    open spec fn table() -> Table {
        Table::Users
    }

    open spec fn fault(layout: LayoutView, row: Seq<Seq<char>>) -> Option<ErrorKind> {
        integer_fault(layout, row, ID as int, 0, u32::MAX as int)
            .otherwise(integer_fault(layout, row, GH_ID as int, i32::MIN as int, i32::MAX as int))
    }

    open spec fn holds(&self, layout: LayoutView, row: Seq<Seq<char>>) -> bool {
        &&& self.id.0 == integer_value(layout, row, ID as int, 0, u32::MAX as int)
        &&& self.gh_login@ == layout.required(row, GH_LOGIN as int)
        &&& same_text(self.name, layout.optional(row, NAME as int))
        &&& self.gh_avatar@ == layout.required(row, GH_AVATAR as int)
        &&& self.gh_id == integer_value(layout, row, GH_ID as int, i32::MIN as int, i32::MAX as int)
    }

    fn source() -> (r: Table) {
        Table::Users
    }

    fn decode(layout: &Layout, row: &Vec<String>) -> (r: Result<Self, Error>) {
        let id = UserId(layout.unsigned(row, ID, 0xffff_ffff)? as u32);
        let gh_login = layout.text(row, GH_LOGIN);
        let name = layout.opt_text(row, NAME);
        let gh_avatar = layout.text(row, GH_AVATAR);
        let gh_id = layout.signed32(row, GH_ID)?;
        Ok(Row { id, gh_login, name, gh_avatar, gh_id })
    }
}

impl Keyed for Row {
    open spec fn key(&self) -> u32 {
        self.id.0
    }

    fn key_number(&self) -> (r: u32) {
        self.id.0
    }
}

/// Rows are told apart by their primary key.
impl PartialEq for Row {
    fn eq(&self, other: &Self) -> (r: bool) {
        self.id.0 == other.id.0
    }
}

impl PartialEqSpecImpl for Row {
    open spec fn obeys_eq_spec() -> bool {
        true
    }

    open spec fn eq_spec(&self, other: &Self) -> bool {
        self.id.0 == other.id.0
    }
}

impl Eq for Row {
}

/// Rows are ordered by their primary key.
impl PartialOrd for Row {
    fn partial_cmp(&self, other: &Self) -> (r: Option<Ordering>) {
        if self.id.0 < other.id.0 {
            Some(Ordering::Less)
        } else if self.id.0 == other.id.0 {
            Some(Ordering::Equal)
        } else {
            Some(Ordering::Greater)
        }
    }
}

impl PartialOrdSpecImpl for Row {
    open spec fn obeys_partial_cmp_spec() -> bool {
        true
    }

    open spec fn partial_cmp_spec(&self, other: &Self) -> Option<Ordering> {
        if self.id.0 < other.id.0 {
            Some(Ordering::Less)
        } else if self.id.0 == other.id.0 {
            Some(Ordering::Equal)
        } else {
            Some(Ordering::Greater)
        }
    }
}

} // verus!
