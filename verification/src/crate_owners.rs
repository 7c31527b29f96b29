//! `crate_owners.csv`

use vstd::prelude::*;
use crate::cells::{
    integer_fault, integer_value, opt_integer_fault, opt_integer_value, timestamp_fault,
    timestamp_value,
};
use crate::crates::CrateId;
use crate::datetime::DateTime;
use crate::error::{Error, ErrorKind, Expected, Invalid};
use crate::record::{invalid_if, Faults, FromRecord, Layout, LayoutView};
use crate::table::Table;
use crate::teams::TeamId;
use crate::users::UserId;
use vstd::std_specs::cmp::PartialEqSpecImpl;

verus! {

/// Who owns a crate: a user or a team.
#[derive(Copy, Clone, Debug, PartialEq, Eq, Structural)]
pub enum OwnerId {
    /// owner_kind=0
    User(UserId),
    /// owner_kind=1
    Team(TeamId),
}

/// The owner that the number `id` names under the owner kind `kind`, which
/// is 0 for a user and 1 for a team.
pub open spec fn spec_owner(kind: int, id: int) -> OwnerId {
    if kind == 0 {
        OwnerId::User(UserId(id as u32))
    } else {
        OwnerId::Team(TeamId(id as u32))
    }
}

/// An owner is a user if it is that user.
impl PartialEq<UserId> for OwnerId {
    fn eq(&self, other: &UserId) -> (r: bool) {
        match self {
            OwnerId::User(user_id) => user_id.0 == other.0,
            OwnerId::Team(_) => false,
        }
    }
}

impl PartialEqSpecImpl<UserId> for OwnerId {
    open spec fn obeys_eq_spec() -> bool {
        true
    }

    open spec fn eq_spec(&self, other: &UserId) -> bool {
        *self == OwnerId::User(*other)
    }
}

/// An owner is a team if it is that team.
impl PartialEq<TeamId> for OwnerId {
    fn eq(&self, other: &TeamId) -> (r: bool) {
        match self {
            OwnerId::User(_) => false,
            OwnerId::Team(team_id) => team_id.0 == other.0,
        }
    }
}

impl PartialEqSpecImpl<TeamId> for OwnerId {
    open spec fn obeys_eq_spec() -> bool {
        true
    }

    open spec fn eq_spec(&self, other: &TeamId) -> bool {
        *self == OwnerId::Team(*other)
    }
}

impl PartialEq<OwnerId> for UserId {
    fn eq(&self, other: &OwnerId) -> (r: bool) {
        match other {
            OwnerId::User(user_id) => user_id.0 == self.0,
            OwnerId::Team(_) => false,
        }
    }
}

impl PartialEqSpecImpl<OwnerId> for UserId {
    open spec fn obeys_eq_spec() -> bool {
        true
    }

    open spec fn eq_spec(&self, other: &OwnerId) -> bool {
        *other == OwnerId::User(*self)
    }
}

impl PartialEq<OwnerId> for TeamId {
    fn eq(&self, other: &OwnerId) -> (r: bool) {
        match other {
            OwnerId::User(_) => false,
            OwnerId::Team(team_id) => team_id.0 == self.0,
        }
    }
}

impl PartialEqSpecImpl<OwnerId> for TeamId {
    open spec fn obeys_eq_spec() -> bool {
        true
    }

    open spec fn eq_spec(&self, other: &OwnerId) -> bool {
        *other == OwnerId::Team(*self)
    }
}

/// The fault of the owner kind cell: it is no integer of eight bits, or it
/// is one above 1.
pub open spec fn owner_kind_fault(layout: LayoutView, row: Seq<Seq<char>>) -> Option<ErrorKind> {
    integer_fault(layout, row, OWNER_KIND as int, 0, u8::MAX as int).otherwise(
        invalid_if(
            integer_value(layout, row, OWNER_KIND as int, 0, u8::MAX as int) > 1,
            OWNER_KIND as int,
            Expected::OwnerKind,
        ),
    )
}

// Where each column stands in the schema of the table.
pub const CRATE_ID: usize = 0;
pub const CREATED_AT: usize = 1;
pub const CREATED_BY: usize = 2;
pub const OWNER_ID: usize = 3;
pub const OWNER_KIND: usize = 4;

/// One row of `crate_owners.csv`.
#[derive(Clone, Debug)]
#[non_exhaustive]
pub struct Row {
    pub crate_id: CrateId,
    pub created_at: DateTime,
    pub created_by: Option<UserId>,
    pub owner_id: OwnerId,
}

impl FromRecord for Row {
    open spec fn table() -> Table {
        Table::CrateOwners
    }

    open spec fn fault(layout: LayoutView, row: Seq<Seq<char>>) -> Option<ErrorKind> {
        integer_fault(layout, row, CRATE_ID as int, 0, u32::MAX as int)
            .otherwise(timestamp_fault(layout, row, CREATED_AT as int))
            .otherwise(opt_integer_fault(layout, row, CREATED_BY as int, u32::MAX as int))
            .otherwise(integer_fault(layout, row, OWNER_ID as int, 0, u32::MAX as int))
            .otherwise(owner_kind_fault(layout, row))
    }

    open spec fn holds(&self, layout: LayoutView, row: Seq<Seq<char>>) -> bool {
        &&& self.crate_id.0 == integer_value(layout, row, CRATE_ID as int, 0, u32::MAX as int)
        &&& self.created_at.moment() == timestamp_value(layout, row, CREATED_AT as int)
        &&& (match self.created_by {
                Some(id) => Some(id.0 as int),
                None => None,
            }) == opt_integer_value(layout, row, CREATED_BY as int, u32::MAX as int)
        &&& self.owner_id == spec_owner(
            integer_value(layout, row, OWNER_KIND as int, 0, u8::MAX as int),
            integer_value(layout, row, OWNER_ID as int, 0, u32::MAX as int),
        )
    }

    fn source() -> (r: Table) {
        Table::CrateOwners
    }

    #[verifier::rlimit(60)]
    fn decode(layout: &Layout, row: &Vec<String>) -> (r: Result<Self, Error>) {
        let crate_id = CrateId(layout.unsigned(row, CRATE_ID, 0xffff_ffff)? as u32);
        let created_at = layout.timestamp(row, CREATED_AT)?;
        let created_by = match layout.opt_unsigned(row, CREATED_BY, 0xffff_ffff)? {
            Some(v) => Some(UserId(v as u32)),
            None => None,
        };
        let owner = layout.unsigned(row, OWNER_ID, 0xffff_ffff)? as u32;
        let owner_id = match layout.unsigned(row, OWNER_KIND, 0xff)? {
            0 => OwnerId::User(UserId(owner)),
            1 => OwnerId::Team(TeamId(owner)),
            _ => {
                let detail = layout.text(row, OWNER_KIND);
                return Err(
                    Error::invalid(OWNER_KIND, Invalid { expected: Expected::OwnerKind, detail })
                );
            },
        };
        Ok(Row { crate_id, created_at, created_by, owner_id })
    }
}

} // verus!
