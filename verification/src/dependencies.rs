//! `dependencies.csv`

use vstd::prelude::*;
use crate::cells::{boolean_fault, boolean_value, integer_fault, integer_value, same_text};
use crate::crates::CrateId;
use crate::error::{Error, ErrorKind, Expected, Invalid};
use crate::record::{at, invalid_if, Faults, FromRecord, Layout, LayoutView};
use crate::table::Table;
use crate::text::bytes_of_each;
use crate::version::{req_fault, semver_version_req, spec_req, VersionReq};
use crate::versions::VersionId;

verus! {

/// What a dependency is needed for.
#[derive(Copy, Clone, Debug, PartialEq, Eq, Structural)]
pub enum DependencyKind {
    /// kind=0
    Normal,
    /// kind=1
    Build,
    /// kind=2
    Dev,
}

/// The dependency kind of the number `kind`, which is 0, 1 or 2.
pub open spec fn spec_kind(kind: int) -> DependencyKind {
    if kind == 0 {
        DependencyKind::Normal
    } else if kind == 1 {
        DependencyKind::Build
    } else {
        DependencyKind::Dev
    }
}

/// The fault of the kind cell: it is no integer of eight bits, or it is
/// one above 2.
pub open spec fn kind_fault(layout: LayoutView, row: Seq<Seq<char>>) -> Option<ErrorKind> {
    integer_fault(layout, row, KIND as int, 0, u8::MAX as int).otherwise(
        invalid_if(
            integer_value(layout, row, KIND as int, 0, u8::MAX as int) > 2,
            KIND as int,
            Expected::DependencyKind,
        ),
    )
}

// Where each column stands in the schema of the table.
pub const ID: usize = 0;
pub const VERSION_ID: usize = 1;
pub const CRATE_ID: usize = 2;
pub const REQ: usize = 3;
pub const OPTIONAL: usize = 4;
pub const DEFAULT_FEATURES: usize = 5;
pub const FEATURES: usize = 6;
pub const TARGET: usize = 7;
pub const KIND: usize = 8;
pub const EXPLICIT_NAME: usize = 9;

/// One row of `dependencies.csv`.
#[derive(Clone, Debug)]
#[non_exhaustive]
pub struct Row {
    /// PRIMARY KEY
    pub id: u32,
    pub version_id: VersionId,
    pub crate_id: CrateId,
    pub req: VersionReq,
    pub optional: bool,
    pub default_features: bool,
    pub features: Vec<String>,
    pub target: String,
    pub kind: DependencyKind,
    pub explicit_name: Option<String>,
}

impl FromRecord for Row {
    open spec fn table() -> Table {
        Table::Dependencies
    }

    open spec fn fault(layout: LayoutView, row: Seq<Seq<char>>) -> Option<ErrorKind> {
        integer_fault(layout, row, ID as int, 0, u32::MAX as int)
            .otherwise(integer_fault(layout, row, VERSION_ID as int, 0, u32::MAX as int))
            .otherwise(integer_fault(layout, row, CRATE_ID as int, 0, u32::MAX as int))
            .otherwise(req_fault(layout.required(row, REQ as int), REQ as int))
            .otherwise(boolean_fault(layout, row, OPTIONAL as int))
            .otherwise(boolean_fault(layout, row, DEFAULT_FEATURES as int))
            .otherwise(
                crate::set::column_fault(
                    layout.present(row, FEATURES as int), false, FEATURES as int,
                )
            )
            .otherwise(kind_fault(layout, row))
    }

    open spec fn holds(&self, layout: LayoutView, row: Seq<Seq<char>>) -> bool {
        &&& self.id == integer_value(layout, row, ID as int, 0, u32::MAX as int)
        &&& self.version_id.0 == integer_value(layout, row, VERSION_ID as int, 0, u32::MAX as int)
        &&& self.crate_id.0 == integer_value(layout, row, CRATE_ID as int, 0, u32::MAX as int)
        &&& Some(self.req@) == spec_req(
            layout.required(row, REQ as int),
            semver_version_req(layout.required(row, REQ as int)),
        )
        &&& self.optional == boolean_value(layout, row, OPTIONAL as int)
        &&& self.default_features == boolean_value(layout, row, DEFAULT_FEATURES as int)
        &&& bytes_of_each(self.features@) == crate::set::column_value(
            layout.present(row, FEATURES as int), false,
        )
        &&& self.target@ == layout.required(row, TARGET as int)
        &&& self.kind == spec_kind(integer_value(layout, row, KIND as int, 0, u8::MAX as int))
        &&& same_text(self.explicit_name, layout.optional(row, EXPLICIT_NAME as int))
    }

    fn source() -> (r: Table) {
        Table::Dependencies
    }

    #[verifier::rlimit(60)]
    fn decode(layout: &Layout, row: &Vec<String>) -> (r: Result<Self, Error>) {
        let id = layout.unsigned(row, ID, 0xffff_ffff)? as u32;
        let version_id = VersionId(layout.unsigned(row, VERSION_ID, 0xffff_ffff)? as u32);
        let crate_id = CrateId(layout.unsigned(row, CRATE_ID, 0xffff_ffff)? as u32);
        let req = at(REQ, crate::version::req(layout.required(row, REQ)))?;
        let optional = layout.boolean(row, OPTIONAL)?;
        let default_features = layout.boolean(row, DEFAULT_FEATURES)?;
        let features = crate::set::column(FEATURES, layout.present(row, FEATURES), false)?;
        let target = layout.text(row, TARGET);
        let kind = match layout.unsigned(row, KIND, 0xff)? {
            0 => DependencyKind::Normal,
            1 => DependencyKind::Build,
            2 => DependencyKind::Dev,
            _ => {
                let detail = layout.text(row, KIND);
                return Err(
                    Error::invalid(KIND, Invalid { expected: Expected::DependencyKind, detail })
                );
            },
        };
        let explicit_name = layout.opt_text(row, EXPLICIT_NAME);
        Ok(
            Row {
                id,
                version_id,
                crate_id,
                req,
                optional,
                default_features,
                features,
                target,
                kind,
                explicit_name,
            }
        )
    }
}

} // verus!
