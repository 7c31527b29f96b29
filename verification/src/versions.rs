//! `versions.csv`

use vstd::prelude::*;
use crate::cells::{
    boolean_fault, boolean_value, integer_fault, integer_value, number16, number64,
    opt_integer_fault, opt_integer_value, same_text, timestamp_fault, timestamp_value,
};
use crate::checksum::digest_of;
use crate::crates::CrateId;
use crate::datetime::DateTime;
use crate::error::{Error, ErrorKind};
use crate::features::{features_view, json_features};
use crate::index::Keyed;
use crate::record::{at, Faults, FromRecord, Layout, LayoutView};
use crate::table::Table;
use crate::text::bytes_of_each;
use crate::users::UserId;
use crate::version::{
    rust_version_fault, rust_version_value, semver_version, spec_version, version_fault, version_of,
    Version,
};
use std::cmp::Ordering;
use vstd::std_specs::cmp::{PartialEqSpecImpl, PartialOrdSpecImpl};

verus! {

/// Primary key of `versions.csv`.
#[derive(Copy, Clone, Debug, PartialEq, Eq, Structural, PartialOrd, Ord, Hash)]
pub struct VersionId(pub u32);

// Where each column stands in the schema of the table.
pub const ID: usize = 0;
pub const CRATE_ID: usize = 1;
pub const NUM: usize = 2;
pub const NUM_NO_BUILD: usize = 3;
pub const UPDATED_AT: usize = 4;
pub const CREATED_AT: usize = 5;
pub const DOWNLOADS: usize = 6;
pub const FEATURES: usize = 7;
pub const YANKED: usize = 8;
pub const LICENSE: usize = 9;
pub const CRATE_SIZE: usize = 10;
pub const PUBLISHED_BY: usize = 11;
pub const CHECKSUM: usize = 12;
pub const LINKS: usize = 13;
pub const RUST_VERSION: usize = 14;
pub const HAS_LIB: usize = 15;
pub const BIN_NAMES: usize = 16;
pub const EDITION: usize = 17;
pub const DESCRIPTION: usize = 18;
pub const HOMEPAGE: usize = 19;
pub const DOCUMENTATION: usize = 20;
pub const REPOSITORY: usize = 21;
pub const CATEGORIES: usize = 22;
pub const KEYWORDS: usize = 23;

/// One row of `versions.csv`.
#[derive(Clone, Debug)]
#[non_exhaustive]
pub struct Row {
    /// PRIMARY KEY
    pub id: VersionId,
    pub crate_id: CrateId,
    pub num: Version,
    pub updated_at: DateTime,
    pub created_at: DateTime,
    pub downloads: u64,
    /// Each feature with what it enables, in the order of the names.
    pub features: Vec<(String, Vec<String>)>,
    pub yanked: bool,
    pub license: String,
    pub crate_size: Option<u64>,
    pub published_by: Option<UserId>,
    pub checksum: Option<[u8; 32]>,
    pub links: Option<String>,
    pub rust_version: Option<Version>,
    pub has_lib: bool,
    pub bin_names: Vec<String>,
    pub edition: Option<u16>,
    pub description: Option<String>,
    pub homepage: Option<String>,
    pub documentation: Option<String>,
    pub repository: Option<String>,
    pub categories: Vec<String>,
    pub keywords: Vec<String>,
}

impl FromRecord for Row {
    open spec fn table() -> Table {
        Table::Versions
    }

    open spec fn fault(layout: LayoutView, row: Seq<Seq<char>>) -> Option<ErrorKind> {
        integer_fault(layout, row, ID as int, 0, u32::MAX as int)
            .otherwise(integer_fault(layout, row, CRATE_ID as int, 0, u32::MAX as int))
            .otherwise(version_fault(layout.required(row, NUM as int), NUM as int))
            .otherwise(timestamp_fault(layout, row, UPDATED_AT as int))
            .otherwise(timestamp_fault(layout, row, CREATED_AT as int))
            .otherwise(integer_fault(layout, row, DOWNLOADS as int, 0, u64::MAX as int))
            .otherwise(
                crate::features::fault(layout.required(row, FEATURES as int), FEATURES as int)
            )
            .otherwise(boolean_fault(layout, row, YANKED as int))
            .otherwise(opt_integer_fault(layout, row, CRATE_SIZE as int, u64::MAX as int))
            .otherwise(opt_integer_fault(layout, row, PUBLISHED_BY as int, u32::MAX as int))
            .otherwise(
                crate::checksum::column_fault(layout.present(row, CHECKSUM as int), CHECKSUM as int)
            )
            .otherwise(
                rust_version_fault(layout.present(row, RUST_VERSION as int), RUST_VERSION as int)
            )
            .otherwise(
                crate::boolean::column_fault(layout.optional(row, HAS_LIB as int), HAS_LIB as int)
            )
            .otherwise(
                crate::set::column_fault(
                    layout.present(row, BIN_NAMES as int), true, BIN_NAMES as int,
                )
            )
            .otherwise(opt_integer_fault(layout, row, EDITION as int, u16::MAX as int))
            .otherwise(
                crate::set::column_fault(
                    layout.present(row, CATEGORIES as int), false, CATEGORIES as int,
                )
            )
            .otherwise(
                crate::set::column_fault(
                    layout.present(row, KEYWORDS as int), false, KEYWORDS as int,
                )
            )
    }

    open spec fn holds(&self, layout: LayoutView, row: Seq<Seq<char>>) -> bool {
        &&& self.id.0 == integer_value(layout, row, ID as int, 0, u32::MAX as int)
        &&& self.crate_id.0 == integer_value(layout, row, CRATE_ID as int, 0, u32::MAX as int)
        &&& Some(self.num@) == spec_version(
            layout.required(row, NUM as int),
            semver_version(layout.required(row, NUM as int)),
        )
        &&& self.updated_at.moment() == timestamp_value(layout, row, UPDATED_AT as int)
        &&& self.created_at.moment() == timestamp_value(layout, row, CREATED_AT as int)
        &&& self.downloads == integer_value(layout, row, DOWNLOADS as int, 0, u64::MAX as int)
        &&& Some(features_view(self.features@)) == json_features(
            layout.required(row, FEATURES as int)
        )
            && crate::features::in_order(features_view(self.features@))
        &&& self.yanked == boolean_value(layout, row, YANKED as int)
        &&& self.license@ == layout.required(row, LICENSE as int)
        &&& number64(self.crate_size) == opt_integer_value(
            layout, row, CRATE_SIZE as int, u64::MAX as int,
        )
        &&& (match self.published_by {
                Some(id) => Some(id.0 as int),
                None => None,
            }) == opt_integer_value(layout, row, PUBLISHED_BY as int, u32::MAX as int)
        &&& digest_of(self.checksum) == crate::checksum::column_value(
            layout.present(row, CHECKSUM as int)
        )
        &&& same_text(self.links, layout.optional(row, LINKS as int))
        &&& version_of(self.rust_version) == rust_version_value(
            layout.present(row, RUST_VERSION as int)
        )
        &&& self.has_lib == crate::boolean::column_value(layout.optional(row, HAS_LIB as int))
        &&& bytes_of_each(self.bin_names@) == crate::set::column_value(
            layout.present(row, BIN_NAMES as int), true,
        )
        &&& number16(self.edition) == opt_integer_value(
            layout, row, EDITION as int, u16::MAX as int,
        )
        &&& same_text(self.description, layout.optional(row, DESCRIPTION as int))
        &&& same_text(self.homepage, layout.optional(row, HOMEPAGE as int))
        &&& same_text(self.documentation, layout.optional(row, DOCUMENTATION as int))
        &&& same_text(self.repository, layout.optional(row, REPOSITORY as int))
        &&& bytes_of_each(self.categories@) == crate::set::column_value(
            layout.present(row, CATEGORIES as int), false,
        )
        &&& bytes_of_each(self.keywords@) == crate::set::column_value(
            layout.present(row, KEYWORDS as int), false,
        )
    }

    fn source() -> (r: Table) {
        Table::Versions
    }

    #[verifier::rlimit(60)]
    fn decode(layout: &Layout, row: &Vec<String>) -> (r: Result<Self, Error>) {
        let id = VersionId(layout.unsigned(row, ID, 0xffff_ffff)? as u32);
        let crate_id = CrateId(layout.unsigned(row, CRATE_ID, 0xffff_ffff)? as u32);
        let num = at(NUM, crate::version::de(layout.required(row, NUM)))?;
        let updated_at = layout.timestamp(row, UPDATED_AT)?;
        let created_at = layout.timestamp(row, CREATED_AT)?;
        let downloads = layout.unsigned(row, DOWNLOADS, 0xffff_ffff_ffff_ffff)?;
        let features = at(FEATURES, crate::features::de(layout.required(row, FEATURES)))?;
        let yanked = layout.boolean(row, YANKED)?;
        let license = layout.text(row, LICENSE);
        let crate_size = layout.opt_unsigned(row, CRATE_SIZE, 0xffff_ffff_ffff_ffff)?;
        let published_by = match layout.opt_unsigned(row, PUBLISHED_BY, 0xffff_ffff)? {
            Some(v) => Some(UserId(v as u32)),
            None => None,
        };
        let checksum = crate::checksum::column(CHECKSUM, layout.present(row, CHECKSUM))?;
        let links = layout.opt_text(row, LINKS);
        let rust_version = crate::version::rust_version_column(
            RUST_VERSION, layout.present(row, RUST_VERSION),
        )?;
        let has_lib = crate::boolean::column(HAS_LIB, layout.optional(row, HAS_LIB))?;
        let bin_names = crate::set::column(BIN_NAMES, layout.present(row, BIN_NAMES), true)?;
        let edition = match layout.opt_unsigned(row, EDITION, 0xffff)? {
            Some(v) => Some(v as u16),
            None => None,
        };
        let description = layout.opt_text(row, DESCRIPTION);
        let homepage = layout.opt_text(row, HOMEPAGE);
        let documentation = layout.opt_text(row, DOCUMENTATION);
        let repository = layout.opt_text(row, REPOSITORY);
        let categories = crate::set::column(CATEGORIES, layout.present(row, CATEGORIES), false)?;
        let keywords = crate::set::column(KEYWORDS, layout.present(row, KEYWORDS), false)?;
        Ok(
            Row {
                id,
                crate_id,
                num,
                updated_at,
                created_at,
                downloads,
                features,
                yanked,
                license,
                crate_size,
                published_by,
                checksum,
                links,
                rust_version,
                has_lib,
                bin_names,
                edition,
                description,
                homepage,
                documentation,
                repository,
                categories,
                keywords,
            }
        )
    }
}

impl Keyed for Row {
    open spec fn key(&self) -> u32 {
        self.id.0
    }

    fn key_number(&self) -> (r: u32) {
        self.id.0
    }
}

/// Rows are told apart by their primary key.
impl PartialEq for Row {
    fn eq(&self, other: &Self) -> (r: bool) {
        self.id.0 == other.id.0
    }
}

impl PartialEqSpecImpl for Row {
    open spec fn obeys_eq_spec() -> bool {
        true
    }

    open spec fn eq_spec(&self, other: &Self) -> bool {
        self.id.0 == other.id.0
    }
}

impl Eq for Row {
}

/// Rows are ordered by their primary key.
impl PartialOrd for Row {
    fn partial_cmp(&self, other: &Self) -> (r: Option<Ordering>) {
        if self.id.0 < other.id.0 {
            Some(Ordering::Less)
        } else if self.id.0 == other.id.0 {
            Some(Ordering::Equal)
        } else {
            Some(Ordering::Greater)
        }
    }
}

impl PartialOrdSpecImpl for Row {
    open spec fn obeys_partial_cmp_spec() -> bool {
        true
    }

    open spec fn partial_cmp_spec(&self, other: &Self) -> Option<Ordering> {
        if self.id.0 < other.id.0 {
            Some(Ordering::Less)
        } else if self.id.0 == other.id.0 {
            Some(Ordering::Equal)
        } else {
            Some(Ordering::Greater)
        }
    }
}

} // verus!
