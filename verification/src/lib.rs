//! Typed, streaming access to the tables of a crates.io database dump.
//!
//! A dump is a gzip-compressed tar archive with one file of delimited text
//! per table. A [`Loader`] walks such an archive once and decodes only the
//! tables that a consumer was registered for; [`load_all`] decodes every
//! table into a [`DbDump`], over which an [`Index`] finds rows by their
//! primary key.
//!
//! The crate is laid out in layers:
//!
//! - the codecs of the cells: [`boolean`], [`integer`], [`date`],
//!   [`datetime`], [`set`], [`checksum`], [`version`], [`features`];
//! - [`table`] and [`record`]: the schema of each table, and how the cells
//!   of a row are found under a header row;
//! - one module per table with its row type and the decoder of its rows;
//! - [`archive`]: the readers of the archive and of its files, which are
//!   those of other crates;
//! - [`plan`] and [`load`]: what a load does with each entry of an
//!   archive, and the loader that does it;
//! - [`index`].
//!
//! Every function of the crate is verified with Verus against the contract
//! in its signature. What other crates compute is reached through a few
//! small functions whose contracts are taken on trust; each of them says in
//! its documentation which function it calls and what is claimed of it.

pub mod archive;
pub mod badges;
pub mod boolean;
pub mod categories;
pub mod cells;
pub mod checksum;
pub mod crate_downloads;
pub mod crate_owners;
pub mod crates;
pub mod crates_categories;
pub mod crates_keywords;
pub mod date;
pub mod datetime;
pub mod default_versions;
pub mod deleted_crates;
pub mod dependencies;
pub mod error;
pub mod features;
pub mod index;
pub mod integer;
pub mod keywords;
pub mod load;
pub mod metadata;
pub mod plan;
pub mod record;
pub mod reserved_crate_names;
pub mod set;
pub mod table;
pub mod teams;
pub mod text;
pub mod users;
pub mod version;
pub mod version_authors;
pub mod version_downloads;
pub mod versions;

pub use crate::date::Date;
pub use crate::datetime::DateTime;
pub use crate::error::{Error, ErrorKind, Result};
pub use crate::index::Index;
pub use crate::load::{load_all, Consumer, Loader};
pub use crate::table::Table;

use vstd::prelude::*;

verus! {

/// A dump with every table decoded into memory.
#[derive(Default)]
#[non_exhaustive]
pub struct DbDump {
    pub categories: Vec<categories::Row>,
    pub crate_downloads: Vec<crate_downloads::Row>,
    pub crate_owners: Vec<crate_owners::Row>,
    pub crates: Vec<crates::Row>,
    pub crates_categories: Vec<crates_categories::Row>,
    pub crates_keywords: Vec<crates_keywords::Row>,
    pub dependencies: Vec<dependencies::Row>,
    pub keywords: Vec<keywords::Row>,
    pub metadata: metadata::Row,
    pub reserved_crate_names: Vec<reserved_crate_names::Row>,
    pub teams: Vec<teams::Row>,
    pub users: Vec<users::Row>,
    pub version_downloads: Vec<version_downloads::Row>,
    pub versions: Vec<versions::Row>,
}

} // verus!
