//! The one error type of the crate.

use vstd::prelude::*;
use vstd::string::StringExecFns;
use crate::table::Table;

verus! {

/// What a field codec wanted to find in a cell that it rejected.
#[derive(Copy, Clone, Debug, PartialEq, Eq, Structural)]
pub enum Expected {
    /// The letter `t` or the letter `f`.
    Bool,
    /// A calendar day written `YYYY-MM-DD`.
    Date,
    /// A timestamp written `YYYY-MM-DD HH:MM:SS.SSSSSS`.
    DateTime,
    /// A list between braces.
    List,
    /// An integer that fits the column's type.
    Integer,
    /// A semantic version.
    Version,
    /// A semantic version requirement.
    VersionReq,
    /// The version of a Rust toolchain, or a requirement on it.
    RustVersion,
    /// A JSON object whose values are lists of strings.
    Features,
    /// Sixty-four hexadecimal digits.
    Checksum,
    /// One of the dependency kinds 0, 1, 2.
    DependencyKind,
    /// One of the owner kinds 0, 1.
    OwnerKind,
    /// A JSON object with the attributes of the badge's kind.
    Badge,
}

impl Expected {
    /// The words that describe what was expected.
    pub open spec fn spec_describe(self) -> Seq<char> {
        match self {
            Expected::Bool => "'t' or 'f'"@,
            Expected::Date => "date in format 'YYYY-MM-DD'"@,
            Expected::DateTime => "datetime in format 'YYYY-MM-DD HH:MM:SS.SSSSSS'"@,
            Expected::List => "set in format '{a,b,c}'"@,
            Expected::Integer => "integer"@,
            Expected::Version => "semver version"@,
            Expected::VersionReq => "semver version req"@,
            Expected::RustVersion => "a compiler version number"@,
            Expected::Features => "features map"@,
            Expected::Checksum => "checksum as 64-character hex string"@,
            Expected::DependencyKind => "dependency kind (0, 1, 2)"@,
            Expected::OwnerKind => "owner kind (0, 1)"@,
            Expected::Badge => "badge attributes"@,
        }
    }

    pub fn describe(self) -> (r: &'static str)
        ensures
            r@ == self.spec_describe(),
    {
        match self {
            Expected::Bool => "'t' or 'f'",
            Expected::Date => "date in format 'YYYY-MM-DD'",
            Expected::DateTime => "datetime in format 'YYYY-MM-DD HH:MM:SS.SSSSSS'",
            Expected::List => "set in format '{a,b,c}'",
            Expected::Integer => "integer",
            Expected::Version => "semver version",
            Expected::VersionReq => "semver version req",
            Expected::RustVersion => "a compiler version number",
            Expected::Features => "features map",
            Expected::Checksum => "checksum as 64-character hex string",
            Expected::DependencyKind => "dependency kind (0, 1, 2)",
            Expected::OwnerKind => "owner kind (0, 1)",
            Expected::Badge => "badge attributes",
        }
    }
}

/// A cell that its codec rejected.
#[derive(Clone, Debug, PartialEq, Eq)]
pub struct Invalid {
    pub expected: Expected,
    /// Text for a human reader: the rejected cell, or the parser's complaint.
    pub detail: String,
}

/// The kinds of failure that a load can end in.
#[derive(Copy, Clone, Debug, PartialEq, Eq, Structural)]
pub enum ErrorKind {
    /// The archive could not be read to the end, or it is not a well-formed
    /// compressed container.
    Archive,
    /// A table's file is not well-formed delimited text.
    Tokenize,
    /// An archive entry names a table that this crate does not know.
    UnrecognizedTable,
    /// A row does not have as many cells as its header row.
    UnequalLengths,
    /// The header at `position` is not a column of the table.
    UnknownColumn { position: usize },
    /// The header at `position` repeats an earlier header.
    DuplicateColumn { position: usize },
    /// The header row lacks the required column `column` of the schema.
    MissingColumn { column: usize },
    /// The codec of the schema's column `column` rejected its cell.
    Invalid { column: usize, expected: Expected },
}

impl ErrorKind {
    /// A sentence for each kind.
    pub open spec fn spec_describe(self) -> Seq<char> {
        match self {
            ErrorKind::Archive => "malformed archive"@,
            ErrorKind::Tokenize => "malformed csv"@,
            ErrorKind::UnrecognizedTable => "unrecognized table"@,
            ErrorKind::UnequalLengths => "row and header differ in length"@,
            ErrorKind::UnknownColumn { .. } => "unknown column"@,
            ErrorKind::DuplicateColumn { .. } => "duplicate column"@,
            ErrorKind::MissingColumn { .. } => "missing column"@,
            ErrorKind::Invalid { expected, .. } => "invalid value, expected "@
                + expected.spec_describe(),
        }
    }

    /// Whether a load can end in an error of this kind while it reads a
    /// table.
    pub open spec fn of_table(self) -> bool {
        self is Tokenize || self is UnequalLengths || self is UnknownColumn
            || self is DuplicateColumn || self is MissingColumn || self is Invalid
    }

    pub fn describe(self) -> (r: String)
        ensures
            r@ == self.spec_describe(),
    {
        match self {
            ErrorKind::Archive => String::from_str("malformed archive"),
            ErrorKind::Tokenize => String::from_str("malformed csv"),
            ErrorKind::UnrecognizedTable => String::from_str("unrecognized table"),
            ErrorKind::UnequalLengths => String::from_str("row and header differ in length"),
            ErrorKind::UnknownColumn { .. } => String::from_str("unknown column"),
            ErrorKind::DuplicateColumn { .. } => String::from_str("duplicate column"),
            ErrorKind::MissingColumn { .. } => String::from_str("missing column"),
            ErrorKind::Invalid { expected, .. } => {
                let mut s = String::from_str("invalid value, expected ");
                s.append(expected.describe());
                s
            },
        }
    }
}

/// Why a load, or the decoding of one row, failed.
#[derive(Clone, Debug, PartialEq, Eq)]
pub struct Error {
    pub kind: ErrorKind,
    /// The table that was being read, once that is known.
    pub table: Option<Table>,
    /// Text for a human reader: the offending header or cell, or what the
    /// archive or text reader reported.
    pub detail: String,
}

impl Error {
    /// An error that no table is attached to yet.
    pub fn new(kind: ErrorKind, detail: String) -> (r: Error)
        ensures
            r.kind == kind,
            r.table is None,
            r.detail@ == detail@,
    {
        Error { kind, table: None, detail }
    }

    /// The error that reports the rejected cell of the schema's column `column`.
    pub fn invalid(column: usize, cell: Invalid) -> (r: Error)
        ensures
            r.kind == (ErrorKind::Invalid { column, expected: cell.expected }),
            r.table is None,
            r.detail@ == cell.detail@,
    {
        Error {
            kind: ErrorKind::Invalid { column, expected: cell.expected },
            table: None,
            detail: cell.detail,
        }
    }

    /// The same error, attached to `table`.
    pub fn in_table(self, table: Table) -> (r: Error)
        ensures
            r.kind == self.kind,
            r.table == Some(table),
            r.detail@ == self.detail@,
    {
        Error { kind: self.kind, table: Some(table), detail: self.detail }
    }

    /// The text of [`Error::message`].
    pub open spec fn spec_message(&self) -> Seq<char> {
        let head = match self.table {
            Some(table) => table.spec_file_name() + ": "@,
            None => Seq::<char>::empty(),
        };
        head + self.kind.spec_describe() + ": "@ + self.detail@
    }

    /// The error in words: the table's file, what went wrong, and the detail.
    pub fn message(&self) -> (r: String)
        ensures
            r@ == self.spec_message(),
    {
        let mut s = match self.table {
            Some(table) => {
                let mut s = String::from_str(table.file_name());
                s.append(": ");
                s
            },
            None => String::new(),
        };
        let what = self.kind.describe();
        s.append(what.as_str());
        s.append(": ");
        s.append(self.detail.as_str());
        s
    }
}

/// What `load_all` and `Loader::load` return.
pub type Result<T> = core::result::Result<T, Error>;

} // verus!
