//! Semantic versions and version requirements as plain values, and the
//! codecs of the columns that hold them.
//!
//! The semver crate does the parsing. A dump holds a few versions and
//! requirements that were published before the registry checked them and
//! that no parser takes; each of them has a fixed reading here.

use vstd::prelude::*;
use vstd::string::StringExecFns;
use crate::error::{Error, ErrorKind, Expected, Invalid};
use crate::record::{at, invalid_if};
use crate::text::{str_eq, text_of};
use ::semver::Op as SemverOp;

verus! {

/// A semantic version.
#[derive(Clone, Debug, PartialEq, Eq)]
pub struct Version {
    pub major: u64,
    pub minor: u64,
    pub patch: u64,
    /// The pre-release identifiers, without the leading hyphen; empty if none.
    pub pre: String,
    /// The build metadata, without the leading plus sign; empty if none.
    pub build: String,
}

/// The value of a [`Version`].
pub struct VersionView {
    pub major: u64,
    pub minor: u64,
    pub patch: u64,
    pub pre: Seq<char>,
    pub build: Seq<char>,
}

impl View for Version {
    type V = VersionView;

    open spec fn view(&self) -> VersionView {
        VersionView {
            major: self.major,
            minor: self.minor,
            patch: self.patch,
            pre: self.pre@,
            build: self.build@,
        }
    }
}

/// The operator of a comparator.
#[derive(Copy, Clone, Debug, PartialEq, Eq, Structural)]
#[non_exhaustive]
pub enum Op {
    Exact,
    Greater,
    GreaterEq,
    Less,
    LessEq,
    Tilde,
    Caret,
    Wildcard,
    /// An operator that a later semver may add.
    Other,
}

/// An operator and a partial version, such as `>=1.2`.
#[derive(Clone, Debug, PartialEq, Eq)]
pub struct Comparator {
    pub op: Op,
    pub major: u64,
    pub minor: Option<u64>,
    pub patch: Option<u64>,
    pub pre: String,
}

/// The value of a [`Comparator`].
pub struct ComparatorView {
    pub op: Op,
    pub major: u64,
    pub minor: Option<u64>,
    pub patch: Option<u64>,
    pub pre: Seq<char>,
}

impl View for Comparator {
    type V = ComparatorView;

    open spec fn view(&self) -> ComparatorView {
        ComparatorView {
            op: self.op,
            major: self.major,
            minor: self.minor,
            patch: self.patch,
            pre: self.pre@,
        }
    }
}

/// A version requirement: every comparator must hold.
#[derive(Clone, Debug, PartialEq, Eq)]
pub struct VersionReq {
    pub comparators: Vec<Comparator>,
}

impl View for VersionReq {
    type V = Seq<ComparatorView>;

    open spec fn view(&self) -> Seq<ComparatorView> {
        self.comparators@.map_values(|c: Comparator| c@)
    }
}

/// What the semver crate reads in `text` as a version; `None` where it
/// reports an error.
pub uninterp spec fn semver_version(text: Seq<char>) -> Option<VersionView>;

/// What the semver crate reads in `text` as a version requirement; `None`
/// where it reports an error.
pub uninterp spec fn semver_version_req(text: Seq<char>) -> Option<Seq<ComparatorView>>;

/// `semver::Version::parse`: the version with its five parts, or the
/// parser's message.
#[verifier::external_body]
fn parse_version(text: &str) -> (r: Result<Version, String>)
    ensures
        match r {
            Ok(v) => semver_version(text@) == Some(v@),
            Err(_) => semver_version(text@) is None,
        },
{
    match ::semver::Version::parse(text) {
        Ok(v) => Ok(
            Version {
                major: v.major,
                minor: v.minor,
                patch: v.patch,
                pre: v.pre.as_str().to_owned(),
                build: v.build.as_str().to_owned(),
            },
        ),
        Err(e) => Err(e.to_string()),
    }
}

/// `semver::VersionReq::parse`: the comparators in the order in which the
/// text holds them, each with its operator and its fields, or the parser's
/// message.
#[verifier::external_body]
fn parse_version_req(text: &str) -> (r: Result<VersionReq, String>)
    ensures
        match r {
            Ok(req) => semver_version_req(text@) == Some(req@),
            Err(_) => semver_version_req(text@) is None,
        },
{
    let req = match ::semver::VersionReq::parse(text) {
        Ok(req) => req,
        Err(e) => return Err(e.to_string()),
    };
    Ok(VersionReq { comparators: req.comparators.iter().map(|c| Comparator {
        op: match c.op {
            SemverOp::Exact => Op::Exact, SemverOp::Greater => Op::Greater,
            SemverOp::GreaterEq => Op::GreaterEq, SemverOp::Less => Op::Less,
            SemverOp::LessEq => Op::LessEq, SemverOp::Tilde => Op::Tilde,
            SemverOp::Caret => Op::Caret, SemverOp::Wildcard => Op::Wildcard,
            _ => Op::Other,
        },
        major: c.major, minor: c.minor, patch: c.patch, pre: c.pre.as_str().to_owned(),
    }).collect() })
}

/// The reading of the versions that were published malformed.
pub open spec fn spec_compat_version(text: Seq<char>) -> Option<VersionView> {
    if text == "0.0.1-001"@ {
        Some(VersionView { major: 0, minor: 0, patch: 1, pre: "1"@, build: ""@ })
    } else if text == "0.3.0-alpha.01"@ {
        Some(VersionView { major: 0, minor: 3, patch: 0, pre: "alpha.1"@, build: ""@ })
    } else if text == "0.4.0-alpha.00"@ {
        Some(VersionView { major: 0, minor: 4, patch: 0, pre: "alpha.0"@, build: ""@ })
    } else if text == "0.4.0-alpha.01"@ {
        Some(VersionView { major: 0, minor: 4, patch: 0, pre: "alpha.1"@, build: ""@ })
    } else {
        None
    }
}

fn release(major: u64, minor: u64, patch: u64, pre: &str) -> (r: Version)
    ensures
        r@ == (VersionView { major, minor, patch, pre: pre@, build: ""@ }),
{
    Version { major, minor, patch, pre: String::from_str(pre), build: String::from_str("") }
}

/// Looks `text` up among the versions that were published malformed.
pub fn compat_version(text: &str) -> (r: Option<Version>)
    ensures
        match r {
            Some(v) => spec_compat_version(text@) == Some(v@),
            None => spec_compat_version(text@) is None,
        },
{
    if str_eq(text, "0.0.1-001") {
        Some(release(0, 0, 1, "1"))
    } else if str_eq(text, "0.3.0-alpha.01") {
        Some(release(0, 3, 0, "alpha.1"))
    } else if str_eq(text, "0.4.0-alpha.00") {
        Some(release(0, 4, 0, "alpha.0"))
    } else if str_eq(text, "0.4.0-alpha.01") {
        Some(release(0, 4, 0, "alpha.1"))
    } else {
        None
    }
}

/// The version of a cell: what the parser read, else the fixed reading of
/// the cell, else nothing.
pub open spec fn spec_version(text: Seq<char>, parsed: Option<VersionView>) -> Option<VersionView> {
    match parsed {
        Some(v) => Some(v),
        None => spec_compat_version(text),
    }
}

/// Settles the version of the cell `text`, of which the parser gave `parsed`.
pub fn version_or_compat(text: &str, parsed: Result<Version, String>) -> (r: Result<
    Version,
    Invalid,
>)
    ensures
        match r {
            Ok(v) => spec_version(
                text@,
                match parsed {
                    Ok(p) => Some(p@),
                    Err(_) => None,
                },
            ) == Some(v@),
            Err(e) => parsed is Err && spec_compat_version(text@) is None && e.expected
                == Expected::Version && e.detail@ == parsed->Err_0@ + ": "@ + text@,
        },
{
    match parsed {
        Ok(v) => Ok(v),
        Err(message) => match compat_version(text) {
            Some(v) => Ok(v),
            None => {
                let mut detail = message;
                detail.append(": ");
                detail.append(text);
                Err(Invalid { expected: Expected::Version, detail })
            },
        },
    }
}

/// Decodes a version cell.
pub fn de(text: &str) -> (r: Result<Version, Invalid>)
    ensures
        match r {
            Ok(v) => spec_version(text@, semver_version(text@)) == Some(v@),
            Err(e) => spec_version(text@, semver_version(text@)) is None && e.expected
                == Expected::Version,
        },
{
    version_or_compat(text, parse_version(text))
}

/// The reading of the requirements that were published malformed.
pub open spec fn spec_compat_req(text: Seq<char>) -> Option<Seq<ComparatorView>> {
    if text == "^0-.11.0"@ {
        Some(seq![caret(0, 11, 0, ""@)])
    } else if text == "^0.1-alpha.0"@ {
        Some(seq![caret(0, 1, 0, "alpha.0"@)])
    } else if text == "^0.51-oldsyn"@ {
        Some(seq![caret(0, 51, 1, "oldsyn"@)])
    } else if text == "~2.0-2.2"@ {
        Some(seq![partial(Op::GreaterEq, 2, 0), partial(Op::LessEq, 2, 2)])
    } else {
        None
    }
}

/// The comparator `^major.minor.patch-pre`.
pub open spec fn caret(major: u64, minor: u64, patch: u64, pre: Seq<char>) -> ComparatorView {
    ComparatorView { op: Op::Caret, major, minor: Some(minor), patch: Some(patch), pre }
}

/// The comparator of `op` and `major.minor`.
pub open spec fn partial(op: Op, major: u64, minor: u64) -> ComparatorView {
    ComparatorView { op, major, minor: Some(minor), patch: None, pre: ""@ }
}

fn one_caret(major: u64, minor: u64, patch: u64, pre: &str) -> (r: VersionReq)
    ensures
        r@ == seq![caret(major, minor, patch, pre@)],
{
    let mut comparators: Vec<Comparator> = Vec::new();
    comparators.push(
        Comparator {
            op: Op::Caret,
            major,
            minor: Some(minor),
            patch: Some(patch),
            pre: String::from_str(pre),
        },
    );
    let r = VersionReq { comparators };
    assert(r@ =~= seq![caret(major, minor, patch, pre@)]);
    r
}

/// Looks `text` up among the requirements that were published malformed.
pub fn compat_req(text: &str) -> (r: Option<VersionReq>)
    ensures
        match r {
            Some(req) => spec_compat_req(text@) == Some(req@),
            None => spec_compat_req(text@) is None,
        },
{
    if str_eq(text, "^0-.11.0") {
        Some(one_caret(0, 11, 0, ""))
    } else if str_eq(text, "^0.1-alpha.0") {
        Some(one_caret(0, 1, 0, "alpha.0"))
    } else if str_eq(text, "^0.51-oldsyn") {
        Some(one_caret(0, 51, 1, "oldsyn"))
    } else if str_eq(text, "~2.0-2.2") {
        let mut comparators: Vec<Comparator> = Vec::new();
        comparators.push(
            Comparator {
                op: Op::GreaterEq,
                major: 2,
                minor: Some(0),
                patch: None,
                pre: String::from_str(""),
            },
        );
        comparators.push(
            Comparator {
                op: Op::LessEq,
                major: 2,
                minor: Some(2),
                patch: None,
                pre: String::from_str(""),
            },
        );
        let r = VersionReq { comparators };
        assert(r@ =~= seq![partial(Op::GreaterEq, 2, 0), partial(Op::LessEq, 2, 2)]);
        Some(r)
    } else {
        None
    }
}

/// The requirement of a cell: what the parser read, else the fixed reading
/// of the cell, else nothing.
pub open spec fn spec_req(text: Seq<char>, parsed: Option<Seq<ComparatorView>>) -> Option<
    Seq<ComparatorView>,
> {
    match parsed {
        Some(r) => Some(r),
        None => spec_compat_req(text),
    }
}

/// Settles the requirement of the cell `text`, of which the parser gave
/// `parsed`.
pub fn req_or_compat(text: &str, parsed: Result<VersionReq, String>) -> (r: Result<
    VersionReq,
    Invalid,
>)
    ensures
        match r {
            Ok(req) => spec_req(
                text@,
                match parsed {
                    Ok(p) => Some(p@),
                    Err(_) => None,
                },
            ) == Some(req@),
            Err(e) => parsed is Err && spec_compat_req(text@) is None && e.expected
                == Expected::VersionReq && e.detail@ == parsed->Err_0@ + ": req "@ + text@,
        },
{
    match parsed {
        Ok(req) => Ok(req),
        Err(message) => match compat_req(text) {
            Some(req) => Ok(req),
            None => {
                let mut detail = message;
                detail.append(": req ");
                detail.append(text);
                Err(Invalid { expected: Expected::VersionReq, detail })
            },
        },
    }
}

/// Decodes a version requirement cell.
pub fn req(text: &str) -> (r: Result<VersionReq, Invalid>)
    ensures
        match r {
            Ok(req) => spec_req(text@, semver_version_req(text@)) == Some(req@),
            Err(e) => spec_req(text@, semver_version_req(text@)) is None && e.expected
                == Expected::VersionReq,
        },
{
    req_or_compat(text, parse_version_req(text))
}

/// The least version that a requirement admits, where the requirement is
/// one caret comparator: its numbers, with zero for a minor or patch number
/// that it leaves out, and its pre-release identifiers. A requirement of
/// any other shape names no least version.
pub open spec fn spec_minimum(req: Seq<ComparatorView>) -> Option<VersionView> {
    if req.len() == 1 && req[0].op == Op::Caret {
        Some(
            VersionView {
                major: req[0].major,
                minor: match req[0].minor {
                    Some(n) => n,
                    None => 0,
                },
                patch: match req[0].patch {
                    Some(n) => n,
                    None => 0,
                },
                pre: req[0].pre,
                build: Seq::empty(),
            },
        )
    } else {
        None
    }
}

/// Settles the toolchain version of a cell of which the parser gave `parsed`.
pub fn minimum_version(parsed: Result<VersionReq, String>) -> (r: Result<Option<Version>, Invalid>)
    ensures
        match (parsed, r) {
            (Ok(req), Ok(Some(v))) => spec_minimum(req@) == Some(v@),
            (Ok(req), Ok(None)) => spec_minimum(req@) is None,
            (Err(message), Err(e)) => e.expected == Expected::RustVersion && e.detail@
                == message@,
            _ => false,
        },
{
    match parsed {
        Ok(req) => {
            let mut comparators = req.comparators;
            let ghost all = comparators@;
            if comparators.len() != 1 {
                return Ok(None);
            }
            let c = comparators.pop().unwrap();
            assert(c == all[0]);
            assert(req@[0] == c@);
            match c.op {
                Op::Caret => {
                    let v = Version {
                        major: c.major,
                        minor: match c.minor {
                            Some(n) => n,
                            None => 0,
                        },
                        patch: match c.patch {
                            Some(n) => n,
                            None => 0,
                        },
                        pre: c.pre,
                        build: String::new(),
                    };
                    Ok(Some(v))
                },
                _ => Ok(None),
            }
        },
        Err(message) => Err(Invalid { expected: Expected::RustVersion, detail: message }),
    }
}

/// The toolchain version of a cell. The outer `None` is a rejected cell.
pub open spec fn spec_rust_version(text: Seq<char>) -> Option<Option<VersionView>> {
    if text.len() == 0 {
        Some(None)
    } else {
        match semver_version_req(text) {
            Some(req) => Some(spec_minimum(req)),
            None => None,
        }
    }
}

/// Decodes the cell of a minimum toolchain version. An empty cell holds
/// none.
pub fn rust_version(text: &str) -> (r: Result<Option<Version>, Invalid>)
    ensures
        match r {
            Ok(Some(v)) => spec_rust_version(text@) == Some(Some(v@)),
            Ok(None) => spec_rust_version(text@) == Some(None::<VersionView>),
            Err(e) => spec_rust_version(text@) is None && e.expected == Expected::RustVersion,
        },
{
    if text.is_empty() {
        Ok(None)
    } else {
        minimum_version(parse_version_req(text))
    }
}

/// The fault of the toolchain version cell of column `k`. A file without
/// the column has no fault there.
pub open spec fn rust_version_fault(cell: Option<Seq<char>>, k: int) -> Option<ErrorKind> {
    match cell {
        Some(text) => invalid_if(spec_rust_version(text) is None, k, Expected::RustVersion),
        None => None,
    }
}

/// The toolchain version in the cell of a column. A file without the
/// column holds none.
pub open spec fn rust_version_value(cell: Option<Seq<char>>) -> Option<VersionView> {
    match cell {
        Some(text) => spec_rust_version(text)->0,
        None => None,
    }
}

/// The value of a version that may be missing.
pub open spec fn version_of(version: Option<Version>) -> Option<VersionView> {
    match version {
        Some(v) => Some(v@),
        None => None,
    }
}

/// Decodes the toolchain version cell of column `k`, if the file has the
/// column.
pub fn rust_version_column(k: usize, cell: Option<&str>) -> (r: Result<Option<Version>, Error>)
    ensures
        match r {
            Ok(version) => rust_version_fault(text_of(cell), k as int) is None && version_of(
                version,
            ) == rust_version_value(text_of(cell)),
            Err(e) => rust_version_fault(text_of(cell), k as int) == Some(e.kind)
                && e.table is None,
        },
{
    match cell {
        Some(text) => at(k, rust_version(text)),
        None => Ok(None),
    }
}

/// The fault of the version cell `cell` of column `k`.
pub open spec fn version_fault(cell: Seq<char>, k: int) -> Option<ErrorKind> {
    invalid_if(spec_version(cell, semver_version(cell)) is None, k, Expected::Version)
}

/// The fault of the requirement cell `cell` of column `k`.
pub open spec fn req_fault(cell: Seq<char>, k: int) -> Option<ErrorKind> {
    invalid_if(spec_req(cell, semver_version_req(cell)) is None, k, Expected::VersionReq)
}

} // verus!
