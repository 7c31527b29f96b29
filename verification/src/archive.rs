//! A dump as it is delivered: a gzip-compressed tar archive that holds one
//! file of delimited text per table.
//!
//! The tar, flate2 and csv crates do the reading. Their readers are generic
//! over `std::io::Read`, so each is kept here in a type of this crate that
//! says nothing of what is inside.
//!
//! What the readers hand out goes by the bytes of the archive alone: which
//! entries there are, and the header row and the rows of each. These are
//! given names here, and each reader is said to stand at a place in them.

use vstd::prelude::*;
use crate::record::texts;

verus! {

/// A `tar::Archive` over the gzip stream in a slice of bytes.
#[verifier::external_body]
pub struct Archive<'a> {
    inner: ::tar::Archive<::flate2::read::GzDecoder<&'a [u8]>>,
}

/// The `tar::Entries` of an [`Archive`]: the entries that were not handed
/// out yet, in archive order.
#[verifier::external_body]
pub struct Entries<'e, 'a> {
    inner: ::tar::Entries<'e, ::flate2::read::GzDecoder<&'a [u8]>>,
}

/// One `tar::Entry`: a path and a stream of bytes.
///
/// All entries of an archive read from the one stream of the archive, so
/// that an entry can be read only until the next one is taken. An entry
/// therefore borrows the [`Entries`] that handed it out, for `'s`: while
/// it lives, or a reader of its rows, nothing more is taken from them.
#[verifier::external_body]
pub struct Entry<'s, 'e, 'a> {
    inner: ::tar::Entry<'e, ::flate2::read::GzDecoder<&'a [u8]>>,
    held: core::marker::PhantomData<&'s mut Entries<'e, 'a>>,
}

/// A `csv::Reader` over the bytes of an [`Entry`]: the rows that were not
/// handed out yet. It holds the borrow of its entry.
#[verifier::external_body]
pub struct Rows<'s, 'e, 'a> {
    inner: ::csv::Reader<::tar::Entry<'e, ::flate2::read::GzDecoder<&'a [u8]>>>,
    held: core::marker::PhantomData<&'s mut Entries<'e, 'a>>,
}

/// What the entries of an archive have at one place.
pub enum Turn {
    /// The archive has no such entry: it ends there.
    End,
    /// The archive cannot be read there.
    Fails,
    /// The archive has an entry there.
    Gives,
}

/// What tar finds at place `k` among the entries of the archive in
/// `bytes`.
pub uninterp spec fn entry_at(bytes: Seq<u8>, k: nat) -> Turn;

/// The path of the entry at place `k` of the archive in `bytes`, as text:
/// the bytes that tar has for it, with each part that is no UTF-8 replaced
/// by the replacement character.
pub uninterp spec fn path_at(bytes: Seq<u8>, k: nat) -> Seq<char>;

/// The header row that csv finds when it starts to read the entry at place
/// `k` of the archive in `bytes`; `None` where it reports an error.
pub uninterp spec fn headers_at(bytes: Seq<u8>, k: nat) -> Option<Seq<Seq<char>>>;

/// The row that csv finds at place `j` after the header row of the entry
/// at place `k` of the archive in `bytes`: `Some(None)` where the entry
/// ends, and `None` where csv reports an error.
pub uninterp spec fn row_at(bytes: Seq<u8>, k: nat, j: nat) -> Option<Option<Seq<Seq<char>>>>;

/// Whether nothing was read of `archive` yet.
pub uninterp spec fn untouched(archive: Archive) -> bool;

/// The bytes that `archive` is over.
pub uninterp spec fn archive_bytes(archive: Archive) -> Seq<u8>;

/// The bytes of the archive of `entries`, and the place of the entry that
/// `entries` hands out next.
pub uninterp spec fn entries_state(entries: Entries) -> (Seq<u8>, nat);

/// The bytes of the archive of `entry`, and the place of the entry.
pub uninterp spec fn entry_state(entry: Entry) -> (Seq<u8>, nat);

/// The bytes of the archive of `rows`, the place of the entry, and the
/// place of the row that `rows` hands out next.
pub uninterp spec fn rows_state(rows: Rows) -> (Seq<u8>, nat, nat);

/// How many more times `entries` hands out an entry or an error before it
/// reports the end of the archive.
pub uninterp spec fn entries_left(entries: Entries) -> nat;

/// How many more rows `rows` hands out.
pub uninterp spec fn rows_left(rows: Rows) -> nat;

/// `flate2::read::GzDecoder::new` and `tar::Archive::new`: an archive over
/// `bytes`, of which nothing was read yet.
#[verifier::external_body]
pub(crate) fn open<'a>(bytes: &'a [u8]) -> (r: Archive<'a>)
    ensures
        archive_bytes(r) == bytes@,
        untouched(r),
{
    Archive { inner: ::tar::Archive::new(::flate2::read::GzDecoder::new(bytes)) }
}

/// `tar::Archive::entries`: the entries of the archive from the first one
/// on, or the message of the error that tar reports, which it does only
/// of an archive of which something was read before.
#[verifier::external_body]
pub(crate) fn entries<'e, 'a>(archive: &'e mut Archive<'a>) -> (r: Result<
    Entries<'e, 'a>,
    String,
>)
    ensures
        untouched(*old(archive)) ==> r is Ok,
        r matches Ok(entries) ==> entries_state(entries) == (archive_bytes(*old(archive)), 0nat),
{
    match archive.inner.entries() {
        Ok(inner) => Ok(Entries { inner }),
        Err(e) => Err(e.to_string()),
    }
}

/// `Iterator::next` of `tar::Entries`: the next entry, or the message of
/// the error that tar reports, or `None` at the end of the archive, as the
/// archive has it at the place where the entries stand. Each entry that
/// is handed out leaves fewer to come, and the entries then stand at the
/// next place. The entry keeps the entries borrowed, so that they are
/// asked again only when the entry and the reader of its rows are gone.
#[verifier::external_body]
pub(crate) fn next_entry<'s, 'e, 'a>(entries: &'s mut Entries<'e, 'a>) -> (
    r: Option<Result<Entry<'s, 'e, 'a>, String>>
)
    ensures
        r is Some ==> entries_left(*final(entries)) < entries_left(*old(entries)),
        match r {
            Some(Ok(entry)) => {
                &&& entry_at(entries_state(*old(entries)).0, entries_state(*old(entries)).1)
                    is Gives
                &&& entry_state(entry) == entries_state(*old(entries))
                &&& entries_state(*final(entries)) == (
                    entries_state(*old(entries)).0,
                    (entries_state(*old(entries)).1 + 1) as nat,
                )
            },
            Some(Err(_)) => entry_at(
                entries_state(*old(entries)).0,
                entries_state(*old(entries)).1,
            ) is Fails,
            None => entry_at(entries_state(*old(entries)).0, entries_state(*old(entries)).1)
                is End,
        },
{
    match entries.inner.next() {
        Some(Ok(inner)) => Some(Ok(Entry { inner, held: core::marker::PhantomData })),
        Some(Err(e)) => Some(Err(e.to_string())),
        None => None,
    }
}

/// `tar::Entry::path_bytes`, made text with `String::from_utf8_lossy`: the
/// path of the entry, as the archive has it at the place of the entry.
#[verifier::external_body]
pub(crate) fn path(entry: &Entry) -> (r: String)
    ensures
        r@ == path_at(entry_state(*entry).0, entry_state(*entry).1),
{
    String::from_utf8_lossy(&entry.inner.path_bytes()).into_owned()
}

/// `csv::Reader::from_reader`: a reader of the rows of an entry, of which
/// nothing was read yet.
#[verifier::external_body]
pub(crate) fn rows<'s, 'e, 'a>(entry: Entry<'s, 'e, 'a>) -> (r: Rows<'s, 'e, 'a>)
    ensures
        rows_state(r) == (entry_state(entry).0, entry_state(entry).1, 0nat),
{
    Rows { inner: ::csv::Reader::from_reader(entry.inner), held: entry.held }
}

/// `csv::Reader::headers`: the cells of the first row of the entry, or the
/// message of the error that csv reports. Where it gives the cells, the
/// reader stays where it stands among the rows after the first; after an
/// error nothing is said of where the reader stands.
#[verifier::external_body]
pub(crate) fn headers(rows: &mut Rows) -> (r: Result<Vec<String>, String>)
    ensures
        r is Ok ==> rows_state(*final(rows)) == rows_state(*old(rows)),
        match r {
            Ok(cells) => headers_at(rows_state(*old(rows)).0, rows_state(*old(rows)).1) == Some(
                texts(cells@),
            ),
            Err(_) => headers_at(rows_state(*old(rows)).0, rows_state(*old(rows)).1) is None,
        },
{
    match rows.inner.headers() {
        Ok(record) => Ok(record.iter().map(str::to_owned).collect()),
        Err(e) => Err(e.to_string()),
    }
}

/// `csv::Reader::read_record`: the cells of the next row after the first,
/// or `None` at the end of the file, or the message of the error that csv
/// reports, as the entry has it at the place where the reader stands.
/// Each row that is handed out leaves fewer to come, and the reader then
/// stands at the next place.
#[verifier::external_body]
pub(crate) fn next_row(rows: &mut Rows) -> (r: Result<Option<Vec<String>>, String>)
    ensures
        r matches Ok(Some(_)) ==> rows_left(*final(rows)) < rows_left(*old(rows)),
        match r {
            Ok(Some(cells)) => {
                &&& row_at(
                    rows_state(*old(rows)).0,
                    rows_state(*old(rows)).1,
                    rows_state(*old(rows)).2,
                ) == Some(Some(texts(cells@)))
                &&& rows_state(*final(rows)) == (
                    rows_state(*old(rows)).0,
                    rows_state(*old(rows)).1,
                    (rows_state(*old(rows)).2 + 1) as nat,
                )
            },
            Ok(None) => row_at(
                rows_state(*old(rows)).0,
                rows_state(*old(rows)).1,
                rows_state(*old(rows)).2,
            ) == Some(None::<Seq<Seq<char>>>),
            Err(_) => row_at(
                rows_state(*old(rows)).0,
                rows_state(*old(rows)).1,
                rows_state(*old(rows)).2,
            ) is None,
        },
{
    let mut record = ::csv::StringRecord::new();
    match rows.inner.read_record(&mut record) {
        Ok(true) => Ok(Some(record.iter().map(str::to_owned).collect())),
        Ok(false) => Ok(None),
        Err(e) => Err(e.to_string()),
    }
}

} // verus!
