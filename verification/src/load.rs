//! The loader: it walks an archive once, decodes the tables that a
//! consumer was registered for, and hands each record to that consumer.

use vstd::prelude::*;
use crate::archive::{
    entries, entries_left, entries_state, entry_at, entry_state, headers, headers_at, next_entry,
    next_row, open, path, row_at, rows, rows_left, rows_state, Entry,
};
use crate::error::{Error, ErrorKind};
use crate::plan::{
    accounted, all_follow, cells_fault, decoded, ends, file_name, follows, lemma_accounted_end,
    lemma_accounted_step, lemma_mirrored_end, lemma_mirrored_step, lemma_notes_has,
    lemma_notes_step, lemma_selects_one, lemma_sound_step, loadable, log_mirrors, log_of,
    mirrored, notes, nothing, read_before, reads, select, selects, sound_file, spec_action,
    step_accounted, step_mirrors, waits, Action, Log, Selection, Step,
};
use crate::record::{
    layout_of, lemma_schema_fault_unique, record_fault, schema_ok, texts, FromRecord, Layout,
    LayoutView,
};
use crate::table::Table;
use crate::text::text_of;
use crate::DbDump;

verus! {

/// What receives the records of one table: it is handed each record of the
/// table once, in the order of the rows.
pub trait Consumer<T> {
    /// Whether the consumer is in order, so that it can take a record.
    spec fn ready(&self) -> bool;

    /// The records that the consumer was handed so far, in the order in
    /// which it was handed them.
    spec fn received(&self) -> Seq<T>;

    /// Takes one record.
    fn consume(&mut self, record: T)
        requires
            old(self).ready(),
        ensures
            final(self).ready(),
            final(self).received() == old(self).received().push(record),
    ;
}

/// A consumer that calls a function with each record.
#[verifier::reject_recursive_types(T)]
pub struct Each<T, F: FnMut(T)> {
    f: F,
    seen: Ghost<Seq<T>>,
}

impl<T, F: FnMut(T)> Each<T, F> {
    /// A consumer that calls `f`, which must take every record.
    pub fn new(f: F) -> (r: Self)
        requires
            forall|record: T| #[trigger] f.requires((record,)),
        ensures
            r.ready(),
            r.received() == Seq::<T>::empty(),
    {
        Each { f, seen: Ghost(Seq::empty()) }
    }
}

impl<T, F: FnMut(T)> Consumer<T> for Each<T, F> {
    closed spec fn ready(&self) -> bool {
        forall|record: T| #[trigger] self.f.requires((record,))
    }

    closed spec fn received(&self) -> Seq<T> {
        self.seen@
    }

    fn consume(&mut self, record: T) {
        let ghost copy = record;
        let ghost seen = self.seen@;
        (self.f)(record);
        self.seen = Ghost(seen.push(copy));
    }
}

/// A consumer that appends each record to a list.
pub struct Append<'v, T> {
    rows: &'v mut Vec<T>,
    seen: Ghost<Seq<T>>,
}

impl<'v, T> Append<'v, T> {
    /// What the list holds now.
    pub closed spec fn list(&self) -> Seq<T> {
        (*self.rows)@
    }

    /// The list that the consumer appends to.
    pub closed spec fn target(&self) -> &'v mut Vec<T> {
        self.rows
    }

    /// A consumer that appends to `rows`: what it is handed is found in
    /// `rows`, after what `rows` holds now, once the consumer is gone.
    pub fn new(rows: &'v mut Vec<T>) -> (r: Self)
        ensures
            r.list() == old(rows)@,
            r.ready(),
            r.received() == Seq::<T>::empty(),
            *final(r.target()) == *final(rows),
    {
        Append { rows, seen: Ghost(Seq::empty()) }
    }
}

impl<'v, T> Consumer<T> for Append<'v, T> {
    closed spec fn ready(&self) -> bool {
        true
    }

    closed spec fn received(&self) -> Seq<T> {
        self.seen@
    }

    fn consume(&mut self, record: T)
        ensures
            final(self).list() == old(self).list().push(record),
            *final(final(self).target()) == *final(old(self).target()),
    {
        let ghost copy = record;
        let ghost seen = self.seen@;
        self.rows.push(record);
        self.seen = Ghost(seen.push(copy));
    }
}

/// A consumer that keeps the last record.
pub struct Keep<'v, T> {
    slot: &'v mut T,
    seen: Ghost<Seq<T>>,
}

impl<'v, T> Keep<'v, T> {
    /// What the place holds now.
    pub closed spec fn value(&self) -> T {
        *self.slot
    }

    /// The place that the consumer writes to.
    pub closed spec fn target(&self) -> &'v mut T {
        self.slot
    }

    /// A consumer that writes to `slot`: the last record that it is handed
    /// is found in `slot` once the consumer is gone, and what `slot` holds
    /// now if it is handed none.
    pub fn new(slot: &'v mut T) -> (r: Self)
        ensures
            r.value() == *old(slot),
            r.ready(),
            r.received() == Seq::<T>::empty(),
            *final(r.target()) == *final(slot),
    {
        Keep { slot, seen: Ghost(Seq::empty()) }
    }
}

impl<'v, T> Consumer<T> for Keep<'v, T> {
    closed spec fn ready(&self) -> bool {
        true
    }

    closed spec fn received(&self) -> Seq<T> {
        self.seen@
    }

    fn consume(&mut self, record: T)
        ensures
            final(self).value() == record,
            *final(final(self).target()) == *final(old(self).target()),
    {
        let ghost copy = record;
        let ghost seen = self.seen@;
        *self.slot = record;
        self.seen = Ghost(seen.push(copy));
    }
}

/// Whether `kind` is what is wrong with a row of `T` under `layout`.
pub open spec fn row_fault<T: FromRecord>(
    layout: LayoutView,
    row: Seq<Seq<char>>,
    kind: ErrorKind,
) -> bool {
    if row.len() != layout.width {
        kind == ErrorKind::UnequalLengths
    } else {
        T::fault(layout, row) == Some(kind)
    }
}

/// Decodes one row of the table of `T`. An error names the table.
pub fn decode_row<T: FromRecord>(layout: &Layout, row: &Vec<String>) -> (r: Result<T, Error>)
    requires
        layout@.table == T::table(),
    ensures
        match r {
            Ok(record) => row.len() == layout@.width && T::fault(layout@, texts(row@)) is None
                && record.holds(layout@, texts(row@)),
            Err(e) => e.table == Some(T::table()) && row_fault::<T>(layout@, texts(row@), e.kind)
                && (e.kind is UnequalLengths || e.kind is Invalid),
        },
{
    match layout.check_width(row) {
        Ok(_) => {},
        Err(e) => {
            return Err(e.in_table(T::source()));
        },
    }
    match T::decode(layout, row) {
        Ok(record) => Ok(record),
        Err(e) => Err(e.in_table(T::source())),
    }
}

/// Whether `rows` are, in order, the records of the rows of `log`.
pub open spec fn gathered<T: FromRecord>(log: Log, rows: Seq<T>) -> bool {
    &&& rows.len() == log.rows.len()
    &&& forall|k: int|
        0 <= k < rows.len() ==> (#[trigger] rows[k]).holds(
            layout_of(T::table(), log.headers),
            log.rows[k],
        )
}

/// Whether `db` holds for `table` the records of the rows of `log`. The
/// one record of `metadata.csv` is that of the last row, and a total of
/// zero where the file has no row.
pub open spec fn table_holds(db: DbDump, table: Table, log: Log) -> bool {
    match table {
        Table::Categories => gathered::<crate::categories::Row>(log, db.categories@),
        Table::CrateDownloads => gathered::<crate::crate_downloads::Row>(log, db.crate_downloads@),
        Table::CrateOwners => gathered::<crate::crate_owners::Row>(log, db.crate_owners@),
        Table::Crates => gathered::<crate::crates::Row>(log, db.crates@),
        Table::CratesCategories => gathered::<crate::crates_categories::Row>(
            log, db.crates_categories@,
        ),
        Table::CratesKeywords => gathered::<crate::crates_keywords::Row>(log, db.crates_keywords@),
        Table::Dependencies => gathered::<crate::dependencies::Row>(log, db.dependencies@),
        Table::Keywords => gathered::<crate::keywords::Row>(log, db.keywords@),
        Table::Metadata => if log.rows.len() == 0 {
            db.metadata.total_downloads == 0
        } else {
            db.metadata.holds(layout_of(Table::Metadata, log.headers), log.rows.last())
        },
        Table::ReservedCrateNames => gathered::<crate::reserved_crate_names::Row>(
            log, db.reserved_crate_names@,
        ),
        Table::Teams => gathered::<crate::teams::Row>(log, db.teams@),
        Table::Users => gathered::<crate::users::Row>(log, db.users@),
        Table::VersionDownloads => gathered::<crate::version_downloads::Row>(
            log, db.version_downloads@,
        ),
        Table::Versions => gathered::<crate::versions::Row>(log, db.versions@),
        _ => true,
    }
}

/// What the consumers of the tables have received, table by table, each
/// in the order in which it was handed its records.
pub struct Received {
    pub categories: Seq<crate::categories::Row>,
    pub crate_downloads: Seq<crate::crate_downloads::Row>,
    pub crate_owners: Seq<crate::crate_owners::Row>,
    pub crates: Seq<crate::crates::Row>,
    pub crates_categories: Seq<crate::crates_categories::Row>,
    pub crates_keywords: Seq<crate::crates_keywords::Row>,
    pub dependencies: Seq<crate::dependencies::Row>,
    pub keywords: Seq<crate::keywords::Row>,
    pub metadata: Seq<crate::metadata::Row>,
    pub reserved_crate_names: Seq<crate::reserved_crate_names::Row>,
    pub teams: Seq<crate::teams::Row>,
    pub users: Seq<crate::users::Row>,
    pub version_downloads: Seq<crate::version_downloads::Row>,
    pub versions: Seq<crate::versions::Row>,
}

/// What consumers have received that were handed nothing.
pub open spec fn none_received() -> Received {
    Received {
        categories: Seq::empty(),
        crate_downloads: Seq::empty(),
        crate_owners: Seq::empty(),
        crates: Seq::empty(),
        crates_categories: Seq::empty(),
        crates_keywords: Seq::empty(),
        dependencies: Seq::empty(),
        keywords: Seq::empty(),
        metadata: Seq::empty(),
        reserved_crate_names: Seq::empty(),
        teams: Seq::empty(),
        users: Seq::empty(),
        version_downloads: Seq::empty(),
        versions: Seq::empty(),
    }
}

/// Whether `after` is `before` and then, in the order of the rows, the
/// records of the rows of `log` that are decoded.
pub open spec fn extended<T: FromRecord>(before: Seq<T>, after: Seq<T>, log: Log) -> bool {
    let rows = decoded(T::table(), log);
    &&& after.len() == before.len() + rows.len()
    &&& forall|k: int| 0 <= k < before.len() ==> #[trigger] after[k] == before[k]
    &&& forall|k: int|
        before.len() <= k < after.len() ==> (#[trigger] after[k]).holds(
            layout_of(T::table(), log.headers),
            rows[k - before.len()],
        )
}

/// Whether the consumer of `table` has received, after what it had
/// received in `before`, the records of the rows of `log` that are
/// decoded, one for each row and in the order of the rows, and with that
/// has what it has in `after`.
pub open spec fn hands(before: Received, after: Received, table: Table, log: Log) -> bool {
    match table {
        Table::Categories => extended::<crate::categories::Row>(
            before.categories, after.categories, log,
        ),
        Table::CrateDownloads => extended::<crate::crate_downloads::Row>(
            before.crate_downloads, after.crate_downloads, log,
        ),
        Table::CrateOwners => extended::<crate::crate_owners::Row>(
            before.crate_owners, after.crate_owners, log,
        ),
        Table::Crates => extended::<crate::crates::Row>(before.crates, after.crates, log),
        Table::CratesCategories => extended::<crate::crates_categories::Row>(
            before.crates_categories, after.crates_categories, log,
        ),
        Table::CratesKeywords => extended::<crate::crates_keywords::Row>(
            before.crates_keywords, after.crates_keywords, log,
        ),
        Table::Dependencies => extended::<crate::dependencies::Row>(
            before.dependencies, after.dependencies, log,
        ),
        Table::Keywords => extended::<crate::keywords::Row>(before.keywords, after.keywords, log),
        Table::Metadata => extended::<crate::metadata::Row>(before.metadata, after.metadata, log),
        Table::ReservedCrateNames => extended::<crate::reserved_crate_names::Row>(
            before.reserved_crate_names, after.reserved_crate_names, log,
        ),
        Table::Teams => extended::<crate::teams::Row>(before.teams, after.teams, log),
        Table::Users => extended::<crate::users::Row>(before.users, after.users, log),
        Table::VersionDownloads => extended::<crate::version_downloads::Row>(
            before.version_downloads, after.version_downloads, log,
        ),
        Table::Versions => extended::<crate::versions::Row>(before.versions, after.versions, log),
        _ => true,
    }
}

/// A record that has its place in a [`DbDump`].
trait Stored: FromRecord {
    /// What the consumer of the table has received where it has received
    /// `rows`.
    spec fn only(rows: Seq<Self>) -> Received;

    /// What is said of the records of the table is said of what its
    /// consumer has received.
    proof fn lemma_only(before: Seq<Self>, after: Seq<Self>, log: Log)
        requires
            extended::<Self>(before, after, log),
        ensures
            hands(Self::only(before), Self::only(after), Self::table(), log),
    ;

    /// Puts the records of a table that was read to the end in their
    /// place in `db`, which held nothing of the table.
    fn store(db: &mut DbDump, rows: Vec<Self>, Ghost(log): Ghost<Log>)
        requires
            gathered::<Self>(log, rows@),
            table_holds(*old(db), Self::table(), nothing()),
        ensures
            table_holds(*final(db), Self::table(), log),
            forall|t: Table, l: Log|
                t != Self::table() ==> #[trigger] table_holds(*final(db), t, l) == table_holds(
                    *old(db),
                    t,
                    l,
                ),
    ;
}

impl Stored for crate::categories::Row {
    closed spec fn only(rows: Seq<Self>) -> Received {
        Received { categories: rows, ..none_received() }
    }

    proof fn lemma_only(before: Seq<Self>, after: Seq<Self>, log: Log) {
    }

    fn store(db: &mut DbDump, rows: Vec<Self>, Ghost(log): Ghost<Log>) {
        db.categories = rows;
    }
}

impl Stored for crate::crate_downloads::Row {
    closed spec fn only(rows: Seq<Self>) -> Received {
        Received { crate_downloads: rows, ..none_received() }
    }

    proof fn lemma_only(before: Seq<Self>, after: Seq<Self>, log: Log) {
    }

    fn store(db: &mut DbDump, rows: Vec<Self>, Ghost(log): Ghost<Log>) {
        db.crate_downloads = rows;
    }
}

impl Stored for crate::crate_owners::Row {
    closed spec fn only(rows: Seq<Self>) -> Received {
        Received { crate_owners: rows, ..none_received() }
    }

    proof fn lemma_only(before: Seq<Self>, after: Seq<Self>, log: Log) {
    }

    fn store(db: &mut DbDump, rows: Vec<Self>, Ghost(log): Ghost<Log>) {
        db.crate_owners = rows;
    }
}

impl Stored for crate::crates::Row {
    closed spec fn only(rows: Seq<Self>) -> Received {
        Received { crates: rows, ..none_received() }
    }

    proof fn lemma_only(before: Seq<Self>, after: Seq<Self>, log: Log) {
    }

    fn store(db: &mut DbDump, rows: Vec<Self>, Ghost(log): Ghost<Log>) {
        db.crates = rows;
    }
}

impl Stored for crate::crates_categories::Row {
    closed spec fn only(rows: Seq<Self>) -> Received {
        Received { crates_categories: rows, ..none_received() }
    }

    proof fn lemma_only(before: Seq<Self>, after: Seq<Self>, log: Log) {
    }

    fn store(db: &mut DbDump, rows: Vec<Self>, Ghost(log): Ghost<Log>) {
        db.crates_categories = rows;
    }
}

impl Stored for crate::crates_keywords::Row {
    closed spec fn only(rows: Seq<Self>) -> Received {
        Received { crates_keywords: rows, ..none_received() }
    }

    proof fn lemma_only(before: Seq<Self>, after: Seq<Self>, log: Log) {
    }

    fn store(db: &mut DbDump, rows: Vec<Self>, Ghost(log): Ghost<Log>) {
        db.crates_keywords = rows;
    }
}

impl Stored for crate::dependencies::Row {
    closed spec fn only(rows: Seq<Self>) -> Received {
        Received { dependencies: rows, ..none_received() }
    }

    proof fn lemma_only(before: Seq<Self>, after: Seq<Self>, log: Log) {
    }

    fn store(db: &mut DbDump, rows: Vec<Self>, Ghost(log): Ghost<Log>) {
        db.dependencies = rows;
    }
}

impl Stored for crate::keywords::Row {
    closed spec fn only(rows: Seq<Self>) -> Received {
        Received { keywords: rows, ..none_received() }
    }

    proof fn lemma_only(before: Seq<Self>, after: Seq<Self>, log: Log) {
    }

    fn store(db: &mut DbDump, rows: Vec<Self>, Ghost(log): Ghost<Log>) {
        db.keywords = rows;
    }
}

impl Stored for crate::metadata::Row {
    closed spec fn only(rows: Seq<Self>) -> Received {
        Received { metadata: rows, ..none_received() }
    }

    proof fn lemma_only(before: Seq<Self>, after: Seq<Self>, log: Log) {
    }

    fn store(db: &mut DbDump, rows: Vec<Self>, Ghost(log): Ghost<Log>) {
        let mut rows = rows;
        match rows.pop() {
            Some(last) => {
                db.metadata = last;
            },
            None => {},
        }
    }
}

impl Stored for crate::reserved_crate_names::Row {
    closed spec fn only(rows: Seq<Self>) -> Received {
        Received { reserved_crate_names: rows, ..none_received() }
    }

    proof fn lemma_only(before: Seq<Self>, after: Seq<Self>, log: Log) {
    }

    fn store(db: &mut DbDump, rows: Vec<Self>, Ghost(log): Ghost<Log>) {
        db.reserved_crate_names = rows;
    }
}

impl Stored for crate::teams::Row {
    closed spec fn only(rows: Seq<Self>) -> Received {
        Received { teams: rows, ..none_received() }
    }

    proof fn lemma_only(before: Seq<Self>, after: Seq<Self>, log: Log) {
    }

    fn store(db: &mut DbDump, rows: Vec<Self>, Ghost(log): Ghost<Log>) {
        db.teams = rows;
    }
}

impl Stored for crate::users::Row {
    closed spec fn only(rows: Seq<Self>) -> Received {
        Received { users: rows, ..none_received() }
    }

    proof fn lemma_only(before: Seq<Self>, after: Seq<Self>, log: Log) {
    }

    fn store(db: &mut DbDump, rows: Vec<Self>, Ghost(log): Ghost<Log>) {
        db.users = rows;
    }
}

impl Stored for crate::version_downloads::Row {
    closed spec fn only(rows: Seq<Self>) -> Received {
        Received { version_downloads: rows, ..none_received() }
    }

    proof fn lemma_only(before: Seq<Self>, after: Seq<Self>, log: Log) {
    }

    fn store(db: &mut DbDump, rows: Vec<Self>, Ghost(log): Ghost<Log>) {
        db.version_downloads = rows;
    }
}

impl Stored for crate::versions::Row {
    closed spec fn only(rows: Seq<Self>) -> Received {
        Received { versions: rows, ..none_received() }
    }

    proof fn lemma_only(before: Seq<Self>, after: Seq<Self>, log: Log) {
    }

    fn store(db: &mut DbDump, rows: Vec<Self>, Ghost(log): Ghost<Log>) {
        db.versions = rows;
    }
}

/// One table's side of a load: a consumer, whether the table was read to
/// the end, and what the load handed to the consumer.
trait Slot {
    /// The table of the slot.
    spec fn table(&self) -> Table;

    /// Whether the table was read to the end.
    spec fn done(&self) -> bool;

    /// Whether the load in progress handed nothing to the consumer yet.
    spec fn idle(&self) -> bool;

    /// Whether the slot is in order: its rows are decoded as the rows of
    /// its table are, and what it handed on are the records of the rows
    /// of its log.
    spec fn sound(&self) -> bool;

    /// What the slot read in the load in progress.
    spec fn log(&self) -> Log;

    /// Whether the slot keeps the records itself.
    spec fn gathers(&self) -> bool;

    /// What the consumer of the slot has received.
    spec fn received(&self) -> Received;

    fn is_done(&self) -> (r: bool)
        ensures
            r == self.done(),
    ;

    /// Makes the table wait for its rows.
    fn begin(&mut self)
        requires
            old(self).sound(),
        ensures
            final(self).table() == old(self).table(),
            final(self).gathers() == old(self).gathers(),
            final(self).sound(),
            final(self).log() == nothing(),
            !final(self).done(),
            final(self).idle(),
            final(self).received() == old(self).received(),
    ;

    /// Reads the rows of an entry to the end and hands each record to the
    /// consumer. The header row is held to the schema when the first row
    /// after it is decoded.
    fn read(&mut self, entry: Entry) -> (r: (Result<(), Error>, Ghost<Log>))
        requires
            old(self).sound(),
            !old(self).done(),
            old(self).idle(),
        ensures
            final(self).table() == old(self).table(),
            final(self).gathers() == old(self).gathers(),
            final(self).sound(),
            final(self).log() == r.1@,
            match r.0 {
                Ok(_) => final(self).done(),
                Err(e) => !final(self).done() && e.table == Some(old(self).table())
                    && e.kind.of_table(),
            },
            reads(r.1@, old(self).table(), r.0),
            log_mirrors(entry_state(entry).0, entry_state(entry).1, r.1@, r.0),
            !old(self).gathers() ==> hands(
                old(self).received(),
                final(self).received(),
                old(self).table(),
                r.1@,
            ),
    ;

    /// Moves the records that the slot kept of a table that it read to the
    /// end into `db`, and makes the slot wait again.
    fn take_into(&mut self, db: &mut DbDump)
        requires
            old(self).sound(),
            table_holds(*old(db), old(self).table(), nothing()),
        ensures
            final(self).table() == old(self).table(),
            final(self).gathers() == old(self).gathers(),
            final(self).sound(),
            old(self).gathers() && old(self).done() ==> table_holds(
                *final(db),
                old(self).table(),
                old(self).log(),
            ),
            !(old(self).gathers() && old(self).done()) ==> *final(db) == *old(db),
            final(self).received() == old(self).received(),
            forall|t: Table, l: Log|
                t != old(self).table() ==> #[trigger] table_holds(*final(db), t, l) == table_holds(
                    *old(db),
                    t,
                    l,
                ),
    ;
}

/// A consumer of any type, in the one type that the loader makes a trait
/// object of.
struct Given<C> {
    consumer: C,
}

impl<T, C: Consumer<T>> Consumer<T> for Given<C> {
    closed spec fn ready(&self) -> bool {
        self.consumer.ready()
    }

    closed spec fn received(&self) -> Seq<T> {
        self.consumer.received()
    }

    fn consume(&mut self, record: T) {
        self.consumer.consume(record);
    }
}

/// Where the records of a table go: to a consumer, or into a list that is
/// kept until the load is over where there is none. Besides, whether the
/// table was read to the end, what the consumer had received when the
/// load in progress began, the records that the load handed on, and what
/// it read.
#[verifier::reject_recursive_types(T)]
struct Callback<'a, T> {
    f: Option<Box<dyn Consumer<T> + 'a>>,
    rows: Vec<T>,
    done: bool,
    had: Ghost<Seq<T>>,
    fed: Ghost<Seq<T>>,
    log: Ghost<Log>,
}

impl<'a, T> Callback<'a, T> {
    /// Whether what was handed on is where it went: the consumer has
    /// received it after what it had, or the list that is kept holds it.
    spec fn kept(self) -> bool {
        match self.f {
            Some(consumer) => consumer.ready() && consumer.received() == self.had@ + self.fed@,
            None => self.rows@ == self.fed@,
        }
    }

    /// What the consumer has received, if there is a consumer.
    spec fn heard(self) -> Seq<T> {
        match self.f {
            Some(consumer) => consumer.received(),
            None => Seq::empty(),
        }
    }

    fn new(f: impl Consumer<T> + 'a) -> (r: Self)
        requires
            f.ready(),
        ensures
            !r.done,
            r.fed@.len() == 0,
            r.log@ == nothing(),
            r.f is Some,
            r.kept(),
            r.heard() == f.received(),
    {
        Callback::to(Box::new(Given { consumer: f }))
    }

    /// A slot that hands the records of its table to `consumer`.
    fn to(consumer: Box<dyn Consumer<T> + 'a>) -> (r: Self)
        requires
            consumer.ready(),
        ensures
            !r.done,
            r.fed@.len() == 0,
            r.log@ == nothing(),
            r.f is Some,
            r.kept(),
            r.heard() == consumer.received(),
    {
        let ghost had = consumer.received();
        assert(had + Seq::<T>::empty() =~= had);
        let f = Some(consumer);
        Callback {
            f,
            rows: Vec::new(),
            done: false,
            had: Ghost(had),
            fed: Ghost(Seq::empty()),
            log: Ghost(nothing()),
        }
    }

    /// A slot that keeps the records of its table.
    fn gathering() -> (r: Self)
        ensures
            !r.done,
            r.fed@.len() == 0,
            r.log@ == nothing(),
            r.f is None,
            r.kept(),
    {
        Callback {
            f: None,
            rows: Vec::new(),
            done: false,
            had: Ghost(Seq::empty()),
            fed: Ghost(Seq::empty()),
            log: Ghost(nothing()),
        }
    }

    fn done(&self) -> (r: bool)
        ensures
            r == self.done,
    {
        self.done
    }
}

/// Whether `row` is decoded into a record of `T` under the header row
/// `headers`.
spec fn decodes_as<T: FromRecord>(headers: Seq<Seq<char>>, row: Seq<Seq<char>>) -> bool {
    &&& schema_ok(T::table(), headers)
    &&& row.len() == headers.len()
    &&& T::fault(layout_of(T::table(), headers), row) is None
}

/// Whether the rows in `log.rows[..n]` are all decoded into records of `T`.
spec fn all_decode_as<T: FromRecord>(log: Log, n: int) -> bool {
    forall|k: int|
        0 <= k < n && k < log.rows.len() ==> decodes_as::<T>(log.headers, #[trigger] log.rows[k])
}

/// Whether `fed` holds, in order, the records of the first rows of `log`.
spec fn handed<T: FromRecord>(log: Log, fed: Seq<T>) -> bool {
    &&& fed.len() <= log.rows.len()
    &&& forall|k: int|
        0 <= k < fed.len() ==> (#[trigger] fed[k]).holds(
            layout_of(T::table(), log.headers),
            log.rows[k],
        )
}

/// Whether the cells of the rows of `T` are held to the faults of its
/// table.
spec fn same_faults<T: FromRecord>() -> bool {
    forall|layout: LayoutView, row: Seq<Seq<char>>|
        #[trigger] cells_fault(T::table(), layout, row) == T::fault(layout, row)
}

impl<'a, T: FromRecord> Callback<'a, T> {
    /// Hands the record of one more row to the consumer.
    fn feed(&mut self, record: T, Ghost(log): Ghost<Log>, Ghost(row): Ghost<Seq<Seq<char>>>)
        requires
            old(self).fed@.len() == log.rows.len(),
            old(self).kept(),
            handed::<T>(log, old(self).fed@),
            record.holds(layout_of(T::table(), log.headers), row),
        ensures
            final(self).done == old(self).done,
            final(self).log == old(self).log,
            final(self).had == old(self).had,
            (final(self).f is None) == (old(self).f is None),
            final(self).kept(),
            final(self).fed@.len() == log.rows.len() + 1,
            handed::<T>(Log { headers: log.headers, rows: log.rows.push(row) }, final(self).fed@),
    {
        let ghost copy = record;
        let ghost fed = self.fed@;
        let ghost had = self.had@;
        match &mut self.f {
            Some(consumer) => {
                consumer.consume(record);
                assert((had + fed).push(copy) =~= had + fed.push(copy));
            },
            None => {
                self.rows.push(record);
            },
        }
        self.fed = Ghost(fed.push(copy));
        proof {
            let next = Log { headers: log.headers, rows: log.rows.push(row) };
            assert forall|k: int| 0 <= k < self.fed@.len() implies (#[trigger] self.fed@[k]).holds(
                layout_of(T::table(), next.headers),
                next.rows[k],
            ) by {
                if k < fed.len() {
                    assert(self.fed@[k] == fed[k]);
                    assert(next.rows[k] == log.rows[k]);
                }
            }
        }
    }
}

impl<'a, T: Stored> Slot for Callback<'a, T> {
    closed spec fn table(&self) -> Table {
        T::table()
    }

    closed spec fn done(&self) -> bool {
        self.done
    }

    closed spec fn idle(&self) -> bool {
        self.fed@.len() == 0
    }

    closed spec fn sound(&self) -> bool {
        &&& same_faults::<T>()
        &&& self.kept()
        &&& handed::<T>(self.log@, self.fed@)
        &&& self.done ==> self.fed@.len() == self.log@.rows.len()
    }

    closed spec fn log(&self) -> Log {
        self.log@
    }

    closed spec fn gathers(&self) -> bool {
        self.f is None
    }

    closed spec fn received(&self) -> Received {
        T::only(self.heard())
    }

    fn is_done(&self) -> (r: bool) {
        Callback::done(self)
    }

    fn begin(&mut self) {
        if self.f.is_none() {
            self.rows.clear();
        }
        let ghost heard = self.heard();
        self.done = false;
        self.had = Ghost(heard);
        self.fed = Ghost(Seq::empty());
        self.log = Ghost(nothing());
        assert(heard + Seq::<T>::empty() =~= heard);
    }

    fn take_into(&mut self, db: &mut DbDump) {
        if !self.done {
            return ;
        }
        let ghost log = self.log@;
        let mut taken: Vec<T> = Vec::new();
        if self.f.is_none() {
            core::mem::swap(&mut self.rows, &mut taken);
            T::store(db, taken, Ghost(log));
            self.done = false;
            self.fed = Ghost(Seq::empty());
            self.log = Ghost(nothing());
        }
    }

    fn read(&mut self, entry: Entry) -> (r: (Result<(), Error>, Ghost<Log>)) {
        let table = T::source();
        let ghost bytes = entry_state(entry).0;
        let ghost place = entry_state(entry).1;
        let mut rows = rows(entry);
        let names = match headers(&mut rows) {
            Ok(names) => names,
            Err(message) => {
                self.log = Ghost(nothing());
                proof {
                    lemma_read_hands::<T>(*old(self), *self, nothing(), true);
                }
                return (
                    Err(Error::new(ErrorKind::Tokenize, message).in_table(table)),
                    Ghost(nothing()),
                );
            },
        };
        let ghost heads = texts(names@);
        let ghost mut log = Log { headers: heads, rows: Seq::empty() };
        let mut layout: Option<Layout> = None;
        loop
            invariant
                !self.done,
                bytes == entry_state(entry).0,
                place == entry_state(entry).1,
                rows_state(rows) == (bytes, place, log.rows.len()),
                headers_at(bytes, place) == Some(heads),
                forall|j: int|
                    0 <= j < log.rows.len() ==> row_at(bytes, place, j as nat) == Some(
                        Some(#[trigger] log.rows[j]),
                    ),
                self.kept(),
                old(self).kept(),
                old(self).fed@.len() == 0,
                self.had == old(self).had,
                (self.f is None) == (old(self).f is None),
                same_faults::<T>(),
                table == T::table(),
                heads == texts(names@),
                log.headers == heads,
                layout matches Some(l) ==> schema_ok(table, heads) && l@ == layout_of(table, heads)
                    && l@.table == table && l@.width == heads.len(),
                log.rows.len() > 0 ==> layout is Some,
                self.fed@.len() == log.rows.len(),
                all_decode_as::<T>(log, log.rows.len() as int),
                handed::<T>(log, self.fed@),
            decreases rows_left(rows),
        {
            let row = match next_row(&mut rows) {
                Ok(Some(row)) => row,
                Ok(None) => {
                    self.done = true;
                    self.log = Ghost(log);
                    proof {
                        lemma_reads_as::<T>(log, Ok(()));
                        lemma_read_hands::<T>(*old(self), *self, log, true);
                    }
                    return (Ok(()), Ghost(log));
                },
                Err(message) => {
                    let e = Error::new(ErrorKind::Tokenize, message).in_table(table);
                    self.log = Ghost(log);
                    proof {
                        lemma_reads_as::<T>(log, Err(e));
                        lemma_read_hands::<T>(*old(self), *self, log, true);
                    }
                    return (Err(e), Ghost(log));
                },
            };
            let ghost cells = texts(row@);
            let ghost next = Log { headers: heads, rows: log.rows.push(cells) };
            proof {
                assert forall|k: int| 0 <= k < log.rows.len() implies #[trigger] next.rows[k]
                    == log.rows[k] by {}
                assert(all_decode_as::<T>(next, next.rows.len() - 1));
                assert forall|j: int| 0 <= j < next.rows.len() implies row_at(
                    bytes,
                    place,
                    j as nat,
                ) == Some(Some(#[trigger] next.rows[j])) by {
                    if j < log.rows.len() {
                        assert(next.rows[j] == log.rows[j]);
                    }
                }
            }
            if layout.is_none() {
                match Layout::resolve(table, &names) {
                    Ok(l) => {
                        layout = Some(l);
                    },
                    Err(e) => {
                        let e = e.in_table(table);
                        self.log = Ghost(next);
                        proof {
                            lemma_schema_fault_unique(table, heads, e.kind, e.kind);
                            lemma_reads_as::<T>(next, Err(e));
                            assert(next.rows.last() == cells);
                            lemma_read_hands::<T>(*old(self), *self, next, false);
                        }
                        return (Err(e), Ghost(next));
                    },
                }
            }
            match &layout {
                Some(l) => {
                    let record = match decode_row::<T>(l, &row) {
                        Ok(record) => record,
                        Err(e) => {
                            self.log = Ghost(next);
                            proof {
                                lemma_reads_as::<T>(next, Err(e));
                                assert(next.rows.last() == cells);
                                lemma_read_hands::<T>(*old(self), *self, next, false);
                            }
                            return (Err(e), Ghost(next));
                        },
                    };
                    self.feed(record, Ghost(log), Ghost(cells));
                    proof {
                        assert(decodes_as::<T>(heads, cells));
                        assert forall|k: int| 0 <= k < next.rows.len() implies decodes_as::<T>(
                            heads,
                            #[trigger] next.rows[k],
                        ) by {
                            if k < log.rows.len() {
                                assert(next.rows[k] == log.rows[k]);
                            }
                        }
                        log = next;
                    }
                },
                None => {},
            }
        }
    }
}

/// What a slot handed on while it read is what its consumer has received
/// since: the records of the rows of `log`, all of them where `whole`, and
/// all but the last, which is not decoded, where not.
proof fn lemma_read_hands<'a, T: Stored>(
    before: Callback<'a, T>,
    after: Callback<'a, T>,
    log: Log,
    whole: bool,
)
    requires
        same_faults::<T>(),
        before.kept(),
        before.fed@.len() == 0,
        after.kept(),
        after.had == before.had,
        (after.f is None) == (before.f is None),
        handed::<T>(log, after.fed@),
        if whole {
            after.fed@.len() == log.rows.len() && all_decode_as::<T>(log, log.rows.len() as int)
        } else {
            log.rows.len() > 0 && after.fed@.len() == log.rows.len() - 1 && !decodes_as::<T>(
                log.headers,
                log.rows.last(),
            )
        },
    ensures
        before.f is Some ==> hands(
            T::only(before.heard()),
            T::only(after.heard()),
            T::table(),
            log,
        ),
{
    if before.f is Some {
        let had = before.had@;
        let fed = after.fed@;
        assert(before.heard() =~= had);
        assert(after.heard() == had + fed);
        let rows = decoded(T::table(), log);
        if whole {
            if log.rows.len() > 0 {
                assert(decodes_as::<T>(log.headers, log.rows[log.rows.len() - 1]));
                assert(crate::plan::decodes(T::table(), log.headers, log.rows.last()));
            }
            assert(rows == log.rows);
        } else {
            assert(!crate::plan::decodes(T::table(), log.headers, log.rows.last()));
            assert(rows == log.rows.drop_last());
        }
        assert(extended::<T>(had, had + fed, log)) by {
            assert forall|k: int| had.len() <= k < (had + fed).len() implies (#[trigger] (had
                + fed)[k]).holds(layout_of(T::table(), log.headers), rows[k - had.len()]) by {
                assert((had + fed)[k] == fed[k - had.len()]);
                assert(rows[k - had.len()] == log.rows[k - had.len()]);
            }
        }
        T::lemma_only(had, had + fed, log);
    }
}

/// A consumer that is handed nothing has what it had.
proof fn lemma_hands_nothing(all: Received, table: Table)
    ensures
        hands(all, all, table, nothing()),
{
}

/// What holds of the rows of `T` holds of the rows of its table.
proof fn lemma_reads_as<T: FromRecord>(log: Log, result: Result<(), Error>)
    requires
        same_faults::<T>(),
        match result {
            Ok(_) => all_decode_as::<T>(log, log.rows.len() as int),
            Err(e) => e.table == Some(T::table()) && if e.kind is Tokenize {
                all_decode_as::<T>(log, log.rows.len() as int)
            } else {
                &&& log.rows.len() > 0
                &&& all_decode_as::<T>(log, log.rows.len() - 1)
                &&& record_fault(
                    T::table(),
                    log.headers,
                    log.rows.last().len(),
                    T::fault(layout_of(T::table(), log.headers), log.rows.last()),
                    e.kind,
                )
            },
        },
    ensures
        reads(log, T::table(), result),
{
    assert forall|k: int| 0 <= k < log.rows.len() && decodes_as::<T>(
        log.headers,
        #[trigger] log.rows[k],
    ) implies crate::plan::decodes(T::table(), log.headers, log.rows[k]) by {}
}

/// A dump that was just made holds nothing of any table.
proof fn lemma_fresh(db: DbDump, table: Table)
    requires
        db.categories@.len() == 0,
        db.crate_downloads@.len() == 0,
        db.crate_owners@.len() == 0,
        db.crates@.len() == 0,
        db.crates_categories@.len() == 0,
        db.crates_keywords@.len() == 0,
        db.dependencies@.len() == 0,
        db.keywords@.len() == 0,
        db.metadata.total_downloads == 0,
        db.reserved_crate_names@.len() == 0,
        db.teams@.len() == 0,
        db.users@.len() == 0,
        db.version_downloads@.len() == 0,
        db.versions@.len() == 0,
    ensures
        table_holds(db, table, nothing()),
{
}

/// The result of a step that ended in `failure`, or without one.
pub open spec fn ended(failure: Option<Error>) -> Result<(), Error> {
    match failure {
        Some(e) => Err(e),
        None => Ok(()),
    }
}

/// Performs a streaming load of the tables that a consumer is registered
/// for.
pub struct Loader<'a> {
    slots: Vec<Option<Box<dyn Slot + 'a>>>,
    strict: bool,
    noted: Vec<String>,
    steps: Ghost<Seq<Step>>,
}

impl<'a> Loader<'a> {
    /// Whether the loader is in order: it has a place for each table, and
    /// what stands there is the slot of that table.
    pub closed spec fn wf(&self) -> bool {
        &&& self.slots.len() == Table::COUNT
        &&& forall|i: int|
            0 <= i < self.slots.len() ==> (#[trigger] self.slots[i] matches Some(slot)
                ==> slot.table() == Table::spec_nth(i) && slot.sound())
    }

    /// Whether a consumer is registered for `table`.
    pub closed spec fn registered(&self, table: Table) -> bool {
        self.slots[table.spec_index()] is Some
    }

    /// Whether the last load read `table` to its end.
    pub closed spec fn done(&self, table: Table) -> bool {
        self.slots[table.spec_index()] matches Some(slot) && slot.done()
    }

    /// Whether the load in progress handed no record of `table` to a
    /// consumer yet.
    closed spec fn nothing_fed(&self, table: Table) -> bool {
        self.slots[table.spec_index()] matches Some(slot) ==> slot.idle()
    }

    /// What the load in progress, or the last one, read of `table`.
    pub closed spec fn log(&self, table: Table) -> Log {
        match self.slots[table.spec_index()] {
            Some(slot) => slot.log(),
            None => nothing(),
        }
    }

    /// Whether the loader keeps the records of `table` itself, where it
    /// hands them to a consumer otherwise.
    pub closed spec fn gathers(&self, table: Table) -> bool {
        self.slots[table.spec_index()] matches Some(slot) && slot.gathers()
    }

    /// What the consumer of `table` has received, in the place of the
    /// table; nothing where the table has no consumer, and nothing where
    /// the loader keeps its records itself.
    pub closed spec fn received(&self, table: Table) -> Received {
        match self.slots[table.spec_index()] {
            Some(slot) => slot.received(),
            None => none_received(),
        }
    }

    /// Whether `table` is waiting for its rows.
    pub open spec fn pending(&self, table: Table) -> bool {
        self.registered(table) && !self.done(table)
    }

    /// Whether a file that is no known table ends the load.
    pub closed spec fn is_strict(&self) -> bool {
        self.strict
    }

    /// The paths of the files that were passed over as no known table.
    pub closed spec fn noted(&self) -> Seq<Seq<char>> {
        texts(self.noted@)
    }

    /// The steps of the last load: one for each archive entry that it
    /// looked at, in archive order.
    pub closed spec fn steps(&self) -> Seq<Step> {
        self.steps@
    }

    /// Whether `table` was waiting for its rows at step `i` of `steps`: it
    /// has a consumer, and no earlier step read it.
    pub open spec fn waiting(&self, steps: Seq<Step>, table: Table, i: int) -> bool {
        self.registered(table) && !read_before(steps, table, i)
    }

    /// Whether step `i` of `steps` is what a load does: some table was
    /// still waiting, or the load would have ended before the step; and
    /// the entry was dealt with as its file name and the waiting tables
    /// ask.
    pub open spec fn planned_step(&self, steps: Seq<Step>, i: int) -> bool {
        &&& exists|table: Table| self.waiting(steps, table, i)
        &&& exists|kind: Selection|
            selects(steps[i].name, kind) && steps[i].action == spec_action(
                kind,
                kind matches Selection::Known(table) && self.waiting(steps, table, i),
                self.is_strict(),
            )
    }

    /// Whether every step of `steps` is what a load does.
    pub open spec fn planned(&self, steps: Seq<Step>) -> bool {
        forall|i: int| 0 <= i < steps.len() ==> self.planned_step(steps, i)
    }

    /// What a load does with an entry goes by what the file name of the
    /// entry says, which is one thing only, and by the tables that are
    /// waiting.
    pub proof fn lemma_action(&self, steps: Seq<Step>, i: int, kind: Selection)
        requires
            self.planned(steps),
            0 <= i < steps.len(),
            selects(steps[i].name, kind),
        ensures
            steps[i].action == spec_action(
                kind,
                kind matches Selection::Known(table) && self.waiting(steps, table, i),
                self.is_strict(),
            ),
    {
        assert(self.planned_step(steps, i));
        let other = choose|other: Selection|
            selects(steps[i].name, other) && steps[i].action == spec_action(
                other,
                other matches Selection::Known(table) && self.waiting(steps, table, i),
                self.is_strict(),
            );
        lemma_selects_one(steps[i].name, kind, other);
    }

    /// A load never reads a table that has no consumer.
    pub proof fn lemma_reads_only_registered(&self, steps: Seq<Step>, table: Table, i: int)
        requires
            self.planned(steps),
            0 <= i < steps.len(),
            steps[i].action == Action::Read(table),
        ensures
            self.registered(table),
            !read_before(steps, table, i),
    {
        assert(self.planned_step(steps, i));
    }

    /// A load reads a table once at most.
    pub proof fn lemma_reads_once(&self, steps: Seq<Step>, table: Table, i: int, j: int)
        requires
            self.planned(steps),
            0 <= i < j < steps.len(),
            steps[i].action == Action::Read(table),
        ensures
            steps[j].action != Action::Read(table),
    {
        if steps[j].action == Action::Read(table) {
            self.lemma_reads_only_registered(steps, table, j);
            assert(read_before(steps, table, j));
        }
    }

    /// A load looks at no entry once every table that has a consumer was
    /// read.
    pub proof fn lemma_stops_when_finished(&self, steps: Seq<Step>, i: int)
        requires
            self.planned(steps),
            0 <= i <= steps.len(),
            forall|table: Table| self.registered(table) ==> read_before(steps, table, i),
        ensures
            steps.len() == i,
    {
        if i < steps.len() {
            assert(self.planned_step(steps, i));
        }
    }

    /// Only a strict load ends at a file that is no known table, and only
    /// a load that is not strict notes such a file.
    pub proof fn lemma_strict(&self, steps: Seq<Step>, i: int)
        requires
            self.planned(steps),
            0 <= i < steps.len(),
        ensures
            steps[i].action == Action::Fail ==> self.is_strict(),
            steps[i].action == Action::Note ==> !self.is_strict(),
    {
        assert(self.planned_step(steps, i));
    }

    /// A loader without consumers.
    pub fn new() -> (r: Self)
        ensures
            r.wf(),
            forall|table: Table| !r.registered(table),
            forall|table: Table| !r.gathers(table),
            forall|table: Table| r.received(table) == none_received(),
            !r.is_strict(),
            r.noted().len() == 0,
            r.steps().len() == 0,
    {
        let mut slots: Vec<Option<Box<dyn Slot + 'a>>> = Vec::new();
        let mut i: usize = 0;
        while i < Table::COUNT
            invariant
                i <= Table::COUNT,
                slots.len() == i,
                forall|j: int| 0 <= j < i ==> #[trigger] slots[j] is None,
            decreases Table::COUNT - i,
        {
            slots.push(None);
            i += 1;
        }
        proof {
            assert forall|table: Table| slots[table.spec_index()] is None by {
                table.lemma_index();
            }
        }
        Loader { slots, strict: false, noted: Vec::new(), steps: Ghost(Seq::empty()) }
    }

    /// Puts the slot of `table` in its place.
    fn register(&mut self, table: Table, slot: Box<dyn Slot + 'a>)
        requires
            old(self).wf(),
            slot.table() == table,
            slot.sound(),
            !slot.done(),
        ensures
            final(self).wf(),
            final(self).pending(table),
            final(self).gathers(table) == slot.gathers(),
            final(self).received(table) == slot.received(),
            forall|t: Table| t != table ==> final(self).gathers(t) == old(self).gathers(t),
            forall|t: Table| t != table ==> final(self).received(t) == old(self).received(t),
            forall|t: Table|
                t != table ==> final(self).registered(t) == old(self).registered(t)
                    && final(self).done(t) == old(self).done(t),
            final(self).is_strict() == old(self).is_strict(),
            final(self).noted() == old(self).noted(),
            final(self).steps() == old(self).steps(),
    {
        proof {
            table.lemma_index();
        }
        let i = table.index();
        let ghost before = self.slots@;
        let mut fresh = Some(slot);
        core::mem::swap(&mut self.slots[i], &mut fresh);
        proof {
            assert(self.slots[i as int] matches Some(s) && s.table() == table && s.sound()
                && !s.done() && s.gathers() == slot.gathers() && s.received() == slot.received());
            assert forall|t: Table| t != table implies t.spec_index() != i by {
                t.lemma_index();
            }
            assert forall|j: int| 0 <= j < self.slots.len() implies (
            #[trigger] self.slots[j] matches Some(s) ==> s.table() == Table::spec_nth(j)
                && s.sound()) by {
                if j != i {
                    assert(self.slots[j] == before[j]);
                } else {
                    assert(Table::spec_nth(j) == table);
                }
            }
        }
    }

    /// Registers the consumer of the rows of `categories.csv`.
    pub fn categories(&mut self, f: impl Consumer<crate::categories::Row> + 'a) -> (r: &mut Self)
        requires
            old(self).wf(),
            f.ready(),
        ensures
            r.wf(),
            r.pending(Table::Categories),
            !r.gathers(Table::Categories),
            r.received(Table::Categories).categories == f.received(),
            forall|table: Table|
                table != Table::Categories ==> r.registered(table) == old(self).registered(table)
                    && r.done(table) == old(self).done(table) && r.gathers(table) == old(
                    self,
                ).gathers(table) && r.received(table) == old(self).received(table),
            r.is_strict() == old(self).is_strict(),
            r.noted() == old(self).noted(),
            r.steps() == old(self).steps(),
            *final(self) == *final(r),
    {
        let callback: Callback<'a, crate::categories::Row> = Callback::new(f);
        self.register(Table::Categories, Box::new(callback));
        self
    }

    /// Registers the consumer of the rows of `crate_downloads.csv`.
    pub fn crate_downloads(
        &mut self,
        f: impl Consumer<crate::crate_downloads::Row> + 'a,
    ) -> (r: &mut Self)
        requires
            old(self).wf(),
            f.ready(),
        ensures
            r.wf(),
            r.pending(Table::CrateDownloads),
            !r.gathers(Table::CrateDownloads),
            r.received(Table::CrateDownloads).crate_downloads == f.received(),
            forall|table: Table|
                table != Table::CrateDownloads ==> r.registered(
                    table
                ) == old(self).registered(table)
                    && r.done(table) == old(self).done(table) && r.gathers(table) == old(
                    self,
                ).gathers(table) && r.received(table) == old(self).received(table),
            r.is_strict() == old(self).is_strict(),
            r.noted() == old(self).noted(),
            r.steps() == old(self).steps(),
            *final(self) == *final(r),
    {
        let callback: Callback<'a, crate::crate_downloads::Row> = Callback::new(f);
        self.register(Table::CrateDownloads, Box::new(callback));
        self
    }

    /// Registers the consumer of the rows of `crate_owners.csv`.
    pub fn crate_owners(
        &mut self,
        f: impl Consumer<crate::crate_owners::Row> + 'a,
    ) -> (r: &mut Self)
        requires
            old(self).wf(),
            f.ready(),
        ensures
            r.wf(),
            r.pending(Table::CrateOwners),
            !r.gathers(Table::CrateOwners),
            r.received(Table::CrateOwners).crate_owners == f.received(),
            forall|table: Table|
                table != Table::CrateOwners ==> r.registered(table) == old(self).registered(table)
                    && r.done(table) == old(self).done(table) && r.gathers(table) == old(
                    self,
                ).gathers(table) && r.received(table) == old(self).received(table),
            r.is_strict() == old(self).is_strict(),
            r.noted() == old(self).noted(),
            r.steps() == old(self).steps(),
            *final(self) == *final(r),
    {
        let callback: Callback<'a, crate::crate_owners::Row> = Callback::new(f);
        self.register(Table::CrateOwners, Box::new(callback));
        self
    }

    /// Registers the consumer of the rows of `crates.csv`.
    pub fn crates(&mut self, f: impl Consumer<crate::crates::Row> + 'a) -> (r: &mut Self)
        requires
            old(self).wf(),
            f.ready(),
        ensures
            r.wf(),
            r.pending(Table::Crates),
            !r.gathers(Table::Crates),
            r.received(Table::Crates).crates == f.received(),
            forall|table: Table|
                table != Table::Crates ==> r.registered(table) == old(self).registered(table)
                    && r.done(table) == old(self).done(table) && r.gathers(table) == old(
                    self,
                ).gathers(table) && r.received(table) == old(self).received(table),
            r.is_strict() == old(self).is_strict(),
            r.noted() == old(self).noted(),
            r.steps() == old(self).steps(),
            *final(self) == *final(r),
    {
        let callback: Callback<'a, crate::crates::Row> = Callback::new(f);
        self.register(Table::Crates, Box::new(callback));
        self
    }

    /// Registers the consumer of the rows of `crates_categories.csv`.
    pub fn crates_categories(
        &mut self,
        f: impl Consumer<crate::crates_categories::Row> + 'a,
    ) -> (r: &mut Self)
        requires
            old(self).wf(),
            f.ready(),
        ensures
            r.wf(),
            r.pending(Table::CratesCategories),
            !r.gathers(Table::CratesCategories),
            r.received(Table::CratesCategories).crates_categories == f.received(),
            forall|table: Table|
                table != Table::CratesCategories ==> r.registered(
                    table
                ) == old(self).registered(table)
                    && r.done(table) == old(self).done(table) && r.gathers(table) == old(
                    self,
                ).gathers(table) && r.received(table) == old(self).received(table),
            r.is_strict() == old(self).is_strict(),
            r.noted() == old(self).noted(),
            r.steps() == old(self).steps(),
            *final(self) == *final(r),
    {
        let callback: Callback<'a, crate::crates_categories::Row> = Callback::new(f);
        self.register(Table::CratesCategories, Box::new(callback));
        self
    }

    /// Registers the consumer of the rows of `crates_keywords.csv`.
    pub fn crates_keywords(
        &mut self,
        f: impl Consumer<crate::crates_keywords::Row> + 'a,
    ) -> (r: &mut Self)
        requires
            old(self).wf(),
            f.ready(),
        ensures
            r.wf(),
            r.pending(Table::CratesKeywords),
            !r.gathers(Table::CratesKeywords),
            r.received(Table::CratesKeywords).crates_keywords == f.received(),
            forall|table: Table|
                table != Table::CratesKeywords ==> r.registered(
                    table
                ) == old(self).registered(table)
                    && r.done(table) == old(self).done(table) && r.gathers(table) == old(
                    self,
                ).gathers(table) && r.received(table) == old(self).received(table),
            r.is_strict() == old(self).is_strict(),
            r.noted() == old(self).noted(),
            r.steps() == old(self).steps(),
            *final(self) == *final(r),
    {
        let callback: Callback<'a, crate::crates_keywords::Row> = Callback::new(f);
        self.register(Table::CratesKeywords, Box::new(callback));
        self
    }

    /// Registers the consumer of the rows of `dependencies.csv`.
    pub fn dependencies(
        &mut self,
        f: impl Consumer<crate::dependencies::Row> + 'a,
    ) -> (r: &mut Self)
        requires
            old(self).wf(),
            f.ready(),
        ensures
            r.wf(),
            r.pending(Table::Dependencies),
            !r.gathers(Table::Dependencies),
            r.received(Table::Dependencies).dependencies == f.received(),
            forall|table: Table|
                table != Table::Dependencies ==> r.registered(table) == old(self).registered(table)
                    && r.done(table) == old(self).done(table) && r.gathers(table) == old(
                    self,
                ).gathers(table) && r.received(table) == old(self).received(table),
            r.is_strict() == old(self).is_strict(),
            r.noted() == old(self).noted(),
            r.steps() == old(self).steps(),
            *final(self) == *final(r),
    {
        let callback: Callback<'a, crate::dependencies::Row> = Callback::new(f);
        self.register(Table::Dependencies, Box::new(callback));
        self
    }

    /// Registers the consumer of the rows of `keywords.csv`.
    pub fn keywords(&mut self, f: impl Consumer<crate::keywords::Row> + 'a) -> (r: &mut Self)
        requires
            old(self).wf(),
            f.ready(),
        ensures
            r.wf(),
            r.pending(Table::Keywords),
            !r.gathers(Table::Keywords),
            r.received(Table::Keywords).keywords == f.received(),
            forall|table: Table|
                table != Table::Keywords ==> r.registered(table) == old(self).registered(table)
                    && r.done(table) == old(self).done(table) && r.gathers(table) == old(
                    self,
                ).gathers(table) && r.received(table) == old(self).received(table),
            r.is_strict() == old(self).is_strict(),
            r.noted() == old(self).noted(),
            r.steps() == old(self).steps(),
            *final(self) == *final(r),
    {
        let callback: Callback<'a, crate::keywords::Row> = Callback::new(f);
        self.register(Table::Keywords, Box::new(callback));
        self
    }

    /// Registers the consumer of the rows of `metadata.csv`.
    pub fn metadata(&mut self, f: impl Consumer<crate::metadata::Row> + 'a) -> (r: &mut Self)
        requires
            old(self).wf(),
            f.ready(),
        ensures
            r.wf(),
            r.pending(Table::Metadata),
            !r.gathers(Table::Metadata),
            r.received(Table::Metadata).metadata == f.received(),
            forall|table: Table|
                table != Table::Metadata ==> r.registered(table) == old(self).registered(table)
                    && r.done(table) == old(self).done(table) && r.gathers(table) == old(
                    self,
                ).gathers(table) && r.received(table) == old(self).received(table),
            r.is_strict() == old(self).is_strict(),
            r.noted() == old(self).noted(),
            r.steps() == old(self).steps(),
            *final(self) == *final(r),
    {
        let callback: Callback<'a, crate::metadata::Row> = Callback::new(f);
        self.register(Table::Metadata, Box::new(callback));
        self
    }

    /// Registers the consumer of the rows of `reserved_crate_names.csv`.
    pub fn reserved_crate_names(
        &mut self,
        f: impl Consumer<crate::reserved_crate_names::Row> + 'a,
    ) -> (r: &mut Self)
        requires
            old(self).wf(),
            f.ready(),
        ensures
            r.wf(),
            r.pending(Table::ReservedCrateNames),
            !r.gathers(Table::ReservedCrateNames),
            r.received(Table::ReservedCrateNames).reserved_crate_names == f.received(),
            forall|table: Table|
                table != Table::ReservedCrateNames ==> r.registered(
                    table
                ) == old(self).registered(table)
                    && r.done(table) == old(self).done(table) && r.gathers(table) == old(
                    self,
                ).gathers(table) && r.received(table) == old(self).received(table),
            r.is_strict() == old(self).is_strict(),
            r.noted() == old(self).noted(),
            r.steps() == old(self).steps(),
            *final(self) == *final(r),
    {
        let callback: Callback<'a, crate::reserved_crate_names::Row> = Callback::new(f);
        self.register(Table::ReservedCrateNames, Box::new(callback));
        self
    }

    /// Registers the consumer of the rows of `teams.csv`.
    pub fn teams(&mut self, f: impl Consumer<crate::teams::Row> + 'a) -> (r: &mut Self)
        requires
            old(self).wf(),
            f.ready(),
        ensures
            r.wf(),
            r.pending(Table::Teams),
            !r.gathers(Table::Teams),
            r.received(Table::Teams).teams == f.received(),
            forall|table: Table|
                table != Table::Teams ==> r.registered(table) == old(self).registered(table)
                    && r.done(table) == old(self).done(table) && r.gathers(table) == old(
                    self,
                ).gathers(table) && r.received(table) == old(self).received(table),
            r.is_strict() == old(self).is_strict(),
            r.noted() == old(self).noted(),
            r.steps() == old(self).steps(),
            *final(self) == *final(r),
    {
        let callback: Callback<'a, crate::teams::Row> = Callback::new(f);
        self.register(Table::Teams, Box::new(callback));
        self
    }

    /// Registers the consumer of the rows of `users.csv`.
    pub fn users(&mut self, f: impl Consumer<crate::users::Row> + 'a) -> (r: &mut Self)
        requires
            old(self).wf(),
            f.ready(),
        ensures
            r.wf(),
            r.pending(Table::Users),
            !r.gathers(Table::Users),
            r.received(Table::Users).users == f.received(),
            forall|table: Table|
                table != Table::Users ==> r.registered(table) == old(self).registered(table)
                    && r.done(table) == old(self).done(table) && r.gathers(table) == old(
                    self,
                ).gathers(table) && r.received(table) == old(self).received(table),
            r.is_strict() == old(self).is_strict(),
            r.noted() == old(self).noted(),
            r.steps() == old(self).steps(),
            *final(self) == *final(r),
    {
        let callback: Callback<'a, crate::users::Row> = Callback::new(f);
        self.register(Table::Users, Box::new(callback));
        self
    }

    /// Registers the consumer of the rows of `version_downloads.csv`.
    pub fn version_downloads(
        &mut self,
        f: impl Consumer<crate::version_downloads::Row> + 'a,
    ) -> (r: &mut Self)
        requires
            old(self).wf(),
            f.ready(),
        ensures
            r.wf(),
            r.pending(Table::VersionDownloads),
            !r.gathers(Table::VersionDownloads),
            r.received(Table::VersionDownloads).version_downloads == f.received(),
            forall|table: Table|
                table != Table::VersionDownloads ==> r.registered(
                    table
                ) == old(self).registered(table)
                    && r.done(table) == old(self).done(table) && r.gathers(table) == old(
                    self,
                ).gathers(table) && r.received(table) == old(self).received(table),
            r.is_strict() == old(self).is_strict(),
            r.noted() == old(self).noted(),
            r.steps() == old(self).steps(),
            *final(self) == *final(r),
    {
        let callback: Callback<'a, crate::version_downloads::Row> = Callback::new(f);
        self.register(Table::VersionDownloads, Box::new(callback));
        self
    }

    /// Registers the consumer of the rows of `versions.csv`.
    pub fn versions(&mut self, f: impl Consumer<crate::versions::Row> + 'a) -> (r: &mut Self)
        requires
            old(self).wf(),
            f.ready(),
        ensures
            r.wf(),
            r.pending(Table::Versions),
            !r.gathers(Table::Versions),
            r.received(Table::Versions).versions == f.received(),
            forall|table: Table|
                table != Table::Versions ==> r.registered(table) == old(self).registered(table)
                    && r.done(table) == old(self).done(table) && r.gathers(table) == old(
                    self,
                ).gathers(table) && r.received(table) == old(self).received(table),
            r.is_strict() == old(self).is_strict(),
            r.noted() == old(self).noted(),
            r.steps() == old(self).steps(),
            *final(self) == *final(r),
    {
        let callback: Callback<'a, crate::versions::Row> = Callback::new(f);
        self.register(Table::Versions, Box::new(callback));
        self
    }

    /// Sets whether a file that is no known table ends the load with an
    /// error. Without this, such a file is passed over and its path noted.
    pub fn strict(&mut self, strict: bool) -> (r: &mut Self)
        requires
            old(self).wf(),
        ensures
            r.wf(),
            r.is_strict() == strict,
            forall|table: Table|
                r.registered(table) == old(self).registered(table)
                    && r.done(table) == old(self).done(table),
            forall|table: Table|
                r.gathers(table) == old(self).gathers(table) && r.received(table) == old(
                    self,
                ).received(table),
            r.noted() == old(self).noted(),
            r.steps() == old(self).steps(),
            *final(self) == *final(r),
    {
        self.strict = strict;
        self
    }

    /// Whether `table` is waiting for its rows.
    pub fn is_pending(&self, table: Table) -> (r: bool)
        requires
            self.wf(),
        ensures
            r == self.pending(table),
    {
        proof {
            table.lemma_index();
        }
        match &self.slots[table.index()] {
            Some(slot) => !slot.is_done(),
            None => false,
        }
    }

    /// Whether no table is waiting for its rows, so that the load has
    /// nothing left to do.
    pub fn is_finished(&self) -> (r: bool)
        requires
            self.wf(),
        ensures
            r == forall|table: Table| !self.pending(table),
    {
        let mut i: usize = 0;
        while i < Table::COUNT
            invariant
                i <= Table::COUNT,
                self.wf(),
                forall|j: int| 0 <= j < i ==> !self.pending(Table::spec_nth(j)),
            decreases Table::COUNT - i,
        {
            if self.is_pending(Table::nth(i)) {
                return false;
            }
            i += 1;
        }
        proof {
            assert forall|table: Table| !self.pending(table) by {
                table.lemma_index();
            }
        }
        true
    }

    /// The paths of the files that loads passed over as no known table.
    pub fn unrecognized(&self) -> (r: &Vec<String>)
        ensures
            texts(r@) == self.noted(),
    {
        &self.noted
    }

    /// Says what a load does with an entry of the file name `name`.
    pub fn action(&self, name: Option<&str>) -> (r: Action)
        requires
            self.wf(),
        ensures
            exists|kind: Selection|
                selects(text_of(name), kind) && r == spec_action(
                    kind,
                    kind matches Selection::Known(table) && self.pending(table),
                    self.is_strict(),
                ),
    {
        let kind = select(name);
        let pending = match kind {
            Selection::Known(table) => self.is_pending(table),
            _ => false,
        };
        match kind {
            Selection::NotCsv => Action::Skip,
            Selection::Retired => Action::Skip,
            Selection::Known(table) => if pending {
                Action::Read(table)
            } else {
                Action::Skip
            },
            Selection::Unrecognized => if self.strict {
                Action::Fail
            } else {
                Action::Note
            },
        }
    }

    /// Makes every table that has a consumer wait for its rows.
    fn begin(&mut self)
        requires
            old(self).wf(),
        ensures
            final(self).wf(),
            forall|t: Table| final(self).registered(t) == old(self).registered(t),
            forall|t: Table| !final(self).done(t),
            forall|t: Table| final(self).nothing_fed(t),
            forall|t: Table| final(self).log(t) == nothing(),
            forall|t: Table| final(self).gathers(t) == old(self).gathers(t),
            forall|t: Table| final(self).received(t) == old(self).received(t),
            final(self).is_strict() == old(self).is_strict(),
            final(self).noted() == old(self).noted(),
            final(self).steps().len() == 0,
    {
        let mut i: usize = 0;
        while i < Table::COUNT
            invariant
                i <= Table::COUNT,
                self.wf(),
                self.strict == old(self).strict,
                self.noted == old(self).noted,
                forall|j: int|
                    0 <= j < Table::COUNT ==> (
                        #[trigger] self.slots[j] is Some
                    ) == (old(self).slots[j] is Some),
                forall|j: int|
                    0 <= j < Table::COUNT ==> (#[trigger] self.slots[j] matches Some(slot)
                        ==> old(self).slots[j] matches Some(was) && slot.gathers()
                        == was.gathers() && slot.received() == was.received()),
                forall|j: int|
                    0 <= j < i ==> (#[trigger] self.slots[j] matches Some(slot) ==> !slot.done()
                        && slot.idle() && slot.log() == nothing()),
            decreases Table::COUNT - i,
        {
            let ghost before = self.slots@;
            match &mut self.slots[i] {
                Some(slot) => {
                    slot.begin();
                },
                None => {},
            }
            proof {
                assert forall|j: int| 0 <= j < Table::COUNT && j != i implies self.slots[j]
                    == before[j] by {}
            }
            i += 1;
        }
        self.steps = Ghost(Seq::empty());
        proof {
            assert forall|t: Table| !self.done(t) && self.nothing_fed(t) && self.registered(t)
                == old(self).registered(t) && self.log(t) == nothing() && self.gathers(t)
                == old(self).gathers(t) && self.received(t) == old(self).received(t) by {
                t.lemma_index();
            }
        }
    }

    /// Reads the table of an entry, which is waiting for its rows.
    fn read_table(&mut self, table: Table, entry: Entry) -> (r: (Result<(), Error>, Ghost<Log>))
        requires
            old(self).wf(),
            old(self).pending(table),
            old(self).nothing_fed(table),
        ensures
            final(self).wf(),
            forall|t: Table| final(self).registered(t) == old(self).registered(t),
            forall|t: Table| t != table ==> final(self).done(t) == old(self).done(t),
            forall|t: Table| t != table ==> final(self).nothing_fed(t) == old(self).nothing_fed(t),
            forall|t: Table| t != table ==> final(self).log(t) == old(self).log(t),
            forall|t: Table| t != table ==> final(self).received(t) == old(self).received(t),
            forall|t: Table| final(self).gathers(t) == old(self).gathers(t),
            !old(self).gathers(table) ==> hands(
                old(self).received(table),
                final(self).received(table),
                table,
                r.1@,
            ),
            final(self).log(table) == r.1@,
            final(self).is_strict() == old(self).is_strict(),
            final(self).noted() == old(self).noted(),
            final(self).steps() == old(self).steps(),
            match r.0 {
                Ok(_) => final(self).done(table),
                Err(e) => !final(self).done(table) && e.table == Some(table) && e.kind.of_table(),
            },
            reads(r.1@, table, r.0),
            log_mirrors(entry_state(entry).0, entry_state(entry).1, r.1@, r.0),
    {
        proof {
            table.lemma_index();
        }
        let i = table.index();
        let ghost before = self.slots@;
        let r = match &mut self.slots[i] {
            Some(slot) => slot.read(entry),
            None => (Ok(()), Ghost(nothing())),
        };
        proof {
            assert forall|j: int| 0 <= j < Table::COUNT && j != i implies self.slots[j]
                == before[j] by {}
            assert forall|t: Table| t != table implies t.spec_index() != i by {
                t.lemma_index();
            }
        }
        r
    }

    /// Moves the records that the loader kept into a dump. For each table
    /// whose records it keeps, the dump holds the records of what the last
    /// load read of the table, if it read the table to the end or not at
    /// all.
    fn into_dump(&mut self) -> (db: DbDump)
        requires
            old(self).wf(),
        ensures
            final(self).wf(),
            forall|t: Table|
                old(self).gathers(t) && (old(self).done(t) || old(self).log(t) == nothing())
                    ==> table_holds(db, t, old(self).log(t)),
    {
        let mut db = DbDump {
            categories: Vec::new(),
            crate_downloads: Vec::new(),
            crate_owners: Vec::new(),
            crates: Vec::new(),
            crates_categories: Vec::new(),
            crates_keywords: Vec::new(),
            dependencies: Vec::new(),
            keywords: Vec::new(),
            metadata: crate::metadata::Row { total_downloads: 0 },
            reserved_crate_names: Vec::new(),
            teams: Vec::new(),
            users: Vec::new(),
            version_downloads: Vec::new(),
            versions: Vec::new(),
        };
        proof {
            assert forall|t: Table| table_holds(db, t, nothing()) by {
                lemma_fresh(db, t);
            }
        }
        let mut i: usize = 0;
        while i < Table::COUNT
            invariant
                i <= Table::COUNT,
                self.wf(),
                old(self).wf(),
                forall|j: int|
                    i <= j < Table::COUNT ==> #[trigger] self.slots[j] == old(self).slots[j],
                forall|j: int|
                    i <= j < Table::COUNT ==> table_holds(
                        db, #[trigger] Table::spec_nth(j), nothing(),
                    ),
                forall|j: int|
                    0 <= j < i ==> (old(self).gathers(#[trigger] Table::spec_nth(j)) && (old(
                        self,
                    ).done(Table::spec_nth(j)) || old(self).log(Table::spec_nth(j)) == nothing())
                        ==> table_holds(db, Table::spec_nth(j), old(self).log(Table::spec_nth(j)))),
            decreases Table::COUNT - i,
        {
            let ghost before = self.slots@;
            let ghost was = db;
            let ghost table = Table::spec_nth(i as int);
            proof {
                assert(table.spec_index() == i) by {
                    Table::lemma_nth(i as int);
                }
            }
            match &mut self.slots[i] {
                Some(slot) => {
                    slot.take_into(&mut db);
                },
                None => {},
            }
            proof {
                assert forall|j: int| 0 <= j < Table::COUNT && j != i implies self.slots[j]
                    == before[j] by {}
                assert forall|j: int| 0 <= j < Table::COUNT && j != i implies Table::spec_nth(j)
                    != table by {
                    Table::lemma_nth(j);
                }
                assert forall|j: int| i < j < Table::COUNT implies table_holds(
                    db,
                    #[trigger] Table::spec_nth(j),
                    nothing(),
                ) by {
                    assert(table_holds(was, Table::spec_nth(j), nothing()));
                }
                assert forall|j: int| 0 <= j < i + 1 implies (old(self).gathers(
                    #[trigger] Table::spec_nth(j),
                ) && (old(self).done(Table::spec_nth(j)) || old(self).log(Table::spec_nth(j))
                    == nothing()) ==> table_holds(
                    db,
                    Table::spec_nth(j),
                    old(self).log(Table::spec_nth(j)),
                )) by {
                    if j < i {
                        let t = Table::spec_nth(j);
                        if old(self).gathers(t) && (old(self).done(t) || old(self).log(t)
                            == nothing()) {
                            assert(table_holds(was, t, old(self).log(t)));
                        }
                    } else {
                        assert(table_holds(was, table, nothing()));
                    }
                }
            }
            i += 1;
        }
        proof {
            assert forall|t: Table| old(self).gathers(t) && (old(self).done(t) || old(self).log(t)
                == nothing()) implies table_holds(db, t, old(self).log(t)) by {
                t.lemma_index();
            }
        }
        db
    }

    /// The steps of a load follow the plan of a load with a consumer for
    /// each table that the loader has one for.
    pub proof fn lemma_follows(&self, steps: Seq<Step>, tables: Set<Table>)
        requires
            self.planned(steps),
            forall|t: Table| tables.contains(t) == self.registered(t),
        ensures
            all_follow(tables, self.is_strict(), steps),
    {
        assert forall|i: int| 0 <= i < steps.len() implies follows(
            tables,
            self.is_strict(),
            steps,
            i,
        ) by {
            assert(self.planned_step(steps, i));
            let t = choose|t: Table| self.waiting(steps, t, i);
            assert(waits(tables, steps, t, i));
            let kind = choose|kind: Selection|
                selects(steps[i].name, kind) && steps[i].action == spec_action(
                    kind,
                    kind matches Selection::Known(table) && self.waiting(steps, table, i),
                    self.is_strict(),
                );
            assert(selects(steps[i].name, kind) && steps[i].action == spec_action(
                kind,
                kind matches Selection::Known(table) && waits(tables, steps, table, i),
                self.is_strict(),
            ));
        }
    }

    /// Whether `after` and `r` are what a load of the archive in `bytes`
    /// makes of this loader.
    ///
    /// The consumers and strictness stay. The steps are what
    /// [`Loader::planned_step`] asks, they went through the entries of the
    /// archive one by one, and each that read a table read what its entry
    /// holds, as [`reads`] says. A load that ends well has no table
    /// waiting, or came to the end of the archive. A load fails on the
    /// archive only where a table is waiting and the archive cannot be
    /// read on; it fails on a file that is no known table only where it is
    /// strict, and that file is its last step; and it fails on a table
    /// only in the step that read it, which is the last. Each consumer
    /// has received, after what it had, one record for each row of its
    /// table that was decoded, in the order of the rows; the paths of the
    /// files that were noted stand after what was noted before.
    pub open spec fn loads(&self, after: Loader<'a>, bytes: Seq<u8>, r: Result<(), Error>) -> bool {
        let steps = after.steps();
        &&& forall|t: Table| after.registered(t) == self.registered(t)
        &&& after.is_strict() == self.is_strict()
        &&& after.noted() == self.noted() + notes(steps)
        &&& (forall|t: Table| !self.registered(t)) ==> r is Ok && steps.len() == 0
        &&& after.planned(steps)
        &&& accounted(steps, r)
        &&& mirrored(bytes, steps, r)
        &&& r is Ok ==> (forall|t: Table| !after.pending(t)) || entry_at(bytes, steps.len()) is End
        &&& r matches Err(e) ==> e.kind is Archive ==> (exists|t: Table| after.pending(t))
            && entry_at(bytes, steps.len()) is Fails
        &&& forall|i: int| 0 <= i < steps.len() - 1 ==> (#[trigger] steps[i]).action != Action::Fail
        &&& steps.len() > 0 && steps.last().action == Action::Fail ==> (r matches Err(e)
            && e.kind is UnrecognizedTable)
        &&& forall|t: Table| after.log(t) == log_of(steps, t)
        &&& forall|t: Table| after.gathers(t) == self.gathers(t)
        &&& forall|t: Table|
            !self.gathers(t) ==> hands(self.received(t), after.received(t), t, after.log(t))
        &&& forall|t: Table|
            after.done(t) <==> read_before(steps, t, steps.len() as int) && !(r matches Err(e)
                && e.table == Some(t))
        &&& match r {
            Ok(_) => forall|i: int| 0 <= i < steps.len() ==> (
                #[trigger] steps[i]
            ).action != Action::Fail,
            Err(e) => match e.table {
                Some(table) => e.kind.of_table() && steps.len() > 0
                    && steps.last().action == Action::Read(table),
                None => e.kind is Archive
                    || (
                        e.kind is UnrecognizedTable && steps.len() > 0
                            && steps.last().action == Action::Fail && e.detail@ == steps.last().path
                    ),
            },
        }
    }

    /// With a consumer for one table only, a load reads no other table, so
    /// that no row of another table is decoded, and it looks at no entry
    /// after the one in which it read that table.
    pub proof fn lemma_one_table(
        &self,
        after: Loader<'a>,
        bytes: Seq<u8>,
        r: Result<(), Error>,
        table: Table,
    )
        requires
            self.loads(after, bytes, r),
            forall|t: Table| self.registered(t) <==> t == table,
        ensures
            forall|i: int|
                0 <= i < after.steps().len() ==> ((#[trigger] after.steps()[i]).action is Read
                    ==> after.steps()[i].action == Action::Read(table)),
            forall|t: Table| t != table ==> after.log(t) == nothing(),
            forall|i: int|
                0 <= i < after.steps().len() && (#[trigger] after.steps()[i]).action
                    == Action::Read(table) ==> i == after.steps().len() - 1,
    {
        let steps = after.steps();
        assert forall|i: int| 0 <= i < steps.len() implies ((#[trigger] steps[i]).action is Read
            ==> steps[i].action == Action::Read(table)) by {
            if let Action::Read(t) = steps[i].action {
                after.lemma_reads_only_registered(steps, t, i);
            }
        }
        assert forall|t: Table| t != table implies after.log(t) == nothing() by {
            if read_before(steps, t, steps.len() as int) {
                let j = choose|j: int|
                    0 <= j < steps.len() && j < steps.len() && (#[trigger] steps[j]).action
                        == Action::Read(t);
                after.lemma_reads_only_registered(steps, t, j);
            }
        }
        assert forall|i: int| 0 <= i < steps.len() && (#[trigger] steps[i]).action == Action::Read(
            table,
        ) implies i == steps.len() - 1 by {
            if i < steps.len() - 1 {
                let n = i + 1;
                assert(after.planned_step(steps, n));
                let t = choose|t: Table| after.waiting(steps, t, n);
                assert(t == table);
                assert(read_before(steps, table, n));
            }
        }
    }

    /// A file that is no known table fails a strict load, which ends at
    /// that file. A load that is not strict passes over the file and notes
    /// its path, and does not fail on it.
    pub proof fn lemma_unrecognized(
        &self,
        after: Loader<'a>,
        bytes: Seq<u8>,
        r: Result<(), Error>,
        i: int,
    )
        requires
            self.loads(after, bytes, r),
            0 <= i < after.steps().len(),
            selects(after.steps()[i].name, Selection::Unrecognized),
        ensures
            self.is_strict() ==> i == after.steps().len() - 1 && (r matches Err(e) && e.kind
                is UnrecognizedTable && e.table is None && e.detail@ == after.steps()[i].path),
            !self.is_strict() ==> after.steps()[i].action == Action::Note && !(r matches Err(e)
                && e.kind is UnrecognizedTable) && after.noted().contains(after.steps()[i].path),
    {
        let steps = after.steps();
        assert(after.planned_step(steps, i));
        let kind = choose|kind: Selection|
            selects(steps[i].name, kind) && steps[i].action == spec_action(
                kind,
                kind matches Selection::Known(table) && after.waiting(steps, table, i),
                after.is_strict(),
            );
        lemma_selects_one(steps[i].name, kind, Selection::Unrecognized);
        if self.is_strict() {
            assert(steps[i].action == Action::Fail);
        } else {
            assert(steps[i].action == Action::Note);
            lemma_notes_has(steps, i);
            let k = choose|k: int| 0 <= k < notes(steps).len() && notes(steps)[k] == steps[i].path;
            assert(after.noted()[self.noted().len() + k] == steps[i].path);
            after.lemma_strict(steps, steps.len() - 1);
        }
    }

    /// A load that is not strict ends well where nothing is wrong with
    /// what it came to: each file that it read has a header row and rows
    /// that are decoded, and the archive can be read on where the load
    /// ended.
    pub proof fn lemma_ends_well(&self, after: Loader<'a>, bytes: Seq<u8>, r: Result<(), Error>)
        requires
            self.loads(after, bytes, r),
            !self.is_strict(),
            !(entry_at(bytes, after.steps().len()) is Fails),
            forall|i: int|
                0 <= i < after.steps().len() ==> ((#[trigger] after.steps()[i]).action matches Action::Read(
                    table,
                ) ==> sound_file(bytes, i as nat, table)),
        ensures
            r is Ok,
    {
        let steps = after.steps();
        match r {
            Ok(_) => {},
            Err(e) => match e.table {
                Some(table) => {
                    let i = steps.len() - 1;
                    assert(step_accounted(steps, i, r));
                    assert(step_mirrors(bytes, steps, i, r));
                    lemma_sound_step(bytes, i as nat, table, steps[i].log, r);
                },
                None => {
                    if e.kind is UnrecognizedTable {
                        after.lemma_strict(steps, steps.len() - 1);
                    }
                },
            },
        }
    }

    /// Walks the archive in `archive` and hands the records of each table
    /// that has a consumer to that consumer.
    ///
    /// At the start every table that has a consumer waits for its rows.
    /// Before each entry the load ends if no table is waiting any more. An
    /// entry is read only if it is the file of a table that is waiting;
    /// when its rows are exhausted the table is done, and a later file of
    /// the same table is passed over. The first error ends the load; what
    /// consumers were handed before stays with them.
    ///
    /// What the entries of the archive hold is for the readers of other
    /// crates to say. The contract speaks of the steps that the load took
    /// through them, as [`Loader::loads`] has it.
    pub fn load(&mut self, archive: &[u8]) -> (r: Result<(), Error>)
        requires
            old(self).wf(),
        ensures
            final(self).wf(),
            old(self).loads(*final(self), archive@, r),
    {
        self.begin();
        proof {
            assert forall|t: Table|
                hands(old(self).received(t), self.received(t), t, self.log(t)) by {
                lemma_hands_nothing(self.received(t), t);
            }
        }
        if self.is_finished() {
            return Ok(());
        }
        let mut tar = open(archive);
        let mut list = match entries(&mut tar) {
            Ok(list) => list,
            Err(message) => {
                return Err(Error::new(ErrorKind::Archive, message));
            },
        };
        loop
            invariant
                self.wf(),
                !(forall|t: Table| !old(self).registered(t)),
                forall|t: Table| self.registered(t) == old(self).registered(t),
                self.is_strict() == old(self).is_strict(),
                self.noted() == old(self).noted() + notes(self.steps()),
                self.planned(self.steps()),
                accounted(self.steps(), Ok(())),
                mirrored(archive@, self.steps(), Ok(())),
                entries_state(list) == (archive@, self.steps().len()),
                forall|t: Table| self.log(t) == log_of(self.steps(), t),
                forall|t: Table| self.gathers(t) == old(self).gathers(t),
                forall|t: Table|
                    !self.gathers(t) ==> hands(
                        old(self).received(t),
                        self.received(t),
                        t,
                        self.log(t),
                    ),
                forall|t: Table| !self.done(t) ==> self.received(t) == old(self).received(t),
                forall|t: Table|
                    self.done(t) <==> read_before(self.steps(), t, self.steps().len() as int),
                forall|t: Table| !self.done(t) ==> self.nothing_fed(t),
                forall|i: int|
                    0 <= i < self.steps().len() ==> (#[trigger] self.steps()[i]).action
                        != Action::Fail,
            decreases entries_left(list),
        {
            if self.is_finished() {
                return Ok(());
            }
            let entry = match next_entry(&mut list) {
                Some(Ok(entry)) => entry,
                Some(Err(message)) => {
                    let e = Error::new(ErrorKind::Archive, message);
                    proof {
                        lemma_accounted_end(self.steps(), Err(e));
                        lemma_mirrored_end(archive@, self.steps(), Err(e));
                    }
                    return Err(e);
                },
                None => {
                    return Ok(());
                },
            };
            let path = path(&entry);
            let name = file_name(path.as_str());
            let action = self.action(Some(name.as_str()));
            let ghost before = *self;
            let ghost way = path@;
            let ghost written = Some(name@);
            let (failure, log): (Option<Error>, Ghost<Log>) = match action {
                Action::Skip => (None, Ghost(nothing())),
                Action::Note => {
                    self.noted.push(path);
                    proof {
                        assert(self.noted() =~= before.noted().push(way));
                    }
                    (None, Ghost(nothing()))
                },
                Action::Fail => {
                    (Some(Error::new(ErrorKind::UnrecognizedTable, path)), Ghost(nothing()))
                },
                Action::Read(table) => {
                    let (read, log) = self.read_table(table, entry);
                    match read {
                        Ok(_) => (None, log),
                        Err(e) => (Some(e), log),
                    }
                },
            };
            let ghost step = Step { path: way, name: written, action, log: log@ };
            let ghost result = ended(failure);
            let ghost acted = *self;
            self.steps = Ghost(acted.steps().push(step));
            proof {
                lemma_notes_step(before.steps(), step);
                assert(self.noted() =~= old(self).noted() + notes(self.steps()));
                before.lemma_stepped(&*self, step);
                lemma_accounted_step(before.steps(), step, result);
                lemma_mirrored_step(archive@, before.steps(), step, result);
                assert forall|t: Table| self.log(t) == log_of(self.steps(), t) by {
                    before.lemma_log_step(step, t);
                    if action == Action::Read(t) {
                    } else {
                        assert(self.log(t) == before.log(t));
                    }
                }
                assert forall|t: Table| self.done(t) <==> (read_before(
                    self.steps(),
                    t,
                    self.steps().len() as int,
                ) && !(result matches Err(e) && e.table == Some(t))) by {
                    if action == Action::Read(t) {
                    } else {
                        assert(self.done(t) == before.done(t));
                    }
                }
                assert forall|t: Table| !self.gathers(t) implies hands(
                    old(self).received(t),
                    self.received(t),
                    t,
                    self.log(t),
                ) by {
                    if action == Action::Read(t) {
                        assert(before.pending(t));
                        assert(before.received(t) == old(self).received(t));
                        assert(self.received(t) == acted.received(t));
                        assert(self.log(t) == log@);
                        assert(hands(before.received(t), acted.received(t), t, log@));
                    } else {
                        assert(self.received(t) == before.received(t));
                        assert(self.log(t) == before.log(t));
                        assert(self.gathers(t) == before.gathers(t));
                    }
                }
                assert forall|t: Table| !self.done(t) && result is Ok implies self.received(t)
                    == old(self).received(t) by {
                    if action == Action::Read(t) {
                    } else {
                        assert(self.received(t) == before.received(t));
                        assert(self.done(t) == before.done(t));
                    }
                }
                assert forall|t: Table| !self.done(t) && result is Ok implies self.nothing_fed(
                    t,
                ) by {
                    if action == Action::Read(t) {
                    } else {
                        assert(self.nothing_fed(t) == before.nothing_fed(t));
                    }
                }
            }
            match failure {
                Some(e) => {
                    return Err(e);
                },
                None => {},
            }
        }
    }

    /// The log of a table after one more step: that of the step if it read
    /// the table, and what it was before if not.
    proof fn lemma_log_step(&self, step: Step, table: Table)
        requires
            self.planned(self.steps()),
            step.action == Action::Read(table) ==> !read_before(
                self.steps(),
                table,
                self.steps().len() as int,
            ),
        ensures
            log_of(self.steps().push(step), table) == (if step.action == Action::Read(table) {
                step.log
            } else {
                log_of(self.steps(), table)
            }),
    {
        let steps = self.steps();
        let next = steps.push(step);
        let n = steps.len() as int;
        if step.action == Action::Read(table) {
            assert(next[n].action == Action::Read(table));
            assert(read_before(next, table, n + 1));
            let j = choose|j: int|
                0 <= j < next.len() && j < next.len() && (#[trigger] next[j]).action
                    == Action::Read(table);
            if j < n {
                assert(steps[j].action == Action::Read(table));
                assert(read_before(steps, table, n));
            }
        } else if read_before(next, table, n + 1) {
            let j = choose|j: int|
                0 <= j < next.len() && j < next.len() && (#[trigger] next[j]).action
                    == Action::Read(table);
            assert(j < n);
            assert(steps[j].action == Action::Read(table));
            assert(read_before(steps, table, n));
            let k = choose|k: int|
                0 <= k < steps.len() && k < steps.len() && (#[trigger] steps[k]).action
                    == Action::Read(table);
            if j < k {
                self.lemma_reads_once(steps, table, j, k);
            } else if k < j {
                self.lemma_reads_once(steps, table, k, j);
            }
            assert(next[j] == steps[j]);
        } else {
            if read_before(steps, table, n) {
                let k = choose|k: int|
                    0 <= k < n && k < steps.len() && (#[trigger] steps[k]).action == Action::Read(
                        table,
                    );
                assert(next[k].action == Action::Read(table));
                assert(read_before(next, table, n + 1));
            }
        }
    }

    /// What a load does goes by the consumers and by strictness alone.
    proof fn lemma_same_plan(&self, other: &Loader, steps: Seq<Step>)
        requires
            forall|t: Table| self.registered(t) == other.registered(t),
            self.is_strict() == other.is_strict(),
            self.planned(steps),
        ensures
            other.planned(steps),
    {
        assert forall|i: int| 0 <= i < steps.len() implies other.planned_step(steps, i) by {
            assert(self.planned_step(steps, i));
            let t = choose|t: Table| self.waiting(steps, t, i);
            assert(other.waiting(steps, t, i));
            let kind = choose|kind: Selection|
                selects(steps[i].name, kind) && steps[i].action == spec_action(
                    kind,
                    kind matches Selection::Known(table) && self.waiting(steps, table, i),
                    self.is_strict(),
                );
            assert(selects(steps[i].name, kind) && steps[i].action == spec_action(
                kind,
                kind matches Selection::Known(table) && other.waiting(steps, table, i),
                other.is_strict(),
            ));
        }
    }

    /// The step that `action` picks keeps the steps to the plan, and tells
    /// which tables were read.
    proof fn lemma_stepped(&self, after: &Loader, step: Step)
        requires
            after.steps() == self.steps().push(step),
            forall|t: Table| self.registered(t) == after.registered(t),
            self.is_strict() == after.is_strict(),
            self.planned(self.steps()),
            forall|t: Table|
                self.done(t) <==> read_before(self.steps(), t, self.steps().len() as int),
            exists|t: Table| self.pending(t),
            exists|kind: Selection|
                selects(step.name, kind) && step.action == spec_action(
                    kind,
                    kind matches Selection::Known(table) && self.pending(table),
                    self.is_strict(),
                ),
        ensures
            after.planned(after.steps()),
            forall|t: Table|
                read_before(self.steps().push(step), t, self.steps().len() as int + 1) <==> (
                self.done(t) || step.action == Action::Read(t)),
            step.action matches Action::Read(t) ==> self.pending(t),
    {
        let steps = self.steps();
        let next = steps.push(step);
        let n = steps.len() as int;
        assert forall|t: Table, i: int| 0 <= i <= n implies (read_before(next, t, i)
            <==> read_before(steps, t, i)) by {
            if read_before(next, t, i) {
                let j = choose|j: int|
                    0 <= j < i && j < next.len() && (#[trigger] next[j]).action == Action::Read(t);
                assert(steps[j].action == Action::Read(t));
            }
            if read_before(steps, t, i) {
                let j = choose|j: int|
                    0 <= j < i && j < steps.len() && (#[trigger] steps[j]).action == Action::Read(
                        t,
                    );
                assert(next[j].action == Action::Read(t));
            }
        }
        assert forall|i: int| 0 <= i < next.len() implies self.planned_step(next, i) by {
            if i < n {
                assert(self.planned_step(steps, i));
                let t = choose|t: Table| self.waiting(steps, t, i);
                assert(self.waiting(next, t, i));
                let kind = choose|kind: Selection|
                    selects(steps[i].name, kind) && steps[i].action == spec_action(
                        kind,
                        kind matches Selection::Known(table) && self.waiting(steps, table, i),
                        self.is_strict(),
                    );
                assert(selects(next[i].name, kind) && next[i].action == spec_action(
                    kind,
                    kind matches Selection::Known(table) && self.waiting(next, table, i),
                    self.is_strict(),
                ));
            } else {
                let t = choose|t: Table| self.pending(t);
                assert(self.waiting(next, t, i));
                let kind = choose|kind: Selection|
                    selects(step.name, kind) && step.action == spec_action(
                        kind,
                        kind matches Selection::Known(table) && self.pending(table),
                        self.is_strict(),
                    );
                assert(selects(next[i].name, kind) && next[i].action == spec_action(
                    kind,
                    kind matches Selection::Known(table) && self.waiting(next, table, i),
                    self.is_strict(),
                ));
            }
        }
        assert(self.planned(next));
        self.lemma_same_plan(after, next);
        assert forall|t: Table| read_before(next, t, n + 1) <==> (self.done(t) || step.action
            == Action::Read(t)) by {
            if read_before(next, t, n + 1) {
                let j = choose|j: int|
                    0 <= j < n + 1 && j < next.len() && (#[trigger] next[j]).action
                        == Action::Read(t);
                if j < n {
                    assert(steps[j].action == Action::Read(t));
                    assert(read_before(steps, t, n));
                }
            }
            if self.done(t) {
                assert(read_before(steps, t, n));
                assert(read_before(next, t, n));
                let j = choose|j: int|
                    0 <= j < n && j < next.len() && (#[trigger] next[j]).action == Action::Read(t);
                assert(0 <= j < n + 1);
            }
            if step.action == Action::Read(t) {
                assert(next[n].action == Action::Read(t));
            }
        }
    }
}

/// Whether `r` is what loading every table of the archive in `bytes` gives
/// where the load took the steps `steps`: the steps are those of a load
/// that is not strict and has a consumer for every table that the loader
/// reads; they went through the entries of the archive one by one, and
/// each that read a table read what its entry holds, as [`reads`] says;
/// and where no error ended the load, it ended when every table was read
/// or the archive had no further entry, and the dump holds for each table
/// the records of the rows that its step read.
pub open spec fn loaded(bytes: Seq<u8>, steps: Seq<Step>, r: Result<DbDump, Error>) -> bool {
    &&& all_follow(loadable(), false, steps)
    &&& match r {
        Ok(db) => accounted(steps, Ok(())) && mirrored(bytes, steps, Ok(())) && ends(
            bytes,
            loadable(),
            steps,
        ) && forall|t: Table| t.spec_loadable() ==> table_holds(db, t, log_of(steps, t)),
        Err(e) => accounted(steps, Err(e)) && mirrored(bytes, steps, Err(e)) && match e.table {
            Some(table) => e.kind.of_table() && steps.len() > 0 && steps.last().action
                == Action::Read(table),
            None => e.kind is Archive && entry_at(bytes, steps.len()) is Fails && exists|
                t: Table,
            | waits(loadable(), steps, t, steps.len() as int),
        },
    }
}

/// Loading every table gives a dump where nothing is wrong with what the
/// load came to: each file that it read has a header row and rows that
/// are decoded, and the archive can be read on where the load ended.
pub proof fn lemma_loaded_well(bytes: Seq<u8>, steps: Seq<Step>, r: Result<DbDump, Error>)
    requires
        loaded(bytes, steps, r),
        !(entry_at(bytes, steps.len()) is Fails),
        forall|i: int|
            0 <= i < steps.len() ==> ((#[trigger] steps[i]).action matches Action::Read(table)
                ==> sound_file(bytes, i as nat, table)),
    ensures
        r is Ok,
{
    match r {
        Ok(_) => {},
        Err(e) => match e.table {
            Some(table) => {
                let i = steps.len() - 1;
                assert(step_accounted(steps, i, Err(e)));
                assert(step_mirrors(bytes, steps, i, Err(e)));
                lemma_sound_step(bytes, i as nat, table, steps[i].log, Err(e));
            },
            None => {},
        },
    }
}

/// Decodes every table of the dump in `archive` into memory.
///
/// This is a load that keeps the records of every table, and a dump made
/// of what was kept. A load of fewer tables through [`Loader`] reads less.
///
/// What the entries of the archive hold is for the readers of other
/// crates to say; the contract speaks of the steps that the load took
/// through them.
pub fn load_all(archive: &[u8]) -> (r: Result<DbDump, Error>)
    ensures
        exists|steps: Seq<Step>| loaded(archive@, steps, r),
{
    do_load_all(archive)
}

/// Whether `loader` keeps the records of each table that it reads and
/// that stands before place `n`, and has nothing for any other table.
spec fn keeps_before(loader: Loader, n: int) -> bool {
    forall|t: Table|
        #![trigger loader.registered(t)]
        #![trigger loader.gathers(t)]
        loader.registered(t) == (t.spec_loadable() && t.spec_index() < n) && loader.gathers(t)
            == (t.spec_loadable() && t.spec_index() < n)
}

/// Makes `loader`, which keeps the records of the tables before the table
/// of `T`, keep those of that table too.
fn keep<'a, T: Stored + 'a>(loader: &mut Loader<'a>)
    requires
        old(loader).wf(),
        T::table().spec_loadable(),
        same_faults::<T>(),
        keeps_before(*old(loader), T::table().spec_index()),
    ensures
        final(loader).wf(),
        final(loader).is_strict() == old(loader).is_strict(),
        keeps_before(*final(loader), T::table().spec_index() + 1),
{
    let ghost before = *loader;
    let ghost table = T::table();
    loader.register(T::source(), Box::new(Callback::<T>::gathering()));
    proof {
        assert forall|t: Table|
            #![trigger loader.registered(t)]
            #![trigger loader.gathers(t)]
            loader.registered(t) == (t.spec_loadable() && t.spec_index() < table.spec_index() + 1)
                && loader.gathers(t) == (t.spec_loadable() && t.spec_index() < table.spec_index()
                + 1) by {
            if t != table {
                t.lemma_index();
                table.lemma_index();
                assert(loader.registered(t) == before.registered(t));
                assert(loader.gathers(t) == before.gathers(t));
            }
        }
    }
}

/// A loader that keeps the records of every table that it reads.
fn keeper<'a>() -> (r: Loader<'a>)
    ensures
        r.wf(),
        !r.is_strict(),
        forall|t: Table| r.registered(t) == t.spec_loadable(),
        forall|t: Table| t.spec_loadable() ==> r.gathers(t),
{
    let mut loader = Loader::new();
    // The tables are taken in the order of their places. Where a table
    // that is not read stands between two that are, the place moves on
    // over it.
    assert(keeps_before(loader, 0));
    assert(keeps_before(loader, 1));
    keep::<crate::categories::Row>(&mut loader);
    keep::<crate::crate_downloads::Row>(&mut loader);
    keep::<crate::crate_owners::Row>(&mut loader);
    keep::<crate::crates::Row>(&mut loader);
    keep::<crate::crates_categories::Row>(&mut loader);
    keep::<crate::crates_keywords::Row>(&mut loader);
    assert(keeps_before(loader, 9));
    keep::<crate::dependencies::Row>(&mut loader);
    keep::<crate::keywords::Row>(&mut loader);
    keep::<crate::metadata::Row>(&mut loader);
    keep::<crate::reserved_crate_names::Row>(&mut loader);
    keep::<crate::teams::Row>(&mut loader);
    keep::<crate::users::Row>(&mut loader);
    assert(keeps_before(loader, 16));
    keep::<crate::version_downloads::Row>(&mut loader);
    keep::<crate::versions::Row>(&mut loader);
    assert forall|t: Table| loader.registered(t) == t.spec_loadable() && (t.spec_loadable()
        ==> loader.gathers(t)) by {
        t.lemma_index();
    }
    loader
}

fn do_load_all(archive: &[u8]) -> (r: Result<DbDump, Error>)
    ensures
        exists|steps: Seq<Step>| loaded(archive@, steps, r),
{
    let mut loader = keeper();
    let r = loader.load(archive);
    let ghost result = r;
    let ghost steps = loader.steps();
    proof {
        assert(loadable() =~= Set::new(|t: Table| loader.registered(t)));
        loader.lemma_follows(steps, loadable());
        if steps.len() > 0 {
            assert(loader.planned_step(steps, steps.len() - 1));
        }
    }
    match r {
        Ok(_) => {
            let ghost after = loader;
            let db = loader.into_dump();
            proof {
                assert forall|i: int| 0 <= i < steps.len() implies #[trigger] step_accounted(
                    steps,
                    i,
                    Ok(()),
                ) by {
                    assert(step_accounted(steps, i, result));
                }
                assert forall|i: int| 0 <= i < steps.len() implies #[trigger] step_mirrors(
                    archive@,
                    steps,
                    i,
                    Ok(()),
                ) by {
                    assert(step_mirrors(archive@, steps, i, result));
                }
                assert forall|t: Table| t.spec_loadable() implies table_holds(
                    db,
                    t,
                    log_of(steps, t),
                ) by {
                    assert(after.gathers(t));
                    assert(after.log(t) == log_of(steps, t));
                    if !after.done(t) {
                        assert(!read_before(steps, t, steps.len() as int));
                        assert(log_of(steps, t) == nothing());
                    }
                    assert(table_holds(db, t, after.log(t)));
                }
                assert(ends(archive@, loadable(), steps)) by {
                    if !(entry_at(archive@, steps.len()) is End) {
                        assert forall|t: Table| loadable().contains(t) implies read_before(
                            steps,
                            t,
                            steps.len() as int,
                        ) by {
                            assert(!after.pending(t));
                        }
                    }
                }
                assert(loaded(archive@, steps, Ok(db)));
            }
            Ok(db)
        },
        Err(e) => {
            proof {
                if e.table is None && e.kind is Archive {
                    let t = choose|t: Table| loader.pending(t);
                    assert(loader.pending(t));
                    assert(waits(loadable(), steps, t, steps.len() as int));
                }
                assert(loaded(archive@, steps, Err::<DbDump, Error>(e)));
            }
            Err(e)
        },
    }
}

} // verus!
