//! What a load does with the entries of an archive, as plain decisions:
//! what the file name of an entry says of it, what is done with it, and
//! what the steps of a whole load must look like.

use vstd::prelude::*;
use crate::archive::{entry_at, headers_at, path_at, row_at};
use crate::error::{Error, ErrorKind};
use crate::record::{layout_of, record_fault, schema_ok, FromRecord, LayoutView};
use crate::table::Table;
use crate::text::{bytes_of, bytes_of_each, lemma_split_some, split, split_text, str_eq, text_of};

verus! {

/// What the file name of an archive entry says of the entry.
#[derive(Copy, Clone, Debug, PartialEq, Eq, Structural)]
pub enum Selection {
    /// No file of delimited text.
    NotCsv,
    /// The file of a table that is passed over on purpose.
    Retired,
    /// The file of a table that the loader reads.
    Known(Table),
    /// A file of delimited text that is no table known here.
    Unrecognized,
}

/// What the loader does with an archive entry.
#[derive(Copy, Clone, Debug, PartialEq, Eq, Structural)]
pub enum Action {
    /// Pass over the entry without reading its content.
    Skip,
    /// Decode the rows of the table and hand them to its consumer.
    Read(Table),
    /// Pass over the entry and note its path.
    Note,
    /// End the load with an error.
    Fail,
}

/// Whether the bytes of a file name end in the extension `csv`: a period
/// that is not the first byte, then `csv`.
pub open spec fn is_csv(name: Seq<u8>) -> bool {
    &&& name.len() > 4
    &&& name[name.len() - 4] == 0x2e
    &&& name[name.len() - 3] == 0x63
    &&& name[name.len() - 2] == 0x73
    &&& name[name.len() - 1] == 0x76
}

/// Whether `name` is the file of a table that is passed over on purpose.
pub open spec fn is_retired(name: Seq<char>) -> bool {
    name == "badges.csv"@ || name == "version_authors.csv"@
}

/// Whether `kind` is what the file name `name` says of an entry. An entry
/// without a file name is no file of delimited text.
pub open spec fn selects(name: Option<Seq<char>>, kind: Selection) -> bool {
    match name {
        None => kind == Selection::NotCsv,
        Some(name) => match kind {
            Selection::NotCsv => !is_csv(bytes_of(name)),
            Selection::Retired => is_csv(bytes_of(name)) && is_retired(name),
            Selection::Known(table) => is_csv(bytes_of(name)) && !is_retired(name)
                && table.spec_loadable() && table.spec_file_name() == name,
            Selection::Unrecognized => is_csv(bytes_of(name)) && !is_retired(name) && forall|
                table: Table,
            |
                table.spec_loadable() ==> #[trigger] table.spec_file_name() != name,
        },
    }
}

/// The file name of a table that the loader reads says of an entry that it
/// is the file of that table, and nothing else.
pub proof fn lemma_known_only(table: Table, kind: Selection)
    requires
        table.spec_loadable(),
        selects(Some(table.spec_file_name()), kind),
    ensures
        kind == Selection::Known(table),
{
    let name = table.spec_file_name();
    table.lemma_file_name_ends();
    vstd::utf8::is_ascii_chars_encode_utf8(name);
    assert(is_csv(bytes_of(name)));
    if is_retired(name) {
        if name == Table::Badges.spec_file_name() {
            Table::Badges.lemma_file_names_differ(table);
        } else {
            Table::VersionAuthors.lemma_file_names_differ(table);
        }
    }
    match kind {
        Selection::Known(other) => {
            other.lemma_file_names_differ(table);
        },
        _ => {},
    }
}

/// A file name says one thing of an entry.
pub proof fn lemma_selects_one(name: Option<Seq<char>>, a: Selection, b: Selection)
    requires
        selects(name, a),
        selects(name, b),
    ensures
        a == b,
{
    match (a, b) {
        (Selection::Known(s), Selection::Known(t)) => {
            s.lemma_file_names_differ(t);
        },
        (Selection::Known(s), Selection::Unrecognized) => {
            assert(s.spec_file_name() == name->0);
        },
        (Selection::Unrecognized, Selection::Known(t)) => {
            assert(t.spec_file_name() == name->0);
        },
        _ => {},
    }
}

/// The action for an entry: only a table that is waiting for its rows is
/// read, and a file that is no known table is an error under `strict` and
/// noted otherwise.
pub open spec fn spec_action(kind: Selection, waiting: bool, strict: bool) -> Action {
    match kind {
        Selection::NotCsv => Action::Skip,
        Selection::Retired => Action::Skip,
        Selection::Known(table) => if waiting {
            Action::Read(table)
        } else {
            Action::Skip
        },
        Selection::Unrecognized => if strict {
            Action::Fail
        } else {
            Action::Note
        },
    }
}

/// Says what a file name makes of an archive entry.
pub fn select(name: Option<&str>) -> (r: Selection)
    ensures
        selects(text_of(name), r),
{
    let text = match name {
        Some(text) => text,
        None => {
            return Selection::NotCsv;
        },
    };
    let b = text.as_bytes();
    let n = b.len();
    if !(n > 4 && b[n - 4] == 0x2e && b[n - 3] == 0x63 && b[n - 2] == 0x73 && b[n - 1] == 0x76) {
        return Selection::NotCsv;
    }
    if str_eq(text, "badges.csv") || str_eq(text, "version_authors.csv") {
        return Selection::Retired;
    }
    let mut i: usize = 0;
    while i < Table::COUNT
        invariant
            i <= Table::COUNT,
            name == Some(text),
            is_csv(bytes_of(text@)),
            !is_retired(text@),
            forall|j: int|
                0 <= j < i && Table::spec_nth(j).spec_loadable() ==> Table::spec_nth(
                    j,
                ).spec_file_name() != text@,
        decreases Table::COUNT - i,
    {
        let table = Table::nth(i);
        if table.loadable() && str_eq(text, table.file_name()) {
            return Selection::Known(table);
        }
        i += 1;
    }
    assert forall|table: Table| table.spec_loadable() implies #[trigger] table.spec_file_name()
        != text@ by {
        table.lemma_index();
    }
    Selection::Unrecognized
}

/// What a step read: the header row of a file, and the rows after it that
/// the step came to, in the order of the file.
pub struct Log {
    pub headers: Seq<Seq<char>>,
    pub rows: Seq<Seq<Seq<char>>>,
}

/// The log of a step that read nothing.
pub open spec fn nothing() -> Log {
    Log { headers: Seq::empty(), rows: Seq::empty() }
}

/// Whether `name` is the file name in `path`: what stands after the last
/// slash, or the whole path if it has no slash.
pub open spec fn names(path: Seq<char>, name: Seq<char>) -> bool {
    bytes_of(name) == split(bytes_of(path), 0x2f).last()
}

/// The file name in a path.
pub fn file_name(path: &str) -> (r: String)
    ensures
        names(path@, r@),
{
    proof {
        lemma_split_some(bytes_of(path@), 0x2f);
    }
    let mut pieces = split_text(path, 0x2f);
    let ghost all = pieces@;
    assert(bytes_of_each(all).last() == bytes_of(all.last()@));
    match pieces.pop() {
        Some(name) => name,
        None => String::new(),
    }
}

/// One step of a load: the path and the file name of an archive entry,
/// what the load did with the entry, and what it read if it read a table.
pub struct Step {
    pub path: Seq<char>,
    pub name: Option<Seq<char>>,
    pub action: Action,
    pub log: Log,
}

/// The paths of the entries that the steps noted, in the order of the
/// steps.
pub open spec fn notes(steps: Seq<Step>) -> Seq<Seq<char>>
    decreases steps.len(),
{
    if steps.len() == 0 {
        Seq::empty()
    } else if steps.last().action == Action::Note {
        notes(steps.drop_last()).push(steps.last().path)
    } else {
        notes(steps.drop_last())
    }
}

/// The path of a step that noted its entry is among the paths that the
/// steps noted.
pub proof fn lemma_notes_has(steps: Seq<Step>, i: int)
    requires
        0 <= i < steps.len(),
        steps[i].action == Action::Note,
    ensures
        notes(steps).contains(steps[i].path),
    decreases steps.len(),
{
    let before = notes(steps.drop_last());
    if i == steps.len() - 1 {
        assert(notes(steps)[before.len() as int] == steps[i].path);
    } else {
        lemma_notes_has(steps.drop_last(), i);
        let k = choose|k: int| 0 <= k < before.len() && before[k] == steps[i].path;
        assert(notes(steps)[k] == steps[i].path);
    }
}

/// What one more step notes.
pub proof fn lemma_notes_step(steps: Seq<Step>, step: Step)
    ensures
        notes(steps.push(step)) == (if step.action == Action::Note {
            notes(steps).push(step.path)
        } else {
            notes(steps)
        }),
{
    assert(steps.push(step).drop_last() =~= steps);
}

/// Whether one of the steps before step `i` read `table`.
pub open spec fn read_before(steps: Seq<Step>, table: Table, i: int) -> bool {
    exists|j: int|
        0 <= j < i && j < steps.len() && (#[trigger] steps[j]).action == Action::Read(table)
}

/// The log of the step that read `table`, or the log of nothing if no
/// step read it.
pub open spec fn log_of(steps: Seq<Step>, table: Table) -> Log {
    if read_before(steps, table, steps.len() as int) {
        steps[choose|j: int|
            0 <= j < steps.len() && j < steps.len() && (#[trigger] steps[j]).action
                == Action::Read(table)].log
    } else {
        nothing()
    }
}

/// The tables that the loader reads.
pub open spec fn loadable() -> Set<Table> {
    Set::new(|table: Table| table.spec_loadable())
}

/// Whether `table` was waiting for its rows at step `i` of `steps`, in a
/// load with a consumer for each of `tables`: it is one of them, and no
/// earlier step read it.
pub open spec fn waits(tables: Set<Table>, steps: Seq<Step>, table: Table, i: int) -> bool {
    tables.contains(table) && !read_before(steps, table, i)
}

/// Whether step `i` of `steps` is what a load with a consumer for each of
/// `tables` does: some table was still waiting, and the entry was dealt
/// with as its file name and the waiting tables ask.
pub open spec fn follows(tables: Set<Table>, strict: bool, steps: Seq<Step>, i: int) -> bool {
    &&& exists|table: Table| waits(tables, steps, table, i)
    &&& exists|kind: Selection|
        selects(steps[i].name, kind) && steps[i].action == spec_action(
            kind,
            kind matches Selection::Known(table) && waits(tables, steps, table, i),
            strict,
        )
}

/// Whether every step of `steps` is what a load with a consumer for each
/// of `tables` does.
pub open spec fn all_follow(tables: Set<Table>, strict: bool, steps: Seq<Step>) -> bool {
    forall|i: int| 0 <= i < steps.len() ==> follows(tables, strict, steps, i)
}

/// What is wrong with the cells of a row of `table`.
pub open spec fn cells_fault(table: Table, layout: LayoutView, row: Seq<Seq<char>>) -> Option<
    ErrorKind,
> {
    match table {
        Table::Badges => <crate::badges::Row as FromRecord>::fault(layout, row),
        Table::Categories => <crate::categories::Row as FromRecord>::fault(layout, row),
        Table::CrateDownloads => <crate::crate_downloads::Row as FromRecord>::fault(layout, row),
        Table::CrateOwners => <crate::crate_owners::Row as FromRecord>::fault(layout, row),
        Table::Crates => <crate::crates::Row as FromRecord>::fault(layout, row),
        Table::CratesCategories => <crate::crates_categories::Row as FromRecord>::fault(
            layout, row,
        ),
        Table::CratesKeywords => <crate::crates_keywords::Row as FromRecord>::fault(layout, row),
        Table::DefaultVersions => <crate::default_versions::Row as FromRecord>::fault(layout, row),
        Table::DeletedCrates => <crate::deleted_crates::Row as FromRecord>::fault(layout, row),
        Table::Dependencies => <crate::dependencies::Row as FromRecord>::fault(layout, row),
        Table::Keywords => <crate::keywords::Row as FromRecord>::fault(layout, row),
        Table::Metadata => <crate::metadata::Row as FromRecord>::fault(layout, row),
        Table::ReservedCrateNames => <crate::reserved_crate_names::Row as FromRecord>::fault(
            layout, row,
        ),
        Table::Teams => <crate::teams::Row as FromRecord>::fault(layout, row),
        Table::Users => <crate::users::Row as FromRecord>::fault(layout, row),
        Table::VersionAuthors => <crate::version_authors::Row as FromRecord>::fault(layout, row),
        Table::VersionDownloads => <crate::version_downloads::Row as FromRecord>::fault(
            layout, row,
        ),
        Table::Versions => <crate::versions::Row as FromRecord>::fault(layout, row),
    }
}

/// Whether `row` is decoded into a record under the header row `headers`
/// of a file of `table`.
pub open spec fn decodes(table: Table, headers: Seq<Seq<char>>, row: Seq<Seq<char>>) -> bool {
    &&& schema_ok(table, headers)
    &&& row.len() == headers.len()
    &&& cells_fault(table, layout_of(table, headers), row) is None
}

/// The rows of `log` that are decoded: all of them, but for the last one
/// where that is a row that is not decoded.
pub open spec fn decoded(table: Table, log: Log) -> Seq<Seq<Seq<char>>> {
    if log.rows.len() > 0 && !decodes(table, log.headers, log.rows.last()) {
        log.rows.drop_last()
    } else {
        log.rows
    }
}

/// Whether `kind` is what is wrong with `row` under the header row
/// `headers` of a file of `table`.
pub open spec fn fails(
    table: Table,
    headers: Seq<Seq<char>>,
    row: Seq<Seq<char>>,
    kind: ErrorKind,
) -> bool {
    record_fault(
        table,
        headers,
        row.len(),
        cells_fault(table, layout_of(table, headers), row),
        kind,
    )
}

/// Whether the rows in `log.rows[..n]` are all decoded.
pub open spec fn all_decode(table: Table, log: Log, n: int) -> bool {
    forall|k: int|
        0 <= k < n && k < log.rows.len() ==> decodes(table, log.headers, #[trigger] log.rows[k])
}

/// Whether `log` is what a step read in a file of `table` with the result
/// `result`: every row that it came to is one that is decoded, but for the
/// last one where the step ended in an error that is not the reader's, and
/// the error is what is wrong with that row.
pub open spec fn reads(log: Log, table: Table, result: Result<(), Error>) -> bool {
    match result {
        Ok(_) => all_decode(table, log, log.rows.len() as int),
        Err(e) => e.table == Some(table) && if e.kind is Tokenize {
            all_decode(table, log, log.rows.len() as int)
        } else {
            &&& log.rows.len() > 0
            &&& all_decode(table, log, log.rows.len() - 1)
            &&& fails(table, log.headers, log.rows.last(), e.kind)
        },
    }
}

/// The result of step `i` of a load that ended in `result`: an error that
/// names a table is the result of the last step, and every other step went
/// well.
pub open spec fn outcome(steps: Seq<Step>, i: int, result: Result<(), Error>) -> Result<(), Error> {
    if i == steps.len() - 1 && (result matches Err(e) && e.table is Some) {
        result
    } else {
        Ok(())
    }
}

/// Whether step `i` read its table as [`reads`] says, if it read one.
pub open spec fn step_accounted(steps: Seq<Step>, i: int, result: Result<(), Error>) -> bool {
    steps[i].action matches Action::Read(table) ==> reads(
        steps[i].log,
        table,
        outcome(steps, i, result),
    )
}

/// Whether each step that read a table read it as [`reads`] says.
pub open spec fn accounted(steps: Seq<Step>, result: Result<(), Error>) -> bool {
    forall|i: int| 0 <= i < steps.len() ==> #[trigger] step_accounted(steps, i, result)
}

/// Whether `log` is what the entry at place `k` of the archive in `bytes`
/// holds, read with the result `result`: its header row and its rows from
/// the first on, up to the end of the entry if the result is good, up to
/// where the reader reports an error if that is the result, and up to the
/// row that was not decoded if that is.
pub open spec fn log_mirrors(bytes: Seq<u8>, k: nat, log: Log, result: Result<(), Error>) -> bool {
    match headers_at(bytes, k) {
        None => log == nothing() && (result matches Err(e) && e.kind is Tokenize),
        Some(headers) => {
            &&& log.headers == headers
            &&& forall|j: int|
                0 <= j < log.rows.len() ==> row_at(bytes, k, j as nat) == Some(
                    Some(#[trigger] log.rows[j]),
                )
            &&& match result {
                Ok(_) => row_at(bytes, k, log.rows.len()) == Some(None::<Seq<Seq<char>>>),
                Err(e) => e.kind is Tokenize ==> row_at(bytes, k, log.rows.len()) is None,
            }
        },
    }
}

/// Whether the entry at place `k` of the archive in `bytes` is a file of
/// `table` with nothing wrong: it has a header row, and every row that
/// the reader comes to is one that is decoded.
pub open spec fn sound_file(bytes: Seq<u8>, k: nat, table: Table) -> bool {
    match headers_at(bytes, k) {
        None => false,
        Some(headers) => forall|j: nat|
            match #[trigger] row_at(bytes, k, j) {
                None => false,
                Some(None) => true,
                Some(Some(row)) => decodes(table, headers, row),
            },
    }
}

/// A step that read a file with nothing wrong ended well.
pub proof fn lemma_sound_step(
    bytes: Seq<u8>,
    k: nat,
    table: Table,
    log: Log,
    result: Result<(), Error>,
)
    requires
        sound_file(bytes, k, table),
        reads(log, table, result),
        log_mirrors(bytes, k, log, result),
    ensures
        result is Ok,
{
    let headers = headers_at(bytes, k)->0;
    match result {
        Ok(_) => {},
        Err(e) => {
            if e.kind is Tokenize {
                assert(row_at(bytes, k, log.rows.len()) is None);
            } else {
                let last = (log.rows.len() - 1) as nat;
                assert(row_at(bytes, k, last) == Some(Some(log.rows[last as int])));
                assert(decodes(table, headers, log.rows.last()));
            }
        },
    }
}

/// Whether step `i` dealt with the entry at place `i` of the archive in
/// `bytes`: it has the path of that entry and the file name in it, and
/// read what that entry holds if it read a table.
pub open spec fn step_mirrors(
    bytes: Seq<u8>,
    steps: Seq<Step>,
    i: int,
    result: Result<(), Error>,
) -> bool {
    &&& entry_at(bytes, i as nat) is Gives
    &&& steps[i].path == path_at(bytes, i as nat)
    &&& steps[i].name matches Some(name) && names(steps[i].path, name)
    &&& steps[i].action is Read ==> log_mirrors(
        bytes,
        i as nat,
        steps[i].log,
        outcome(steps, i, result),
    )
}

/// Whether the steps of a load went through the entries of the archive in
/// `bytes` from the first on, one by one.
pub open spec fn mirrored(bytes: Seq<u8>, steps: Seq<Step>, result: Result<(), Error>) -> bool {
    forall|i: int| 0 <= i < steps.len() ==> #[trigger] step_mirrors(bytes, steps, i, result)
}

/// Whether a load with a consumer for each of `tables` that ended well
/// after `steps` ended where it must: every one of the tables was read, or
/// the archive in `bytes` has no further entry.
pub open spec fn ends(bytes: Seq<u8>, tables: Set<Table>, steps: Seq<Step>) -> bool {
    ||| forall|table: Table|
        tables.contains(table) ==> read_before(steps, table, steps.len() as int)
    ||| entry_at(bytes, steps.len()) is End
}

/// A load that ends without an error that names a table went through the
/// entries as it did before.
pub proof fn lemma_mirrored_end(bytes: Seq<u8>, steps: Seq<Step>, result: Result<(), Error>)
    requires
        mirrored(bytes, steps, Ok(())),
        !(result matches Err(e) && e.table is Some),
    ensures
        mirrored(bytes, steps, result),
{
    assert forall|i: int| 0 <= i < steps.len() implies #[trigger] step_mirrors(
        bytes,
        steps,
        i,
        result,
    ) by {
        assert(step_mirrors(bytes, steps, i, Ok(())));
        assert(outcome(steps, i, result) == outcome(steps, i, Ok(())));
    }
}

/// A further step goes through the entries if it dealt with the next one.
pub proof fn lemma_mirrored_step(
    bytes: Seq<u8>,
    steps: Seq<Step>,
    step: Step,
    result: Result<(), Error>,
)
    requires
        mirrored(bytes, steps, Ok(())),
        entry_at(bytes, steps.len()) is Gives,
        step.path == path_at(bytes, steps.len()),
        step.name matches Some(name) && names(step.path, name),
        match step.action {
            Action::Read(table) => log_mirrors(bytes, steps.len(), step.log, result) && (
            result matches Err(e) ==> e.table is Some),
            _ => !(result matches Err(e) && e.table is Some),
        },
    ensures
        mirrored(bytes, steps.push(step), result),
{
    let next = steps.push(step);
    assert forall|i: int| 0 <= i < next.len() implies #[trigger] step_mirrors(
        bytes,
        next,
        i,
        result,
    ) by {
        if i < steps.len() {
            assert(step_mirrors(bytes, steps, i, Ok(())));
            assert(next[i] == steps[i]);
            assert(outcome(steps, i, Ok(())) == Ok::<(), Error>(()));
            assert(outcome(next, i, result) == Ok::<(), Error>(()));
        } else {
            assert(next[i] == step);
            match result {
                Ok(_) => {
                    assert(outcome(next, i, result) == Ok::<(), Error>(()));
                },
                Err(e) => {},
            }
        }
    }
}

/// A load that ends without an error that names a table keeps its account.
pub proof fn lemma_accounted_end(steps: Seq<Step>, result: Result<(), Error>)
    requires
        accounted(steps, Ok(())),
        !(result matches Err(e) && e.table is Some),
    ensures
        accounted(steps, result),
{
    assert forall|i: int| 0 <= i < steps.len() implies #[trigger] step_accounted(
        steps,
        i,
        result,
    ) by {
        assert(step_accounted(steps, i, Ok(())));
        assert(outcome(steps, i, result) == outcome(steps, i, Ok(())));
    }
}

/// A further step keeps the account if it read its table as [`reads`]
/// says.
pub proof fn lemma_accounted_step(steps: Seq<Step>, step: Step, result: Result<(), Error>)
    requires
        accounted(steps, Ok(())),
        match step.action {
            Action::Read(table) => reads(step.log, table, result),
            _ => !(result matches Err(e) && e.table is Some),
        },
    ensures
        accounted(steps.push(step), result),
{
    let next = steps.push(step);
    assert forall|i: int| 0 <= i < next.len() implies #[trigger] step_accounted(
        next,
        i,
        result,
    ) by {
        if i < steps.len() {
            assert(step_accounted(steps, i, Ok(())));
            assert(next[i] == steps[i]);
            assert(outcome(steps, i, Ok(())) == Ok::<(), Error>(()));
            assert(outcome(next, i, result) == Ok::<(), Error>(()));
        } else {
            match step.action {
                Action::Read(table) => {
                    match result {
                        Ok(_) => {},
                        Err(e) => {
                            assert(e.table == Some(table));
                        },
                    }
                },
                _ => {},
            }
        }
    }
}

} // verus!
