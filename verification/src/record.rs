//! Rows of delimited text: where each column of a table stands in a header
//! row, and how the cell of a column is found in a row.
//!
//! The first row of a table's file names the columns, in any order. A
//! [`Layout`] is made once for that row; every later row is read through it.

use vstd::prelude::*;
use crate::error::{Error, ErrorKind, Expected, Invalid};
use crate::table::Table;
use vstd::string::StringExecFns;

verus! {

/// The texts of a row.
pub open spec fn texts(row: Seq<String>) -> Seq<Seq<char>> {
    row.map_values(|cell: String| cell@)
}

/// Whether a header row cannot be read because of its header `p`: it names
/// no column of the table, or it repeats an earlier header.
pub open spec fn bad_header(table: Table, headers: Seq<Seq<char>>, p: int) -> bool {
    !table.spec_has_column(headers[p]) || exists|q: int| 0 <= q < p && headers[q] == headers[p]
}

/// Whether the header at `p` stands for the schema's column `k`.
pub open spec fn stands_at(table: Table, headers: Seq<Seq<char>>, k: int, p: int) -> bool {
    0 <= p < headers.len() && table.resolves(headers[p], k)
}

/// Whether the header row holds a header for the schema's column `k`.
pub open spec fn has_header(table: Table, headers: Seq<Seq<char>>, k: int) -> bool {
    exists|p: int| stands_at(table, headers, k, p)
}

/// Whether the header row lacks the column `k`, which it must hold.
pub open spec fn missing(table: Table, headers: Seq<Seq<char>>, k: int) -> bool {
    table.spec_required(k) && !has_header(table, headers, k)
}

/// Whether `kind` is the fault of a header row. The headers are looked at
/// from the left, and the first bad one is the fault. Where every header
/// is good, the first required column, in the order of the schema, that
/// none of them stands for is the fault.
pub open spec fn schema_fault(table: Table, headers: Seq<Seq<char>>, kind: ErrorKind) -> bool {
    match kind {
        ErrorKind::UnknownColumn { position } => {
            &&& position < headers.len()
            &&& !table.spec_has_column(headers[position as int])
            &&& forall|q: int| 0 <= q < position ==> !bad_header(table, headers, q)
        },
        ErrorKind::DuplicateColumn { position } => {
            &&& position < headers.len()
            &&& table.spec_has_column(headers[position as int])
            &&& bad_header(table, headers, position as int)
            &&& forall|q: int| 0 <= q < position ==> !bad_header(table, headers, q)
        },
        ErrorKind::MissingColumn { column } => {
            &&& forall|q: int| 0 <= q < headers.len() ==> !bad_header(table, headers, q)
            &&& column < table.spec_columns()
            &&& missing(table, headers, column as int)
            &&& forall|j: int| 0 <= j < column ==> !missing(table, headers, j)
        },
        _ => false,
    }
}

/// Whether a header row has no fault.
pub open spec fn schema_ok(table: Table, headers: Seq<Seq<char>>) -> bool {
    &&& forall|q: int| 0 <= q < headers.len() ==> !bad_header(table, headers, q)
    &&& forall|k: int| 0 <= k < table.spec_columns() ==> !missing(table, headers, k)
}

/// A header row has a fault or is in order, never both, and its fault is
/// one only.
pub proof fn lemma_schema_fault_unique(
    table: Table,
    headers: Seq<Seq<char>>,
    a: ErrorKind,
    b: ErrorKind,
)
    requires
        schema_fault(table, headers, a),
    ensures
        !schema_ok(table, headers),
        schema_fault(table, headers, b) ==> a == b,
{
    match a {
        ErrorKind::UnknownColumn { position } => {
            assert(bad_header(table, headers, position as int));
        },
        ErrorKind::DuplicateColumn { position } => {},
        ErrorKind::MissingColumn { column } => {},
        _ => {},
    }
    if schema_fault(table, headers, b) {
        match (a, b) {
            (
                ErrorKind::UnknownColumn { position: p },
                ErrorKind::UnknownColumn { position: q },
            ) => {
                assert(bad_header(table, headers, q as int));
                assert(p == q);
            },
            (
                ErrorKind::UnknownColumn { position: p },
                ErrorKind::DuplicateColumn { position: q },
            ) => {
                assert(p == q);
            },
            (
                ErrorKind::DuplicateColumn { position: p },
                ErrorKind::UnknownColumn { position: q },
            ) => {
                assert(bad_header(table, headers, q as int));
                assert(p == q);
            },
            (
                ErrorKind::DuplicateColumn { position: p },
                ErrorKind::DuplicateColumn { position: q },
            ) => {
                assert(p == q);
            },
            (ErrorKind::MissingColumn { column: j }, ErrorKind::MissingColumn { column: k }) => {
                assert(j == k);
            },
            (ErrorKind::MissingColumn { .. }, ErrorKind::UnknownColumn { position: q }) => {
                assert(bad_header(table, headers, q as int));
            },
            _ => {},
        }
    }
}

/// Where the columns of a table stand in a header row.
pub struct LayoutView {
    pub table: Table,
    /// The number of headers.
    pub width: nat,
    /// For each column of the schema, the position of its header, if any.
    pub at: Seq<Option<int>>,
}

impl LayoutView {
    /// Whether this is the layout of the header row `headers` of `table`.
    pub open spec fn describes(self, table: Table, headers: Seq<Seq<char>>) -> bool {
        &&& self.table == table
        &&& self.width == headers.len()
        &&& self.at.len() == table.spec_columns()
        &&& forall|k: int|
            0 <= k < self.at.len() ==> (#[trigger] self.at[k] matches Some(p) ==> stands_at(
                table,
                headers,
                k,
                p,
            ))
        &&& forall|k: int, p: int| #[trigger]
            stands_at(table, headers, k, p) ==> self.at[k] == Some(p)
    }

    /// The cell of column `k` in `row`, if the file has the column.
    pub open spec fn present(self, row: Seq<Seq<char>>, k: int) -> Option<Seq<char>> {
        match self.at[k] {
            Some(p) => Some(row[p]),
            None => None,
        }
    }

    /// The cell of the required column `k` in `row`.
    pub open spec fn required(self, row: Seq<Seq<char>>, k: int) -> Seq<char> {
        row[self.at[k]->0]
    }

    /// The cell of column `k` in `row`, if the file has the column and the
    /// cell is not empty.
    pub open spec fn optional(self, row: Seq<Seq<char>>, k: int) -> Option<Seq<char>> {
        match self.at[k] {
            Some(p) => if row[p].len() == 0 { None } else { Some(row[p]) },
            None => None,
        }
    }
}

/// A header row has one layout only.
pub proof fn lemma_layout_unique(
    a: LayoutView,
    b: LayoutView,
    table: Table,
    headers: Seq<Seq<char>>,
)
    requires
        a.describes(table, headers),
        b.describes(table, headers),
    ensures
        a == b,
{
    assert forall|k: int| 0 <= k < a.at.len() implies a.at[k] == b.at[k] by {
        match a.at[k] {
            Some(p) => {
                assert(stands_at(table, headers, k, p));
            },
            None => {
                match b.at[k] {
                    Some(p) => {
                        assert(stands_at(table, headers, k, p));
                    },
                    None => {},
                }
            },
        }
    }
    assert(a.at =~= b.at);
}

/// Whether `at` holds the positions of the headers before `p`.
pub open spec fn placed(
    table: Table,
    names: Seq<Seq<char>>,
    at: Seq<Option<usize>>,
    p: int,
) -> bool {
    &&& at.len() == table.spec_columns()
    &&& forall|k: int|
        0 <= k < at.len() ==> (#[trigger] at[k] matches Some(q) ==> q < p && stands_at(
            table,
            names,
            k,
            q as int,
        ))
    &&& forall|k: int, q: int|
        0 <= q < p && #[trigger] stands_at(table, names, k, q) ==> at[k] == Some(q as usize)
}

/// Placing the header `p` keeps the positions in step with the headers
/// read so far.
proof fn lemma_place(
    table: Table,
    names: Seq<Seq<char>>,
    before: Seq<Option<usize>>,
    j: int,
    p: int,
)
    requires
        0 <= p < names.len(),
        p < usize::MAX,
        stands_at(table, names, j, p),
        before[j] is None,
        placed(table, names, before, p),
    ensures
        placed(table, names, before.update(j, Some(p as usize)), p + 1),
{
    let after = before.update(j, Some(p as usize));
    assert forall|k: int| 0 <= k < after.len() implies (#[trigger] after[k] matches Some(q) ==> q
        < p + 1 && stands_at(table, names, k, q as int)) by {
        if k != j {
            assert(after[k] == before[k]);
        }
    }
    assert forall|k: int, q: int| 0 <= q < p + 1 && #[trigger] stands_at(
        table,
        names,
        k,
        q,
    ) implies after[k] == Some(q as usize) by {
        if q == p {
            table.lemma_resolves_unique(names[p], k, j);
        } else {
            assert(before[k] == Some(q as usize));
            assert(k != j);
        }
    }
}

/// The layout of the header row `headers` of `table`.
pub open spec fn layout_of(table: Table, headers: Seq<Seq<char>>) -> LayoutView {
    choose|l: LayoutView| l.describes(table, headers)
}

/// Where the columns of a table stand in the header row of its file.
#[derive(Debug)]
pub struct Layout {
    table: Table,
    width: usize,
    at: Vec<Option<usize>>,
}

impl View for Layout {
    type V = LayoutView;

    closed spec fn view(&self) -> LayoutView {
        LayoutView { table: self.table, width: self.width as nat, at: positions(self.at@) }
    }
}

/// The positions of a layout as numbers.
pub open spec fn positions(at: Seq<Option<usize>>) -> Seq<Option<int>> {
    at.map_values(
        |p: Option<usize>|
            match p {
                Some(p) => Some(p as int),
                None => None,
            },
    )
}

impl Layout {
    #[verifier::type_invariant]
    spec fn valid(self) -> bool {
        &&& self.at.len() == self.table.spec_columns()
        &&& forall|k: int|
            0 <= k < self.at.len() ==> match #[trigger] self.at[k] {
                Some(p) => p < self.width,
                None => !self.table.spec_required(k),
            }
    }

    /// Reads the header row of a file of `table`.
    pub fn resolve(table: Table, headers: &Vec<String>) -> (r: Result<Layout, Error>)
        ensures
            match r {
                Ok(layout) => schema_ok(table, texts(headers@)) && layout@.describes(
                    table,
                    texts(headers@),
                ) && layout@ == layout_of(table, texts(headers@)),
                Err(e) => schema_fault(table, texts(headers@), e.kind) && e.table is None,
            },
    {
        let ghost names = texts(headers@);
        let columns = table.columns();
        let mut at: Vec<Option<usize>> = Vec::new();
        let mut k: usize = 0;
        while k < columns
            invariant
                k <= columns,
                at.len() == k,
                forall|j: int| 0 <= j < k ==> at[j] is None,
            decreases columns - k,
        {
            at.push(None);
            k += 1;
        }
        let mut p: usize = 0;
        while p < headers.len()
            invariant
                p <= headers.len(),
                names == texts(headers@),
                columns == table.spec_columns(),
                placed(table, names, at@, p as int),
                forall|q: int| 0 <= q < p ==> !bad_header(table, names, q),
            decreases headers.len() - p,
        {
            let name = headers[p].as_str();
            assert(name@ == names[p as int]);
            match table.find_column(name) {
                None => {
                    return Err(
                        Error::new(ErrorKind::UnknownColumn { position: p }, name.to_owned()),
                    );
                },
                Some(j) => {
                    assert(stands_at(table, names, j as int, p as int));
                    assert(table.spec_has_column(names[p as int]));
                    if let Some(q) = at[j] {
                        assert(stands_at(table, names, j as int, q as int));
                        assert(names[q as int] == names[p as int]);
                        return Err(
                            Error::new(ErrorKind::DuplicateColumn { position: p }, name.to_owned()),
                        );
                    }
                    proof {
                        if exists|q: int| 0 <= q < p && names[q] == names[p as int] {
                            let q = choose|q: int| 0 <= q < p && names[q] == names[p as int];
                            assert(stands_at(table, names, j as int, q));
                        }
                    }
                    let ghost before = at@;
                    at[j] = Some(p);
                    proof {
                        assert(at@ =~= before.update(j as int, Some(p)));
                        lemma_place(table, names, before, j as int, p as int);
                    }
                },
            }
            p += 1;
        }
        let mut k: usize = 0;
        while k < columns
            invariant
                k <= columns,
                names == texts(headers@),
                columns == table.spec_columns(),
                placed(table, names, at@, headers.len() as int),
                forall|q: int| 0 <= q < headers.len() ==> !bad_header(table, names, q),
                forall|j: int| 0 <= j < k ==> !missing(table, names, j),
                forall|j: int| 0 <= j < k && at[j] is None ==> !table.spec_required(j),
            decreases columns - k,
        {
            if at[k].is_none() {
                assert(!has_header(table, names, k as int)) by {
                    if has_header(table, names, k as int) {
                        let q = choose|q: int| stands_at(table, names, k as int, q);
                        assert(at[k as int] == Some(q as usize));
                    }
                }
                if table.required(k) {
                    return Err(
                        Error::new(
                            ErrorKind::MissingColumn { column: k },
                            String::from_str(table.column(k)),
                        ),
                    );
                }
            } else {
                let ghost q = at[k as int]->0 as int;
                assert(stands_at(table, names, k as int, q));
                assert(has_header(table, names, k as int));
            }
            k += 1;
        }
        let layout = Layout { table, width: headers.len(), at };
        proof {
            let v = layout@;
            assert forall|j: int| 0 <= j < v.at.len() implies (#[trigger] v.at[j] matches Some(
                q,
            ) ==> stands_at(table, names, j, q)) by {
                assert(v.at[j] is Some ==> layout.at[j] is Some);
            }
            assert forall|j: int, q: int| #[trigger]
                stands_at(table, names, j, q) implies v.at[j] == Some(q) by {
                assert(layout.at[j] == Some(q as usize));
            }
        }
        proof {
            lemma_layout_unique(layout@, layout_of(table, names), table, names);
        }
        Ok(layout)
    }

    pub fn table(&self) -> (r: Table)
        ensures
            r == self@.table,
    {
        self.table
    }

    /// The number of cells that a row of the file must have.
    pub fn width(&self) -> (r: usize)
        ensures
            r == self@.width,
    {
        self.width
    }

    /// Checks that `row` has as many cells as the header row.
    pub fn check_width(&self, row: &Vec<String>) -> (r: Result<(), Error>)
        ensures
            match r {
                Ok(_) => row.len() == self@.width,
                Err(e) => row.len() != self@.width && e.kind == ErrorKind::UnequalLengths
                    && e.table is None,
            },
    {
        if row.len() == self.width {
            Ok(())
        } else {
            Err(Error::new(ErrorKind::UnequalLengths, String::new()))
        }
    }

    /// The cell of column `k` in `row`, if the file has the column.
    pub fn present<'a>(&self, row: &'a Vec<String>, k: usize) -> (r: Option<&'a str>)
        requires
            k < self@.table.spec_columns(),
            row.len() == self@.width,
        ensures
            match r {
                Some(cell) => self@.present(texts(row@), k as int) == Some(cell@),
                None => self@.present(texts(row@), k as int) is None,
            },
            self@.table.spec_required(k as int) ==> r is Some,
    {
        proof {
            use_type_invariant(self);
        }
        match self.at[k] {
            Some(p) => Some(row[p].as_str()),
            None => None,
        }
    }

    /// The cell of the required column `k` in `row`.
    pub fn required<'a>(&self, row: &'a Vec<String>, k: usize) -> (r: &'a str)
        requires
            k < self@.table.spec_columns(),
            self@.table.spec_required(k as int),
            row.len() == self@.width,
        ensures
            r@ == self@.required(texts(row@), k as int),
            self@.present(texts(row@), k as int) == Some(r@),
    {
        proof {
            use_type_invariant(self);
        }
        match self.at[k] {
            Some(p) => row[p].as_str(),
            None => "",
        }
    }

    /// The cell of column `k` in `row`, if the file has the column and the
    /// cell is not empty.
    pub fn optional<'a>(&self, row: &'a Vec<String>, k: usize) -> (r: Option<&'a str>)
        requires
            k < self@.table.spec_columns(),
            row.len() == self@.width,
        ensures
            match r {
                Some(cell) => self@.optional(texts(row@), k as int) == Some(cell@),
                None => self@.optional(texts(row@), k as int) is None,
            },
    {
        proof {
            use_type_invariant(self);
        }
        match self.at[k] {
            Some(p) => {
                let cell = row[p].as_str();
                if cell.is_empty() {
                    None
                } else {
                    Some(cell)
                }
            },
            None => None,
        }
    }
}

/// The fault of a cell that its codec rejected.
pub open spec fn invalid_if(rejected: bool, column: int, expected: Expected) -> Option<ErrorKind> {
    if rejected {
        Some(ErrorKind::Invalid { column: column as usize, expected })
    } else {
        None
    }
}

/// Faults in the order in which they are looked for.
pub trait Faults {
    /// This fault if it is one, and `next` if it is none.
    spec fn otherwise(self, next: Self) -> Self;
}

impl Faults for Option<ErrorKind> {
    open spec fn otherwise(self, next: Option<ErrorKind>) -> Option<ErrorKind> {
        match self {
            Some(fault) => Some(fault),
            None => next,
        }
    }
}

/// Turns what a codec said of the cell of column `column` into what the
/// decoder of a row says.
pub fn at<T>(column: usize, cell: Result<T, Invalid>) -> (r: Result<T, Error>)
    ensures
        match (cell, r) {
            (Ok(value), Ok(same)) => same == value,
            (Err(invalid), Err(e)) => e.kind == (ErrorKind::Invalid {
                column,
                expected: invalid.expected,
            }) && e.table is None && e.detail@ == invalid.detail@,
            _ => false,
        },
{
    match cell {
        Ok(value) => Ok(value),
        Err(invalid) => Err(Error::invalid(column, invalid)),
    }
}

/// Whether `kind` is what is wrong with a row under a header row: the
/// fault of the header row, else a length that differs from that of the
/// header row, else the fault `cells` of the first cell that its codec
/// rejects.
pub open spec fn record_fault(
    table: Table,
    headers: Seq<Seq<char>>,
    length: nat,
    cells: Option<ErrorKind>,
    kind: ErrorKind,
) -> bool {
    if !schema_ok(table, headers) {
        schema_fault(table, headers, kind)
    } else if length != headers.len() {
        kind == ErrorKind::UnequalLengths
    } else {
        cells == Some(kind)
    }
}

/// A record that is decoded from the rows of one table.
pub trait FromRecord: Sized {
    /// The table that holds such records.
    spec fn table() -> Table;

    /// What is wrong with the cells of `row`: the fault of the first cell,
    /// in the order of the schema, that its codec rejects.
    spec fn fault(layout: LayoutView, row: Seq<Seq<char>>) -> Option<ErrorKind>;

    /// Whether the record holds what the cells of `row` write.
    spec fn holds(&self, layout: LayoutView, row: Seq<Seq<char>>) -> bool;

    fn source() -> (r: Table)
        ensures
            r == Self::table(),
    ;

    /// Decodes a row that is as long as the header row.
    fn decode(layout: &Layout, row: &Vec<String>) -> (r: Result<Self, Error>)
        requires
            layout@.table == Self::table(),
            row.len() == layout@.width,
        ensures
            match r {
                Ok(record) => Self::fault(layout@, texts(row@)) is None && record.holds(
                    layout@,
                    texts(row@),
                ),
                Err(e) => Self::fault(layout@, texts(row@)) == Some(e.kind) && e.kind is Invalid
                    && e.table is None,
            },
    ;

    /// Decodes a row under the header row of its file.
    fn from_record(row: &Vec<String>, headers: &Vec<String>) -> (r: Result<Self, Error>)
        ensures
            match r {
                Ok(record) => {
                    &&& schema_ok(Self::table(), texts(headers@))
                    &&& row.len() == headers.len()
                    &&& Self::fault(layout_of(Self::table(), texts(headers@)), texts(row@)) is None
                    &&& record.holds(layout_of(Self::table(), texts(headers@)), texts(row@))
                },
                Err(e) => e.table is None && record_fault(
                    Self::table(),
                    texts(headers@),
                    row@.len(),
                    Self::fault(layout_of(Self::table(), texts(headers@)), texts(row@)),
                    e.kind,
                ),
            },
    {
        let layout = match Layout::resolve(Self::source(), headers) {
            Ok(layout) => layout,
            Err(e) => {
                proof {
                    lemma_schema_fault_unique(Self::table(), texts(headers@), e.kind, e.kind);
                }
                return Err(e);
            },
        };
        match layout.check_width(row) {
            Ok(_) => {},
            Err(e) => {
                return Err(e);
            },
        }
        Self::decode(&layout, row)
    }
}

} // verus!
