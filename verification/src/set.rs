//! The codec of the list columns, which hold their members between braces.

use vstd::prelude::*;
use crate::error::{Error, ErrorKind, Expected, Invalid};
use crate::record::{at, invalid_if};
use crate::text::{bytes_of, bytes_of_each, split, split_around, split_text, text_of};

verus! {

/// The members that the bytes of a cell list. The cell is `{`, the members
/// with a comma between each two, and `}`; nothing escapes a comma or a
/// brace. `{}` lists nothing. With `lenient`, the empty cell lists nothing
/// too.
pub open spec fn spec_de(b: Seq<u8>, lenient: bool) -> Option<Seq<Seq<u8>>> {
    if b.len() >= 2 && b[0] == 0x7b && b[b.len() - 1] == 0x7d {
        if b.len() == 2 {
            Some(Seq::empty())
        } else {
            Some(split(b.subrange(1, b.len() - 1), 0x2c))
        }
    } else if lenient && b.len() == 0 {
        Some(Seq::empty())
    } else {
        None
    }
}

fn decode(text: &str, lenient: bool) -> (r: Result<Vec<String>, Invalid>)
    ensures
        match r {
            Ok(members) => spec_de(bytes_of(text@), lenient) == Some(bytes_of_each(members@)),
            Err(e) => spec_de(bytes_of(text@), lenient) is None && e.expected == Expected::List
                && e.detail@ == text@,
        },
{
    let b = text.as_bytes();
    let n = b.len();
    if n >= 2 && b[0] == 0x7b && b[n - 1] == 0x7d {
        let members: Vec<String> = if n == 2 {
            Vec::new()
        } else {
            let (_, rest) = split_around(text, 0);
            let (inner, _) = split_around(rest, n - 2);
            assert(bytes_of(inner@) =~= b@.subrange(1, n - 1));
            split_text(inner, 0x2c)
        };
        assert(n == 2 ==> bytes_of_each(members@) =~= Seq::<Seq<u8>>::empty());
        Ok(members)
    } else if lenient && n == 0 {
        let members: Vec<String> = Vec::new();
        assert(bytes_of_each(members@) =~= Seq::<Seq<u8>>::empty());
        Ok(members)
    } else {
        Err(Invalid { expected: Expected::List, detail: text.to_owned() })
    }
}

/// Decodes a list cell.
pub fn de(text: &str) -> (r: Result<Vec<String>, Invalid>)
    ensures
        match r {
            Ok(members) => spec_de(bytes_of(text@), false) == Some(bytes_of_each(members@)),
            Err(e) => spec_de(bytes_of(text@), false) is None && e.expected == Expected::List
                && e.detail@ == text@,
        },
{
    decode(text, false)
}

/// Decodes a list cell of a column that older dumps left empty.
pub fn optional(text: &str) -> (r: Result<Vec<String>, Invalid>)
    ensures
        match r {
            Ok(members) => spec_de(bytes_of(text@), true) == Some(bytes_of_each(members@)),
            Err(e) => spec_de(bytes_of(text@), true) is None && e.expected == Expected::List
                && e.detail@ == text@,
        },
{
    decode(text, true)
}

/// Whatever the strict codec accepts, the lenient one accepts with the same
/// members; it accepts the empty cell besides, and nothing else.
pub proof fn lemma_optional_extends_de(b: Seq<u8>)
    ensures
        spec_de(b, false) is Some ==> spec_de(b, true) == spec_de(b, false),
        spec_de(b, false) is None ==> (spec_de(b, true) is Some <==> b.len() == 0),
{
}

/// The fault of the list cell of column `k`. A file without the column has
/// no fault there.
pub open spec fn column_fault(cell: Option<Seq<char>>, lenient: bool, k: int) -> Option<ErrorKind> {
    match cell {
        Some(text) => invalid_if(spec_de(bytes_of(text), lenient) is None, k, Expected::List),
        None => None,
    }
}

/// The members of the list cell of a column. A file without the column
/// lists nothing.
pub open spec fn column_value(cell: Option<Seq<char>>, lenient: bool) -> Seq<Seq<u8>> {
    match cell {
        Some(text) => spec_de(bytes_of(text), lenient)->0,
        None => Seq::empty(),
    }
}

/// Decodes the list cell of column `k`, if the file has the column.
pub fn column(k: usize, cell: Option<&str>, lenient: bool) -> (r: Result<Vec<String>, Error>)
    ensures
        match r {
            Ok(members) => column_fault(text_of(cell), lenient, k as int) is None && bytes_of_each(
                members@,
            ) == column_value(text_of(cell), lenient),
            Err(e) => column_fault(text_of(cell), lenient, k as int) == Some(e.kind)
                && e.table is None,
        },
{
    match cell {
        Some(text) => at(k, decode(text, lenient)),
        None => {
            let members: Vec<String> = Vec::new();
            assert(bytes_of_each(members@) =~= Seq::<Seq<u8>>::empty());
            Ok(members)
        },
    }
}

} // verus!
