//! The codec of the boolean columns, which hold one letter.

use vstd::prelude::*;
use crate::error::{Error, ErrorKind, Expected, Invalid};
use crate::record::{at, invalid_if};
use crate::text::{str_eq, text_of};

verus! {

/// The truth value that a cell writes: `t` is true, `f` is false, and no
/// other text is a boolean.
pub open spec fn spec_de(text: Seq<char>) -> Option<bool> {
    if text == seq!['t'] {
        Some(true)
    } else if text == seq!['f'] {
        Some(false)
    } else {
        None
    }
}

/// Decodes a boolean cell.
pub fn de(text: &str) -> (r: Result<bool, Invalid>)
    ensures
        match r {
            Ok(value) => spec_de(text@) == Some(value),
            Err(e) => spec_de(text@) is None && e.expected == Expected::Bool && e.detail@
                == text@,
        },
{
    proof {
        reveal_strlit("t");
        reveal_strlit("f");
        assert("t"@ =~= seq!['t']);
        assert("f"@ =~= seq!['f']);
    }
    if str_eq(text, "t") {
        Ok(true)
    } else if str_eq(text, "f") {
        Ok(false)
    } else {
        Err(Invalid { expected: Expected::Bool, detail: text.to_owned() })
    }
}

/// The fault of the boolean cell of column `k`, which may be absent or empty.
pub open spec fn column_fault(cell: Option<Seq<char>>, k: int) -> Option<ErrorKind> {
    match cell {
        Some(text) => invalid_if(spec_de(text) is None, k, Expected::Bool),
        None => None,
    }
}

/// The truth value in the boolean cell of a column, which is false if the
/// cell is absent or empty.
pub open spec fn column_value(cell: Option<Seq<char>>) -> bool {
    match cell {
        Some(text) => spec_de(text)->0,
        None => false,
    }
}

/// Decodes the boolean cell of column `k`, if the cell is there and not
/// empty.
pub fn column(k: usize, cell: Option<&str>) -> (r: Result<bool, Error>)
    ensures
        match r {
            Ok(value) => column_fault(text_of(cell), k as int) is None && value == column_value(
                text_of(cell),
            ),
            Err(e) => column_fault(text_of(cell), k as int) == Some(e.kind) && e.table is None,
        },
{
    match cell {
        Some(text) => at(k, de(text)),
        None => Ok(false),
    }
}

} // verus!
