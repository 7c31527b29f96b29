//! The codec of the checksum column: a SHA-256 digest in hexadecimal.

use vstd::prelude::*;
use vstd::string::StringExecFns;
use crate::error::{Error, ErrorKind, Expected, Invalid};
use crate::record::{at, invalid_if};
use crate::text::{bytes_of, text_of};

verus! {

broadcast use vstd::utf8::group_utf8_lib;

/// The value of a hexadecimal digit, of either case.
pub open spec fn hex_value(b: u8) -> Option<int> {
    if 0x30 <= b <= 0x39 {
        Some(b - 0x30)
    } else if 0x61 <= b <= 0x66 {
        Some(b - 0x61 + 10)
    } else if 0x41 <= b <= 0x46 {
        Some(b - 0x41 + 10)
    } else {
        None
    }
}

/// The digest that the bytes of a cell write. The empty cell holds no
/// digest. A cell of exactly 64 hexadecimal digits holds the 32 bytes that
/// its pairs of digits write. The outer `None` is a rejected cell.
pub open spec fn spec_de(b: Seq<u8>) -> Option<Option<Seq<u8>>> {
    if b.len() == 0 {
        Some(None)
    } else if b.len() == 64 && (forall|i: int| 0 <= i < 64 ==> hex_value(#[trigger] b[i]) is Some) {
        Some(
            Some(
                Seq::new(
                    32, |i: int| (hex_value(b[2 * i])->0 * 16 + hex_value(b[2 * i + 1])->0) as u8,
                )
            )
        )
    } else {
        None
    }
}

fn hex_digit(b: u8) -> (r: Option<u8>)
    ensures
        match r {
            Some(v) => hex_value(b) == Some(v as int) && v < 16,
            None => hex_value(b) is None,
        },
{
    if 0x30 <= b && b <= 0x39 {
        Some(b - 0x30)
    } else if 0x61 <= b && b <= 0x66 {
        Some(b - 0x61 + 10)
    } else if 0x41 <= b && b <= 0x46 {
        Some(b - 0x41 + 10)
    } else {
        None
    }
}

/// Decodes a checksum cell.
pub fn de(text: &str) -> (r: Result<Option<[u8; 32]>, Invalid>)
    ensures
        match r {
            Ok(Some(digest)) => spec_de(bytes_of(text@)) == Some(Some(digest@)),
            Ok(None) => spec_de(bytes_of(text@)) == Some(None::<Seq<u8>>),
            Err(e) => spec_de(bytes_of(text@)) is None && e.expected == Expected::Checksum
                && e.detail@ == text@,
        },
{
    let b = text.as_bytes();
    if b.len() == 0 {
        return Ok(None);
    }
    if b.len() == 64 {
        let mut digest = [0u8;32];
        let mut i: usize = 0;
        while i < 32
            invariant
                i <= 32,
                b.len() == 64,
                b@ == bytes_of(text@),
                forall|j: int| 0 <= j < 2 * i ==> hex_value(#[trigger] b@[j]) is Some,
                forall|j: int|
                    0 <= j < i ==> digest@[j] == (hex_value(b@[2 * j])->0 * 16 + hex_value(
                        b@[2 * j + 1],
                    )->0) as u8,
            decreases 32 - i,
        {
            match (hex_digit(b[2 * i]), hex_digit(b[2 * i + 1])) {
                (Some(high), Some(low)) => {
                    digest[i] = high * 16 + low;
                },
                _ => {
                    let ghost first = hex_value(b@[2 * i]) is None;
                    let ghost at: int = if first { 2 * i } else { 2 * i + 1 };
                    assert(hex_value(b@[at]) is None);
                    return Err(Invalid { expected: Expected::Checksum, detail: text.to_owned() });
                },
            }
            i += 1;
        }
        assert(digest@ =~= spec_de(b@)->0->0);
        return Ok(Some(digest));
    }
    Err(Invalid { expected: Expected::Checksum, detail: text.to_owned() })
}

/// The character of the hexadecimal digit `d`, in lower case.
pub open spec fn hex_char(d: int) -> char {
    if d < 10 {
        (0x30 + d) as u8 as char
    } else {
        (0x61 + d - 10) as u8 as char
    }
}

/// The 64 hexadecimal digits of a digest, in lower case.
pub open spec fn spec_to_hex(digest: Seq<u8>) -> Seq<char> {
    Seq::new(
        2 * digest.len(),
        |i: int| hex_char(
            if i % 2 == 0 { digest[i / 2] as int / 16 } else { digest[i / 2] as int % 16 }
        ),
    )
}

fn hex_str(d: u8) -> (r: &'static str)
    requires
        d < 16,
    ensures
        r@ == seq![hex_char(d as int)],
{
    proof {
        reveal_strlit("0");
        reveal_strlit("1");
        reveal_strlit("2");
        reveal_strlit("3");
        reveal_strlit("4");
        reveal_strlit("5");
        reveal_strlit("6");
        reveal_strlit("7");
        reveal_strlit("8");
        reveal_strlit("9");
        reveal_strlit("a");
        reveal_strlit("b");
        reveal_strlit("c");
        reveal_strlit("d");
        reveal_strlit("e");
        reveal_strlit("f");
    }
    let r = match d {
        0 => "0",
        1 => "1",
        2 => "2",
        3 => "3",
        4 => "4",
        5 => "5",
        6 => "6",
        7 => "7",
        8 => "8",
        9 => "9",
        10 => "a",
        11 => "b",
        12 => "c",
        13 => "d",
        14 => "e",
        _ => "f",
    };
    assert(r@ =~= seq![hex_char(d as int)]);
    r
}

/// Writes a digest as the cell that holds it.
pub fn to_hex(digest: &[u8; 32]) -> (r: String)
    ensures
        r@ == spec_to_hex(digest@),
{
    let mut s = String::new();
    let mut i: usize = 0;
    while i < 32
        invariant
            i <= 32,
            digest@.len() == 32,
            s@.len() == 2 * i,
            forall|j: int| 0 <= j < 2 * i ==> s@[j] == #[trigger] spec_to_hex(digest@)[j],
        decreases 32 - i,
    {
        let byte = digest[i];
        s.append(hex_str(byte / 16));
        s.append(hex_str(byte % 16));
        i += 1;
    }
    assert(s@ =~= spec_to_hex(digest@));
    s
}

/// A digest that is written out and decoded again is the same digest.
pub proof fn lemma_to_hex_then_de(digest: Seq<u8>)
    requires
        digest.len() == 32,
    ensures
        spec_de(bytes_of(spec_to_hex(digest))) == Some(Some(digest)),
{
    let t = spec_to_hex(digest);
    assert(vstd::utf8::is_ascii_chars(t));
    vstd::utf8::is_ascii_chars_encode_utf8(t);
    let b = bytes_of(t);
    assert forall|i: int| 0 <= i < 64 implies hex_value(#[trigger] b[i]) is Some by {
        assert(b[i] == t[i] as u8);
    }
    assert forall|i: int| 0 <= i < 32 implies (hex_value(b[2 * i])->0 * 16 + hex_value(
        b[2 * i + 1],
    )->0) as u8 == digest[i] by {
        assert(b[2 * i] == t[2 * i] as u8);
        assert(b[2 * i + 1] == t[2 * i + 1] as u8);
        let d = digest[i] as int;
        assert(hex_value(b[2 * i]) == Some(d / 16));
        assert(hex_value(b[2 * i + 1]) == Some(d % 16));
    }
    assert(spec_de(b)->0->0 =~= digest);
}

/// A cell is accepted if it is empty or holds exactly 64 hexadecimal
/// digits, and only then.
pub proof fn lemma_de_accepts(b: Seq<u8>)
    ensures
        spec_de(b) is Some <==> b.len() == 0 || (b.len() == 64 && forall|i: int|
            0 <= i < 64 ==> hex_value(#[trigger] b[i]) is Some),
{
}

/// The fault of the checksum cell of column `k`. A file without the column
/// has no fault there.
pub open spec fn column_fault(cell: Option<Seq<char>>, k: int) -> Option<ErrorKind> {
    match cell {
        Some(text) => invalid_if(spec_de(bytes_of(text)) is None, k, Expected::Checksum),
        None => None,
    }
}

/// The digest in the checksum cell of a column. A file without the column
/// holds none.
pub open spec fn column_value(cell: Option<Seq<char>>) -> Option<Seq<u8>> {
    match cell {
        Some(text) => spec_de(bytes_of(text))->0,
        None => None,
    }
}

/// The bytes of a digest that may be missing.
pub open spec fn digest_of(digest: Option<[u8; 32]>) -> Option<Seq<u8>> {
    match digest {
        Some(bytes) => Some(bytes@),
        None => None,
    }
}

/// Decodes the checksum cell of column `k`, if the file has the column.
pub fn column(k: usize, cell: Option<&str>) -> (r: Result<Option<[u8; 32]>, Error>)
    ensures
        match r {
            Ok(digest) => column_fault(text_of(cell), k as int) is None && digest_of(digest)
                == column_value(text_of(cell)),
            Err(e) => column_fault(text_of(cell), k as int) == Some(e.kind) && e.table is None,
        },
{
    match cell {
        Some(text) => at(k, de(text)),
        None => Ok(None),
    }
}

} // verus!
