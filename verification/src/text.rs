//! Byte-level helpers shared by the field codecs.
//!
//! A text cell is modelled by its UTF-8 bytes. Every grammar in this crate is
//! ASCII, so scanning bytes is exact, and a cell that holds anything else is
//! rejected without ever slicing inside a character.

use vstd::prelude::*;

verus! {

broadcast use vstd::utf8::group_utf8_lib;

/// The bytes of a text value.
pub open spec fn bytes_of(text: Seq<char>) -> Seq<u8> {
    vstd::utf8::encode_utf8(text)
}

/// Two texts with the same bytes are the same text.
pub proof fn lemma_bytes_of_injective(a: Seq<char>, b: Seq<char>)
    requires
        bytes_of(a) == bytes_of(b),
    ensures
        a == b,
{
    vstd::utf8::encode_utf8_decode_utf8(a);
    vstd::utf8::encode_utf8_decode_utf8(b);
}

/// Whether two byte strings are equal.
pub fn bytes_eq(a: &[u8], b: &[u8]) -> (r: bool)
    ensures
        r == (a@ == b@),
{
    if a.len() != b.len() {
        return false;
    }
    let mut i: usize = 0;
    while i < a.len()
        invariant
            i <= a.len(),
            a.len() == b.len(),
            forall|j: int| 0 <= j < i ==> a@[j] == b@[j],
        decreases a.len() - i,
    {
        if a[i] != b[i] {
            return false;
        }
        i += 1;
    }
    assert(a@ =~= b@);
    true
}

/// Whether two texts are equal.
pub fn str_eq(a: &str, b: &str) -> (r: bool)
    ensures
        r == (a@ == b@),
{
    let r = bytes_eq(a.as_bytes(), b.as_bytes());
    proof {
        if r {
            lemma_bytes_of_injective(a@, b@);
        }
    }
    r
}

/// `b` is an ASCII decimal digit.
pub open spec fn is_digit(b: u8) -> bool {
    0x30 <= b <= 0x39
}

/// Every byte of `s` is a decimal digit.
pub open spec fn all_digits(s: Seq<u8>) -> bool {
    forall|i: int| 0 <= i < s.len() ==> is_digit(#[trigger] s[i])
}

/// The number that the decimal digits `s` write, most significant first.
pub open spec fn decimal(s: Seq<u8>) -> nat
    decreases s.len(),
{
    if s.len() == 0 {
        0
    } else {
        (decimal(s.drop_last()) * 10 + (s.last() - 0x30)) as nat
    }
}

/// A group of `s.len()` digits is below ten to the power of its width.
pub proof fn lemma_decimal_bound(s: Seq<u8>)
    requires
        all_digits(s),
    ensures
        decimal(s) < pow10(s.len()),
    decreases s.len(),
{
    if s.len() > 0 {
        lemma_decimal_bound(s.drop_last());
        assert(is_digit(s.last()));
    }
}

/// Ten to the power of `n`.
pub open spec fn pow10(n: nat) -> nat
    decreases n,
{
    if n == 0 {
        1
    } else {
        10 * pow10((n - 1) as nat)
    }
}

/// Reads the fixed-width digit group `bytes[from..to]`.
///
/// Returns its value when every byte of the group is a digit, and `None`
/// otherwise: no sign, no blank and no other character is accepted.
pub fn digit_group(bytes: &[u8], from: usize, to: usize) -> (r: Option<u32>)
    requires
        from <= to <= bytes.len(),
        to - from <= 9,
    ensures
        r == (if all_digits(bytes@.subrange(from as int, to as int)) {
            Some(decimal(bytes@.subrange(from as int, to as int)) as u32)
        } else {
            None
        }),
        r matches Some(v) ==> v == decimal(bytes@.subrange(from as int, to as int)),
{
    let ghost group = bytes@.subrange(from as int, to as int);
    let mut value: u32 = 0;
    let mut i: usize = from;
    while i < to
        invariant
            from <= i <= to <= bytes.len(),
            to - from <= 9,
            group == bytes@.subrange(from as int, to as int),
            all_digits(group.subrange(0, i - from)),
            value == decimal(group.subrange(0, i - from)),
            value < pow10((i - from) as nat),
        decreases to - i,
    {
        let b = bytes[i];
        if b < 0x30 || b > 0x39 {
            assert(!is_digit(group[i - from]));
            return None;
        }
        proof {
            let next = group.subrange(0, i - from + 1);
            assert(next.drop_last() =~= group.subrange(0, i - from));
            assert(next.last() == b);
            assert(all_digits(next));
            lemma_decimal_bound(next);
            lemma_pow10_monotone((i - from + 1) as nat, 9);
            assert(pow10(9) == 1_000_000_000) by {
                reveal_with_fuel(pow10, 10);
            }
        }
        value = value * 10 + (b - 0x30) as u32;
        i += 1;
    }
    assert(group.subrange(0, to - from) =~= group);
    Some(value)
}

/// Powers of ten grow with the exponent.
pub proof fn lemma_pow10_monotone(a: nat, b: nat)
    requires
        a <= b,
    ensures
        pow10(a) <= pow10(b),
        pow10(a) >= 1,
    decreases b,
{
    if a < b {
        lemma_pow10_monotone(a, (b - 1) as nat);
    } else if a > 0 {
        lemma_pow10_monotone((a - 1) as nat, (a - 1) as nat);
    }
}

/// Splits `text` around its byte `at`, which is an ASCII byte: the text
/// before that byte, and the text after it.
pub fn split_around<'a>(text: &'a str, at: usize) -> (r: (&'a str, &'a str))
    requires
        at < bytes_of(text@).len(),
        bytes_of(text@)[at as int] < 0x80,
    ensures
        bytes_of(r.0@) == bytes_of(text@).subrange(0, at as int),
        bytes_of(r.1@) == bytes_of(text@).subrange(at + 1, bytes_of(text@).len() as int),
{
    let ghost b = bytes_of(text@);
    proof {
        vstd::utf8::is_char_boundary_iff_not_is_continuation_byte(b, at as int);
    }
    let (head, rest) = text.split_at(at);
    proof {
        let tail = bytes_of(rest@);
        assert(tail =~= b.subrange(at as int, b.len() as int));
        assert(tail[0] == b[at as int]);
        assert(vstd::utf8::valid_utf8(tail));
        assert(vstd::utf8::length_of_first_scalar(tail) == 1);
        assert(vstd::utf8::valid_utf8(vstd::utf8::pop_first_scalar(tail)));
        assert(vstd::utf8::is_char_boundary(tail, 1)) by {
            reveal_with_fuel(vstd::utf8::is_char_boundary, 2);
        }
    }
    let (_, after) = rest.split_at(1);
    proof {
        assert(bytes_of(after@) =~= b.subrange(at + 1, b.len() as int));
        assert(bytes_of(head@) =~= b.subrange(0, at as int));
    }
    (head, after)
}

/// The position of the first byte `sep` in `b`, or the length of `b` if it
/// holds none.
pub open spec fn first_index(b: Seq<u8>, sep: u8) -> int
    decreases b.len(),
{
    if b.len() == 0 || b[0] == sep {
        0
    } else {
        1 + first_index(b.drop_first(), sep)
    }
}

/// `first_index` is the position before which no `sep` stands and at which
/// one does, or the text ends.
pub proof fn lemma_first_index(b: Seq<u8>, sep: u8, i: int)
    requires
        0 <= i <= b.len(),
        forall|j: int| 0 <= j < i ==> b[j] != sep,
        i == b.len() || b[i] == sep,
    ensures
        first_index(b, sep) == i,
    decreases b.len(),
{
    if b.len() != 0 && b[0] != sep {
        lemma_first_index(b.drop_first(), sep, i - 1);
    }
}

/// The pieces of `b` between its bytes `sep`. A text without `sep`, the
/// empty one too, is one piece.
pub open spec fn split(b: Seq<u8>, sep: u8) -> Seq<Seq<u8>>
    decreases b.len(),
{
    let i = first_index(b, sep);
    if 0 <= i < b.len() {
        seq![b.subrange(0, i)] + split(b.subrange(i + 1, b.len() as int), sep)
    } else {
        seq![b]
    }
}

/// A text is cut into one piece at least.
pub proof fn lemma_split_some(b: Seq<u8>, sep: u8)
    ensures
        split(b, sep).len() > 0,
    decreases b.len(),
{
    let i = first_index(b, sep);
    if 0 <= i < b.len() {
        lemma_split_some(b.subrange(i + 1, b.len() as int), sep);
    }
}

/// The bytes of each text of a list.
pub open spec fn bytes_of_each(texts: Seq<String>) -> Seq<Seq<u8>> {
    texts.map_values(|t: String| bytes_of(t@))
}

/// Finds the first byte `sep` in `b`.
pub fn find_byte(b: &[u8], sep: u8) -> (r: usize)
    ensures
        r == first_index(b@, sep),
        r <= b.len(),
        r < b.len() ==> b@[r as int] == sep,
{
    let mut i: usize = 0;
    while i < b.len() && b[i] != sep
        invariant
            i <= b.len(),
            forall|j: int| 0 <= j < i ==> b@[j] != sep,
        decreases b.len() - i,
    {
        i += 1;
    }
    proof {
        lemma_first_index(b@, sep, i as int);
    }
    i
}

/// Cuts `text` at each ASCII byte `sep`.
pub fn split_text(text: &str, sep: u8) -> (r: Vec<String>)
    requires
        sep < 0x80,
    ensures
        bytes_of_each(r@) == split(bytes_of(text@), sep),
{
    let mut pieces: Vec<String> = Vec::new();
    let mut rest: &str = text;
    loop
        invariant
            sep < 0x80,
            split(bytes_of(text@), sep) == bytes_of_each(pieces@) + split(bytes_of(rest@), sep),
        decreases bytes_of(rest@).len(),
    {
        let b = rest.as_bytes();
        let i = find_byte(b, sep);
        if i >= b.len() {
            let ghost before = pieces@;
            pieces.push(rest.to_owned());
            assert(bytes_of_each(pieces@) =~= bytes_of_each(before) + seq![bytes_of(rest@)]);
            return pieces;
        }
        let (piece, after) = split_around(rest, i);
        let ghost before = pieces@;
        pieces.push(piece.to_owned());
        proof {
            assert(bytes_of_each(pieces@) =~= bytes_of_each(before) + seq![bytes_of(piece@)]);
            assert(bytes_of_each(before) + (seq![bytes_of(piece@)] + split(bytes_of(after@), sep))
                =~= bytes_of_each(pieces@) + split(bytes_of(after@), sep));
        }
        rest = after;
    }
}

/// Whether `a` stands before `b` in the order of texts, which goes byte by
/// byte: the first byte in which they differ decides, and a text stands
/// before every longer text that it begins.
pub open spec fn precedes(a: Seq<u8>, b: Seq<u8>) -> bool
    decreases a.len(),
{
    if b.len() == 0 {
        false
    } else if a.len() == 0 {
        true
    } else if a[0] != b[0] {
        a[0] < b[0]
    } else {
        precedes(a.drop_first(), b.drop_first())
    }
}

/// The text of a cell that may be missing.
pub open spec fn text_of(cell: Option<&str>) -> Option<Seq<char>> {
    match cell {
        Some(text) => Some(text@),
        None => None,
    }
}

} // verus!
