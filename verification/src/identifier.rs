//! Universally unique identifiers.

use vstd::prelude::*;

verus! {

/// The bytes of the identifier that a text holds.
pub uninterp spec fn parsed_uuid(text: Seq<char>) -> Option<Seq<u8>>;

/// A digit of a number below sixteen.
pub open spec fn hex_digit(n: int) -> char {
    if n < 10 {
        ('0' as u8 + n) as u8 as char
    } else {
        ('a' as u8 + n - 10) as u8 as char
    }
}

/// Bytes in hexadecimal notation, two digits each.
pub open spec fn hex_text(bytes: Seq<u8>) -> Seq<char>
    decreases bytes.len(),
{
    if bytes.len() == 0 {
        Seq::empty()
    } else {
        hex_text(bytes.drop_last()).push(hex_digit(bytes.last() as int / 16)).push(
            hex_digit(bytes.last() as int % 16),
        )
    }
}

/// The hyphenated text of an identifier: its bytes in hexadecimal notation, in five groups.
pub open spec fn uuid_text(bytes: Seq<u8>) -> Seq<char> {
    hex_text(bytes.subrange(0, 4)) + seq!['-'] + hex_text(bytes.subrange(4, 6)) + seq!['-']
        + hex_text(bytes.subrange(6, 8)) + seq!['-'] + hex_text(bytes.subrange(8, 10)) + seq!['-']
        + hex_text(bytes.subrange(10, 16))
}

/// A text that holds an identifier.
pub open spec fn is_uuid(text: Seq<char>) -> bool {
    parsed_uuid(text) is Some
}

/// An identifier that was drawn at random says so in its version.
pub open spec fn is_random_uuid(bytes: Seq<u8>) -> bool {
    bytes[6] / 16 == 4
}

/// A lower-case hexadecimal digit.
pub open spec fn is_hex_digit(c: char) -> bool {
    '0' <= c <= '9' || 'a' <= c <= 'f'
}

/// Whether a text holds an identifier: calls `uuid::Uuid::parse_str`, whose result is named
/// [`parsed_uuid`].
#[verifier::external_body]
pub(crate) fn holds_uuid(text: &str) -> (r: bool)
    ensures
        r == parsed_uuid(text@) is Some,
{
    uuid::Uuid::parse_str(text).is_ok()
}

/// Draws an identifier with `uuid::Uuid::new_v4` and prints it with hyphens: 36 characters, which
/// `uuid::Uuid::parse_str` reads. Which identifier is drawn is left open.
#[verifier::external_body]
pub(crate) fn new_uuid() -> (text: String)
    ensures
        text@.len() == 36,
        parsed_uuid(text@) is Some,
        forall|i: int| 0 <= i < text@.len() ==> is_hex_digit(#[trigger] text@[i]) || text@[i] == '-',
{
    uuid::Uuid::new_v4().to_string()
}

/// Draws an identifier with `uuid::Uuid::new_v4` and prints it with `simple`: 32 lower-case
/// hexadecimal digits. Which identifier is drawn is left open.
#[verifier::external_body]
pub(crate) fn new_simple_uuid() -> (text: String)
    ensures
        text@.len() == 32,
        forall|i: int| 0 <= i < text@.len() ==> is_hex_digit(#[trigger] text@[i]),
{
    uuid::Uuid::new_v4().simple().to_string()
}

/// Calls `uuid::Uuid::get_version`: the upper half of the seventh byte is 4 for an identifier that
/// was drawn at random.
#[verifier::external_body]
pub(crate) fn drawn_at_random(bytes: [u8; 16]) -> (r: bool)
    ensures
        r == is_random_uuid(bytes@),
{
    uuid::Uuid::from_bytes(bytes).get_version() == Some(uuid::Version::Random)
}

/// Prints an identifier with `uuid::Uuid::hyphenated`: the bytes in lower-case hexadecimal digits, with
/// hyphens after four, six, eight and ten bytes. `uuid::Uuid::parse_str` reads the identifier back.
#[verifier::external_body]
pub(crate) fn write_uuid(bytes: [u8; 16]) -> (text: String)
    ensures
        text@ == uuid_text(bytes@),
        parsed_uuid(text@) == Some(bytes@),
{
    uuid::Uuid::from_bytes(bytes).hyphenated().to_string()
}

/// Bytes are written one after another, two digits each, and the digits are lower-case.
pub proof fn written_two_digits_each(a: Seq<u8>, b: Seq<u8>)
    ensures
        hex_text(a + b) == hex_text(a) + hex_text(b),
        hex_text(a).len() == 2 * a.len(),
    decreases b.len(), a.len(),
{
    if a.len() > 0 {
        written_two_digits_each(a.drop_last(), Seq::empty());
    }
    if b.len() == 0 {
        assert(a + b =~= a);
        assert(hex_text(a) + hex_text(b) =~= hex_text(a));
    } else {
        written_two_digits_each(a, b.drop_last());
        assert((a + b).drop_last() =~= a + b.drop_last());
        assert((a + b).last() == b.last());
        assert(hex_text(a + b) =~= hex_text(a) + hex_text(b));
    }
}

/// An identifier of sixteen bytes is written in thirty-six characters, with hyphens in four places.
pub proof fn written_in_groups(bytes: Seq<u8>)
    requires
        bytes.len() == 16,
    ensures
        uuid_text(bytes).len() == 36,
        uuid_text(bytes)[8] == '-',
        uuid_text(bytes)[13] == '-',
        uuid_text(bytes)[18] == '-',
        uuid_text(bytes)[23] == '-',
{
    let none = Seq::<u8>::empty();
    written_two_digits_each(bytes.subrange(0, 4), none);
    written_two_digits_each(bytes.subrange(4, 6), none);
    written_two_digits_each(bytes.subrange(6, 8), none);
    written_two_digits_each(bytes.subrange(8, 10), none);
    written_two_digits_each(bytes.subrange(10, 16), none);
}

} // verus!
