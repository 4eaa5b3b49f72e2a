//! The calls this library makes into outside crates and into parts of std
//! that vstd does not specify. Every contract here is trusted.

use encoding_rs::Encoding;
use uuid::Uuid;
use vstd::prelude::*;

verus! {

/// `uuid::Uuid`, carried through the library as an opaque value.
#[verifier::external_type_specification]
#[verifier::external_body]
pub struct ExUuid(Uuid);

/// `encoding_rs::Encoding`, carried through the library as an opaque value.
#[verifier::external_type_specification]
#[verifier::external_body]
pub struct ExEncoding(Encoding);

/// The sixteen bytes a `uuid::Uuid` holds: its one field, built by
/// `Uuid::from_bytes` and handed out by `Uuid::as_bytes`.
pub uninterp spec fn uuid_bytes(u: Uuid) -> Seq<u8>;

/// Calls `uuid::Uuid::from_bytes`, whose body is `Uuid(bytes)`. The
/// contract claims that the UUID holds exactly the given bytes, in the order
/// given.
#[verifier::external_body]
pub(crate) fn make_uuid(bytes: [u8; 16]) -> (u: Uuid)
    ensures
        uuid_bytes(u) == bytes@,
{
    Uuid::from_bytes(bytes)
}

/// The replacement character U+FFFD.
pub open spec fn replacement_char() -> char {
    '\u{FFFD}'
}

/// UTF-16 decoding with each unpaired surrogate replaced by U+FFFD: a unit
/// outside 0xD800..=0xDFFF is its own character, a high surrogate followed by
/// a low one is the character they encode, and any other surrogate unit is
/// U+FFFD, decoding going on with the next unit.
pub open spec fn spec_utf16_lossy(units: Seq<u16>) -> Seq<char>
    decreases units.len(),
{
    if units.len() == 0 {
        seq![]
    } else if units[0] < 0xD800 || units[0] > 0xDFFF {
        seq![units[0] as char] + spec_utf16_lossy(units.drop_first())
    } else if units[0] <= 0xDBFF && units.len() >= 2 && 0xDC00 <= units[1] <= 0xDFFF {
        seq![(0x10000 + (units[0] - 0xD800) * 0x400 + (units[1] - 0xDC00)) as char]
            + spec_utf16_lossy(units.subrange(2, units.len() as int))
    } else {
        seq![replacement_char()] + spec_utf16_lossy(units.drop_first())
    }
}

/// Calls `String::from_utf16_lossy`, which decodes UTF-16 and replaces
/// invalid data (unpaired surrogates) with U+FFFD. The contract states that
/// decoding by `spec_utf16_lossy`.
#[verifier::external_body]
pub(crate) fn string_from_utf16_lossy(units: &[u16]) -> (s: String)
    ensures
        s@ == spec_utf16_lossy(units@),
{
    String::from_utf16_lossy(units)
}

/// The text that `encoding_rs::Encoding::decode_without_bom_handling`
/// decodes from the given bytes with the given encoding, malformed
/// sequences replaced by U+FFFD.
pub uninterp spec fn decoded_without_bom(encoding: Encoding, bytes: Seq<u8>) -> Seq<char>;

/// Calls `encoding_rs::Encoding::decode_without_bom_handling` and takes the
/// decoded text as an owned `String`, dropping the flag that tells whether
/// malformed sequences were replaced. The contract claims that the text
/// depends on the encoding and the bytes alone (it is `decoded_without_bom`
/// of them). That method panics only when its output buffer size (at most
/// three times the input length plus a small constant) overflows, which
/// the `requires` rules out.
#[verifier::external_body]
pub(crate) fn decode_without_bom(encoding: &'static Encoding, bytes: &[u8]) -> (s: String)
    requires
        bytes@.len() <= isize::MAX / 4,
    ensures
        s@ == decoded_without_bom(*encoding, bytes@),
{
    let (text, _) = encoding.decode_without_bom_handling(bytes);
    text.into_owned()
}

} // verus!
