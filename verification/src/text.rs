//! Small helpers on strings and byte buffers.

use vstd::prelude::*;
use vstd::utf8::{decode_utf8, valid_utf8};
use bytes::Buf;

verus! {

/// Compares two string slices with `str`'s own equality (`PartialEq::eq`), which
/// holds exactly when both hold the same characters.
#[verifier::external_body]
pub(crate) fn same_text(a: &str, b: &str) -> (same: bool)
    ensures
        same == (a@ == b@),
{
    a == b
}

/// Reads bytes as text with `std::str::from_utf8`, which accepts exactly the
/// well-formed UTF-8 sequences and then gives the characters they encode.
#[verifier::external_body]
pub(crate) fn text_of(bytes: &[u8]) -> (text: Option<&str>)
    ensures
        text is Some <==> valid_utf8(bytes@),
        text matches Some(s) ==> s@ == decode_utf8(bytes@),
{
    std::str::from_utf8(bytes).ok()
}

/// The number that four bytes denote, the lowest byte first.
pub open spec fn le_word(bytes: Seq<u8>) -> int {
    bytes[0] as int + 256 * (bytes[1] as int) + 65536 * (bytes[2] as int) + 16777216 * (
    bytes[3] as int)
}

/// Reads the first four bytes of `bytes` with `bytes::Buf::get_u32_le`: an
/// unsigned integer in little-endian byte order. `get_u32_le` panics on fewer than
/// four bytes, so four must be there.
#[verifier::external_body]
pub(crate) fn first_word(bytes: &[u8]) -> (word: u32)
    requires
        bytes@.len() >= 4,
    ensures
        word == le_word(bytes@),
{
    let mut window = bytes;
    window.get_u32_le()
}

} // verus!
