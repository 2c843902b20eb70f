//! Specifications of the few standard-library string operations the library
//! uses and `vstd` leaves unspecified.

use vstd::prelude::*;
use vstd::string::StringSliceAdditionalSpecFns;
use vstd::utf8::{decode_utf8, is_scalar, valid_utf8};

verus! {

/// `std::str::Utf8Error`, the error of a failed UTF-8 conversion.
#[verifier::external_type_specification]
#[verifier::external_body]
pub struct ExUtf8Error(std::str::Utf8Error);

/// `char::from_u32` gives the character with a code point exactly when the
/// code point is a Unicode scalar value.
pub assume_specification[ char::from_u32 ](i: u32) -> (c: Option<char>)
    ensures
        is_scalar(i) ==> c == Some(i as char),
        !is_scalar(i) ==> c is None,
;

/// Calls `std::str::from_utf8`: it succeeds exactly on valid UTF-8, and the
/// text it returns is encoded by those bytes.
#[verifier::external_body]
pub fn utf8_text(bytes: &[u8]) -> (text: Result<&str, std::str::Utf8Error>)
    ensures
        text is Ok <==> valid_utf8(bytes@),
        text matches Ok(s) ==> s.spec_bytes() == bytes@,
{
    std::str::from_utf8(bytes)
}

/// `String::push` appends one character.
pub assume_specification[ String::push ](string: &mut String, ch: char)
    ensures
        final(string)@ == old(string)@.push(ch),
;

/// Calls `String::from_utf8_lossy`: bytes that are valid UTF-8 become the
/// text they encode; what the replacement characters are for invalid bytes
/// is not stated.
#[verifier::external_body]
pub fn lossy_text(bytes: &[u8]) -> (text: String)
    ensures
        valid_utf8(bytes@) ==> text@ == decode_utf8(bytes@),
{
    String::from_utf8_lossy(bytes).into_owned()
}

} // verus!
