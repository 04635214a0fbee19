//! Plain text fields: UTF-8, checked.

use crate::error::DecodeError;
use vstd::prelude::*;
use vstd::utf8::{decode_utf8, encode_utf8, valid_utf8};

verus! {

/// `std::str::Utf8Error`, what `std::str::from_utf8` fails with. It is only
/// told apart from success, never looked into.
#[verifier::external_type_specification]
#[verifier::external_body]
pub struct ExUtf8Error(std::str::Utf8Error);

/// `std::str::from_utf8`, which vstd leaves without a specification: it
/// succeeds exactly on valid UTF-8, and the string it returns is made of the
/// bytes it was given.
pub assume_specification[ std::str::from_utf8 ](v: &[u8]) -> (r: Result<&str, std::str::Utf8Error>)
    ensures
        r is Ok <==> valid_utf8(v@),
        r matches Ok(s) ==> encode_utf8(s@) == v@,
;

/// What a plain text field with the payload `bytes` holds.
pub open spec fn plain_text(bytes: Seq<u8>) -> Result<Seq<char>, DecodeError> {
    if valid_utf8(bytes) {
        Ok(decode_utf8(bytes))
    } else {
        Err(DecodeError::InvalidEncoding)
    }
}

/// The text that `vec` encodes, or `InvalidEncoding` if it is not UTF-8.
pub fn bytes_to_str(vec: &[u8]) -> (r: Result<String, DecodeError>)
    ensures
        match plain_text(vec@) {
            Ok(text) => r is Ok && r->Ok_0@ == text,
            Err(e) => r == Err::<String, DecodeError>(e),
        },
{
    broadcast use vstd::utf8::encode_utf8_decode_utf8;

    match std::str::from_utf8(vec) {
        Ok(v) => Ok(v.to_owned()),
        Err(_) => Err(DecodeError::InvalidEncoding),
    }
}

} // verus!
