//! The calls into outside crates and into std functions that vstd leaves
//! without a specification, each with what the library relies on.

use vstd::prelude::*;
use vstd::utf8::{decode_utf8, valid_utf8};

verus! {

/// The JSON string literal that serde_json writes for a text: quoted, with
/// its escapes.
pub uninterp spec fn json_string_of(s: Seq<char>) -> Seq<char>;

/// The lowercase hexadecimal SHA-256 digest of a text's UTF-8 bytes.
pub uninterp spec fn sha256_hex_of(s: Seq<char>) -> Seq<char>;

/// The bytes that a text decodes to as standard base64, or `None` where it
/// is not valid standard base64.
pub uninterp spec fn base64_decoded(s: Seq<char>) -> Option<Seq<u8>>;

/// Relies on `serde_json::to_string` applied to a `str`: the quoted, escaped
/// JSON string, which depends on the text alone. Writing a `str` into memory
/// cannot fail, so the error arm is never taken.
#[verifier::external_body]
pub(crate) fn json_string(s: &str) -> (r: String)
    ensures
        r@ == json_string_of(s@),
{
    serde_json::to_string(s).unwrap()
}

/// Relies on `sha256::digest` applied to a `&str`: the hex digest of its
/// bytes, which depends on the text alone.
#[verifier::external_body]
pub(crate) fn sha256_hex(s: &str) -> (r: String)
    ensures
        r@ == sha256_hex_of(s@),
{
    sha256::digest(s)
}

/// Relies on `base64::decode` (standard alphabet): the decoded bytes, or an
/// error for input that is not base64. It panics only where the input length
/// plus three overflows `usize`, which no `str` in memory reaches.
#[verifier::external_body]
pub(crate) fn base64_decode(s: &str) -> (r: Option<Vec<u8>>)
    ensures
        match r {
            Some(b) => base64_decoded(s@) == Some(b@),
            None => base64_decoded(s@) is None,
        },
{
    base64::decode(s).ok()
}

/// Relies on `String::from_utf8`: it succeeds exactly on valid UTF-8, and
/// then holds the characters that the bytes encode.
#[verifier::external_body]
pub(crate) fn utf8_string(b: Vec<u8>) -> (r: Option<String>)
    ensures
        r is Some <==> valid_utf8(b@),
        r matches Some(s) ==> s@ == decode_utf8(b@),
{
    String::from_utf8(b).ok()
}

} // verus!
