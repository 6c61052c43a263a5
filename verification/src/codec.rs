//! Trusted boundary around text handling: the `bs58` codec and the two
//! std string operations vstd gives no specification to.
//!
//! Raw key and token bytes travel to and from the user as base-58 text.
//! Each wrapper here makes exactly one outside call; the base-58 encoding
//! itself is named by uninterpreted spec functions, together with the
//! round-trip fact its crate documents.

use vstd::prelude::*;

verus! {

/// The base-58 text that `bs58::encode` produces for the bytes `b`.
pub uninterp spec fn base58_of(b: Seq<u8>) -> Seq<char>;

/// What `bs58::decode` returns for the text `s`: the decoded bytes, or
/// `None` when `s` is not valid base-58.
pub uninterp spec fn base58_decode_of(s: Seq<char>) -> Option<Seq<u8>>;

/// Relies on `bs58::encode` (bitcoin alphabet): the text is a function of
/// the input bytes alone, and `bs58::decode` recovers the bytes from it.
#[verifier::external_body]
pub(crate) fn base58_encode(b: &[u8]) -> (r: String)
    ensures
        r@ == base58_of(b@),
        base58_decode_of(r@) == Some(b@),
{
    bs58::encode(b).into_string()
}

/// Relies on `str`'s `PartialEq`: string slices are equal exactly when
/// their character sequences are.
#[verifier::external_body]
pub(crate) fn str_eq(a: &str, b: &str) -> (r: bool)
    ensures
        r == (a@ == b@),
{
    a == b
}

/// Relies on `String::from_utf8`: it succeeds exactly on valid UTF-8 and
/// decodes those bytes to their characters.
#[verifier::external_body]
pub(crate) fn string_from_utf8(b: Vec<u8>) -> (r: Result<String, ()>)
    ensures
        match r {
            Ok(s) => vstd::utf8::valid_utf8(b@) && s@ == vstd::utf8::decode_utf8(b@),
            Err(_) => !vstd::utf8::valid_utf8(b@),
        },
{
    String::from_utf8(b).map_err(|_| ())
}

/// Relies on `bs58::decode` (bitcoin alphabet): decoding fails exactly on
/// text that is not valid base-58.
#[verifier::external_body]
pub(crate) fn base58_decode(s: &str) -> (r: Result<Vec<u8>, ()>)
    ensures
        match r {
            Ok(v) => base58_decode_of(s@) == Some(v@),
            Err(_) => base58_decode_of(s@) is None,
        },
{
    bs58::decode(s).into_vec().map_err(|_| ())
}

} // verus!
