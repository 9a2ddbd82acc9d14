//! Calls into the outside decoders that the service relies on: base64 (crate
//! `base64`), URL syntax (crate `url`) and UTF-8 (std). Their contracts are
//! believed, not proved.

use vstd::prelude::*;
use vstd::utf8::{decode_utf8, encode_utf8, valid_utf8};

verus! {

/// What `base64::decode` (standard alphabet, with padding) gives for the text
/// `text`: the decoded bytes, or `None` where it reports an error.
pub uninterp spec fn base64_decoding(text: Seq<char>) -> Option<Seq<u8>>;

/// Whether `url::Url::parse` accepts the text `text` as an absolute URL.
pub uninterp spec fn url_parses(text: Seq<char>) -> bool;

/// Calls `base64::decode` on the bytes of `text`. Claimed: the result is the
/// one named by `base64_decoding` for `text`. That function computes
/// `len * 4` on the input length, so lengths that would overflow are left out.
#[verifier::external_body]
pub fn decode_base64(text: &str) -> (r: Option<Vec<u8>>)
    requires
        encode_utf8(text@).len() <= usize::MAX / 4,
    ensures
        match r {
            Some(bytes) => base64_decoding(text@) == Some(bytes@),
            None => base64_decoding(text@) is None,
        },
{
    match base64::decode(text) {
        Ok(bytes) => Some(bytes),
        Err(_) => None,
    }
}

/// Calls `url::Url::parse` on `text`. Claimed: it succeeds exactly when
/// `url_parses` holds of `text`.
#[verifier::external_body]
pub fn parses_as_url(text: &str) -> (r: bool)
    ensures
        r == url_parses(text@),
{
    match url::Url::parse(text) {
        Ok(_) => true,
        Err(_) => false,
    }
}

/// Calls `String::from_utf8`. Claimed, as std documents it: the conversion
/// succeeds exactly when the bytes are valid UTF-8, and the text is then the
/// characters that they encode.
#[verifier::external_body]
pub fn utf8_string(bytes: Vec<u8>) -> (r: Option<String>)
    ensures
        r is Some <==> valid_utf8(bytes@),
        r matches Some(s) ==> s@ == decode_utf8(bytes@),
{
    match String::from_utf8(bytes) {
        Ok(s) => Some(s),
        Err(_) => None,
    }
}

/// Calls `std::str::from_utf8`. Claimed, as std documents it: the bytes are
/// accepted exactly when they are valid UTF-8, and the text is then the
/// characters that they encode.
#[verifier::external_body]
pub fn utf8_str(bytes: &[u8]) -> (r: Option<&str>)
    ensures
        r is Some <==> valid_utf8(bytes@),
        r matches Some(s) ==> s@ == decode_utf8(bytes@),
{
    match std::str::from_utf8(bytes) {
        Ok(s) => Some(s),
        Err(_) => None,
    }
}

} // verus!
