//! Trusted bridges to byte/text codecs of outside crates and of std.

use vstd::prelude::*;

use vstd::utf8::{encode_utf8, valid_utf8};

verus! {

/// What base64's standard alphabet decodes `s` to, when it decodes at all.
/// The result is a function of the characters alone.
pub uninterp spec fn base64_decoded(s: Seq<char>) -> Option<Seq<u8>>;

/// The standard-alphabet base64 rendering of `b`, a function of the bytes
/// alone.
pub uninterp spec fn base64_encoded(b: Seq<u8>) -> Seq<char>;

/// Relies on base64's `STANDARD.decode`: the same text decodes to the same
/// bytes, or fails for text outside the alphabet.
#[verifier::external_body]
pub(crate) fn base64_decode(s: &str) -> (r: Option<Vec<u8>>)
    ensures
        r is Some <==> base64_decoded(s@) is Some,
        r matches Some(v) ==> Some(v@) == base64_decoded(s@),
{
    base64::Engine::decode(&base64::engine::general_purpose::STANDARD, s.as_bytes()).ok()
}

/// Relies on base64's `STANDARD.encode`: the same bytes render to the same
/// text, and the rendering decodes back to the bytes it was made from.
#[verifier::external_body]
pub(crate) fn base64_encode(b: &[u8]) -> (r: String)
    ensures
        r@ == base64_encoded(b@),
        base64_decoded(r@) == Some(b@),
{
    base64::Engine::encode(&base64::engine::general_purpose::STANDARD, b)
}

/// Relies on `String::from_utf8`: succeeds exactly on valid UTF-8 and hands
/// the bytes back untouched on failure.
#[verifier::external_body]
pub(crate) fn utf8_decode(bytes: Vec<u8>) -> (r: Result<String, Vec<u8>>)
    ensures
        r is Ok <==> valid_utf8(bytes@),
        r matches Ok(s) ==> encode_utf8(s@) == bytes@,
        r matches Err(v) ==> v@ == bytes@,
{
    String::from_utf8(bytes).map_err(|e| e.into_bytes())
}

} // verus!
