//! Bytes written as text.
use base64::Engine;
use vstd::prelude::*;

verus! {

/// Bytes written with the standard alphabet of Base64, with padding.
pub uninterp spec fn base64_text(bytes: Seq<u8>) -> Seq<char>;

/// The bytes that a text in Base64 stands for; nothing if it is none.
pub uninterp spec fn base64_bytes(data: Seq<char>) -> Option<Seq<u8>>;

/// `base64::Engine::encode` of the standard engine: the bytes written as text.
/// It depends on the bytes alone, and reading the text gives the bytes back.
#[verifier::external_body]
pub(crate) fn encode_base64(bytes: &[u8]) -> (r: String)
    ensures
        r@ == base64_text(bytes@),
        base64_bytes(r@) == Some(bytes@),
{
    base64::engine::general_purpose::STANDARD.encode(bytes)
}

/// `base64::Engine::decode` of the standard engine: the bytes that a text
/// stands for, or nothing where it is not written in Base64. It depends on the
/// text alone.
#[verifier::external_body]
pub(crate) fn decode_base64(data: &str) -> (r: Option<Vec<u8>>)
    ensures
        match r {
            Some(bytes) => base64_bytes(data@) == Some(bytes@),
            None => base64_bytes(data@) is None,
        },
{
    base64::engine::general_purpose::STANDARD.decode(data).ok()
}

} // verus!
