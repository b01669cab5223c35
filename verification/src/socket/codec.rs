//! Base64 of the standard alphabet, with padding.

use vstd::prelude::*;

verus! {

/// What the standard engine of the `base64` crate decodes a text to, or nothing
/// where it refuses it.
pub uninterp spec fn base64_bytes_of(text: Seq<char>) -> Option<Seq<u8>>;

/// What the standard engine of the `base64` crate encodes bytes as.
pub uninterp spec fn base64_text_of(bytes: Seq<u8>) -> Seq<char>;

/// Calls `decode` of `base64::engine::general_purpose::STANDARD`. The contract
/// only names its result.
#[verifier::external_body]
pub(crate) fn base64_decode(text: &str) -> (bytes: Option<Vec<u8>>)
    ensures
        match bytes {
            Some(b) => base64_bytes_of(text@) == Some(b@),
            None => base64_bytes_of(text@) is None,
        },
{
    base64::Engine::decode(&base64::engine::general_purpose::STANDARD, text).ok()
}

/// Calls `encode` of `base64::engine::general_purpose::STANDARD`. The contract
/// names its result and claims that decoding it gives the bytes back.
#[verifier::external_body]
pub(crate) fn base64_encode(bytes: &[u8]) -> (text: String)
    requires
        bytes@.len() <= isize::MAX / 2,
    ensures
        text@ == base64_text_of(bytes@),
        base64_bytes_of(text@) == Some(bytes@),
{
    base64::Engine::encode(&base64::engine::general_purpose::STANDARD, bytes)
}

} // verus!
