//! Base64 payloads of audio messages.

use base64::engine::general_purpose::STANDARD;
use base64::{DecodeError, Engine};
use vstd::prelude::*;

verus! {

/// Why `base64` could not decode a text.
#[verifier::external_type_specification]
#[verifier::external_body]
pub struct ExDecodeError(DecodeError);

/// The bytes that a text stands for in standard, padded Base64.
pub uninterp spec fn base64_bytes(text: Seq<char>) -> Option<Seq<u8>>;

/// Bytes written in standard, padded Base64.
pub uninterp spec fn base64_text(bytes: Seq<u8>) -> Seq<char>;

/// `Engine::decode` of `STANDARD`: whether a text is padded Base64, and the
/// bytes it then stands for, depend on the text alone.
#[verifier::external_body]
fn decode(text: &str) -> (res: Result<Vec<u8>, DecodeError>)
    ensures
        res is Ok <==> base64_bytes(text@) is Some,
        res matches Ok(bytes) ==> base64_bytes(text@) == Some(bytes@),
{
    STANDARD.decode(text)
}

/// `Engine::encode` of `STANDARD`: the text depends on the bytes alone and
/// decodes to them. Its one panic of its own, where the length of the text is no
/// `usize`, is out of reach of a slice.
#[verifier::external_body]
pub(crate) fn encode_base64(bytes: &[u8]) -> (res: String)
    ensures
        res@ == base64_text(bytes@),
        base64_bytes(res@) == Some(bytes@),
{
    STANDARD.encode(bytes)
}

/// The bytes that `text` stands for, if it is padded Base64.
pub fn decode_base64(text: &str) -> (res: Option<Vec<u8>>)
    ensures
        res is Some <==> base64_bytes(text@) is Some,
        res matches Some(bytes) ==> base64_bytes(text@) == Some(bytes@),
{
    match decode(text) {
        Ok(bytes) => Some(bytes),
        Err(_) => None,
    }
}

} // verus!
