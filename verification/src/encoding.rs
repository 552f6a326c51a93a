//! Base64 in the standard alphabet with padding, done by the `base64` crate.

use crate::error::GatewayError;
use base64::Engine;
use vstd::prelude::*;

verus! {

/// The error type of the `base64` crate's decoder.
#[verifier::external_type_specification]
#[verifier::external_body]
pub struct ExDecodeError(base64::DecodeError);

/// What `base64::engine::general_purpose::STANDARD.encode` returns for the
/// bytes `bytes`.
pub uninterp spec fn base64_text(bytes: Seq<u8>) -> Seq<char>;

/// What `base64::engine::general_purpose::STANDARD.decode` returns for the
/// text `text`: the decoded bytes, or `None` where it reports an error.
pub uninterp spec fn base64_bytes(text: Seq<char>) -> Option<Seq<u8>>;

/// An input of this length can be encoded: the length of the encoded text,
/// four characters for every three bytes or part of them, fits a `usize`.
pub open spec fn encodable_len(len: nat) -> bool {
    (len / 3) * 4 + 4 <= usize::MAX
}

/// Calls `Engine::encode` on the `STANDARD` engine. The crate computes the
/// length of the output first and panics where that overflows, so such
/// inputs are left out. The output is known by its name, `base64_text`; the
/// one fact stated of it is that the same engine decodes it to the input.
#[verifier::external_body]
fn standard_encode(bytes: &[u8]) -> (text: String)
    requires
        encodable_len(bytes@.len()),
    ensures
        text@ == base64_text(bytes@),
        base64_bytes(text@) == Some(bytes@),
{
    base64::engine::general_purpose::STANDARD.encode(bytes)
}

/// Calls `Engine::decode` on the `STANDARD` engine. What comes back, bytes
/// or an error, is known by its name, `base64_bytes`.
#[verifier::external_body]
fn standard_decode(text: &str) -> (bytes: Result<Vec<u8>, base64::DecodeError>)
    ensures
        match bytes {
            Ok(b) => base64_bytes(text@) == Some(b@),
            Err(_) => base64_bytes(text@) is None,
        },
{
    base64::engine::general_purpose::STANDARD.decode(text)
}

/// Tells whether an input of `len` bytes can be encoded.
pub fn can_encode(len: usize) -> (yes: bool)
    ensures
        yes == encodable_len(len as nat),
{
    match (len / 3).checked_mul(4) {
        Some(whole) => whole.checked_add(4).is_some(),
        None => false,
    }
}

/// Encodes bytes as base64 text that decodes to the same bytes.
pub(crate) fn encode_base64(bytes: &[u8]) -> (text: String)
    requires
        encodable_len(bytes@.len()),
    ensures
        text@ == base64_text(bytes@),
        base64_bytes(text@) == Some(bytes@),
{
    standard_encode(bytes)
}

/// Decodes base64 text. Text that is not valid base64 is a malformed
/// upstream response.
pub(crate) fn decode_base64(text: &str) -> (bytes: Result<Vec<u8>, GatewayError>)
    ensures
        match base64_bytes(text@) {
            Some(b) => bytes matches Ok(v) && v@ == b,
            None => bytes == Err::<Vec<u8>, GatewayError>(GatewayError::BadUpstreamResponse),
        },
{
    match standard_decode(text) {
        Ok(v) => Ok(v),
        Err(_) => Err(GatewayError::BadUpstreamResponse),
    }
}

} // verus!
