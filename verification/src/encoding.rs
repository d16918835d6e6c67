//! Base64 and random bytes, from the crates `base64` and `rand`.

use crate::relay::NONCE_LEN;
use base64::Engine;
use vstd::prelude::*;

verus! {

/// The base64 text of `bytes`: the standard alphabet, padded.
pub uninterp spec fn base64_text(bytes: Seq<u8>) -> Seq<char>;

/// The bytes that a base64 text stands for, where it is one.
pub uninterp spec fn base64_bytes(text: Seq<char>) -> Option<Seq<u8>>;

/// Why a text is no base64, as the decoder reports it.
#[verifier::external_type_specification]
#[verifier::external_body]
pub struct ExDecodeError(base64::DecodeError);

/// `base64::engine::general_purpose::STANDARD.encode`: gives the base64 text of
/// `bytes`, four characters for every three bytes begun, which the same engine
/// decodes to `bytes` again. It panics where the length of the text is beyond what
/// a string can hold, hence the bound.
#[verifier::external_body]
pub(crate) fn encode_base64(bytes: &[u8]) -> (text: String)
    requires
        bytes@.len() <= usize::MAX / 4,
    ensures
        text@ == base64_text(bytes@),
        text@.len() == 4 * ((bytes@.len() + 2) / 3),
        base64_bytes(text@) == Some(bytes@),
{
    base64::engine::general_purpose::STANDARD.encode(bytes)
}

/// `base64::engine::general_purpose::STANDARD.decode`: gives the bytes that `text`
/// stands for, or an error where it is no padded base64 text of the standard
/// alphabet.
#[verifier::external_body]
pub(crate) fn decode_base64(text: &str) -> (bytes: Result<Vec<u8>, base64::DecodeError>)
    ensures
        bytes matches Ok(b) ==> base64_bytes(text@) == Some(b@),
        bytes is Err ==> base64_bytes(text@) is None,
{
    base64::engine::general_purpose::STANDARD.decode(text)
}

/// `rand::random`: as many random bytes as a nonce has, from the generator of the
/// thread. Nothing is said of their values.
#[verifier::external_body]
pub(crate) fn random_bytes() -> (bytes: [u8; NONCE_LEN]) {
    rand::random::<[u8; NONCE_LEN]>()
}

} // verus!
